//! One entry of the layout stack: an open frame that knows where its next
//! child goes and how it grows when a child is added.

use vstd::prelude::*;
use crate::vec2::Vec2;

verus! {

/// The direction in which an open frame stacks its children.
#[derive(Clone, Copy, Debug, PartialEq, Eq, Structural)]
pub enum LayoutKind {
    Vert,
    Horz,
}

/// An open layout frame: a fixed origin `pos` and a `size` that has
/// accumulated the footprints of the children added so far.
#[derive(Clone, Copy, Debug, PartialEq, Eq, Structural)]
pub struct Layout {
    pub kind: LayoutKind,
    pub pos: Vec2,
    pub size: Vec2,
}

impl Layout {
    /// Column of the next child: to the right of all prior children in a
    /// horizontal frame, the frame's own column in a vertical one.
    pub open spec fn avail_x(self) -> int {
        match self.kind {
            LayoutKind::Horz => self.pos.x + self.size.x,
            LayoutKind::Vert => self.pos.x as int,
        }
    }

    /// Row of the next child: below all prior children in a vertical
    /// frame, the frame's own row in a horizontal one.
    pub open spec fn avail_y(self) -> int {
        match self.kind {
            LayoutKind::Horz => self.pos.y as int,
            LayoutKind::Vert => self.pos.y + self.size.y,
        }
    }

    /// Width of the frame after a child of size `child` is added: widths
    /// add up along a horizontal frame, a vertical frame keeps the widest.
    pub open spec fn grown_x(self, child: Vec2) -> int {
        match self.kind {
            LayoutKind::Horz => self.size.x + child.x,
            LayoutKind::Vert => vstd::math::max(self.size.x as int, child.x as int),
        }
    }

    /// Height of the frame after a child of size `child` is added: heights
    /// add up along a vertical frame, a horizontal frame keeps the tallest.
    pub open spec fn grown_y(self, child: Vec2) -> int {
        match self.kind {
            LayoutKind::Horz => vstd::math::max(self.size.y as int, child.y as int),
            LayoutKind::Vert => self.size.y + child.y,
        }
    }

    /// Whether the next-child position fits the machine integer type.
    pub open spec fn avail_fits(self) -> bool {
        i32::MIN <= self.avail_x() <= i32::MAX && i32::MIN <= self.avail_y() <= i32::MAX
    }

    /// Whether the size grown by `child` fits the machine integer type.
    pub open spec fn grown_fits(self, child: Vec2) -> bool {
        i32::MIN <= self.grown_x(child) <= i32::MAX && i32::MIN <= self.grown_y(child)
            <= i32::MAX
    }

    /// Decide `avail_fits` at run time, for callers that cannot prove it.
    pub fn avail_fits_check(&self) -> (b: bool)
        ensures
            b == self.avail_fits(),
    {
        match self.kind {
            LayoutKind::Horz => {
                let s = self.pos.x as i64 + self.size.x as i64;
                i32::MIN as i64 <= s && s <= i32::MAX as i64
            },
            LayoutKind::Vert => {
                let s = self.pos.y as i64 + self.size.y as i64;
                i32::MIN as i64 <= s && s <= i32::MAX as i64
            },
        }
    }

    /// Decide `grown_fits` at run time, for callers that cannot prove it.
    pub fn grown_fits_check(&self, child: Vec2) -> (b: bool)
        ensures
            b == self.grown_fits(child),
    {
        match self.kind {
            LayoutKind::Horz => {
                let s = self.size.x as i64 + child.x as i64;
                i32::MIN as i64 <= s && s <= i32::MAX as i64
            },
            LayoutKind::Vert => {
                let s = self.size.y as i64 + child.y as i64;
                i32::MIN as i64 <= s && s <= i32::MAX as i64
            },
        }
    }

    /// Where the next child of this frame starts.
    pub fn available_pos(&self) -> (r: Vec2)
        requires
            self.avail_fits(),
        ensures
            r.x == self.avail_x(),
            r.y == self.avail_y(),
    {
        match self.kind {
            LayoutKind::Horz => self.pos.add(self.size.mul(Vec2::new(1, 0))),
            LayoutKind::Vert => self.pos.add(self.size.mul(Vec2::new(0, 1))),
        }
    }

    /// Grow the frame by the footprint of one child that was just placed.
    pub fn add_widget(&mut self, size: Vec2)
        requires
            old(self).grown_fits(size),
        ensures
            final(self).kind == old(self).kind,
            final(self).pos == old(self).pos,
            final(self).size.x == old(self).grown_x(size),
            final(self).size.y == old(self).grown_y(size),
    {
        match self.kind {
            LayoutKind::Horz => {
                self.size.x = self.size.x + size.x;
                if size.y > self.size.y {
                    self.size.y = size.y;
                }
            },
            LayoutKind::Vert => {
                if size.x > self.size.x {
                    self.size.x = size.x;
                }
                self.size.y = self.size.y + size.y;
            },
        }
    }
}

/// One growth step of a frame's accumulated size, at the spec level:
/// `grow_pair(kind, sx, sy, wx, wy)` is what `(grown_x, grown_y)` of a
/// frame of that kind and size `(sx, sy)` gives for a child of size
/// `(wx, wy)` (see `lemma_grow_pair_matches`).
pub open spec fn grow_pair(kind: LayoutKind, sx: int, sy: int, wx: int, wy: int) -> (int, int) {
    match kind {
        LayoutKind::Horz => (sx + wx, vstd::math::max(sy, wy)),
        LayoutKind::Vert => (vstd::math::max(sx, wx), sy + wy),
    }
}

/// `grow_pair` is exactly the growth that `Layout::add_widget` promises.
pub proof fn lemma_grow_pair_matches(l: Layout, child: Vec2)
    ensures
        grow_pair(l.kind, l.size.x as int, l.size.y as int, child.x as int, child.y as int) == (
            l.grown_x(child),
            l.grown_y(child),
        ),
{
}

/// The accumulated size of a frame of kind `kind` that started at
/// `(sx, sy)` after a run of one-row labels of declared widths `ws`.
pub open spec fn size_after_labels(kind: LayoutKind, sx: int, sy: int, ws: Seq<int>) -> (int, int)
    decreases ws.len(),
{
    if ws.len() == 0 {
        (sx, sy)
    } else {
        let g = grow_pair(kind, sx, sy, ws.first(), 1);
        size_after_labels(kind, g.0, g.1, ws.drop_first())
    }
}

/// The sum of a run of declared widths.
pub open spec fn width_sum(ws: Seq<int>) -> int
    decreases ws.len(),
{
    if ws.len() == 0 {
        0
    } else {
        ws.first() + width_sum(ws.drop_first())
    }
}

/// The widest of `base` and a run of declared widths.
pub open spec fn width_max(base: int, ws: Seq<int>) -> int
    decreases ws.len(),
{
    if ws.len() == 0 {
        base
    } else {
        width_max(vstd::math::max(base, ws.first()), ws.drop_first())
    }
}

/// A horizontal frame that takes a run of one-row labels ends up exactly
/// as wide as their widths summed, and one row tall once any label is in:
/// labels sit side by side, so the next one starts at the frame's origin
/// column plus the widths of all earlier siblings.
pub proof fn lemma_horz_label_run(sx: int, sy: int, ws: Seq<int>)
    ensures
        size_after_labels(LayoutKind::Horz, sx, sy, ws).0 == sx + width_sum(ws),
        size_after_labels(LayoutKind::Horz, sx, sy, ws).1 == (if ws.len() == 0 {
            sy
        } else {
            vstd::math::max(sy, 1)
        }),
    decreases ws.len(),
{
    if ws.len() > 0 {
        lemma_horz_label_run(sx + ws.first(), vstd::math::max(sy, 1), ws.drop_first());
    }
}

/// A vertical frame that takes a run of one-row labels ends up exactly as
/// wide as its widest label and one row taller per label: labels stack, so
/// the next one starts at the frame's origin row plus the number of
/// earlier siblings.
pub proof fn lemma_vert_label_run(sx: int, sy: int, ws: Seq<int>)
    ensures
        size_after_labels(LayoutKind::Vert, sx, sy, ws).0 == width_max(sx, ws),
        size_after_labels(LayoutKind::Vert, sx, sy, ws).1 == sy + ws.len(),
    decreases ws.len(),
{
    if ws.len() > 0 {
        lemma_vert_label_run(vstd::math::max(sx, ws.first()), sy + 1, ws.drop_first());
    }
}

} // verus!
