//! The immediate-mode layout engine: a stack of open frames, grown during a
//! single top-to-bottom pass. Instead of touching a terminal, the engine
//! records one draw command per label; a thin shell can replay the commands
//! on whatever surface it owns.

use vstd::prelude::*;
use crate::layout::{Layout, LayoutKind};
use crate::vec2::Vec2;

verus! {

/// How a piece of text is to be shown.
#[derive(Clone, Copy, Debug, PartialEq, Eq, Structural)]
pub enum Style {
    Regular,
    Highlighted,
}

/// One deferred draw call: `text` is to appear with its first character in
/// the cell at `pos` (column `pos.x`, row `pos.y`).
#[derive(Debug)]
pub struct DrawCommand {
    pub pos: Vec2,
    pub text: String,
    pub style: Style,
}

/// The layout engine. The last frame of `layouts` is the innermost open
/// frame, the one that receives the next child.
pub struct Ui {
    layouts: Vec<Layout>,
    commands: Vec<DrawCommand>,
}

impl Ui {
    /// The stack of open frames, innermost last.
    pub closed spec fn frames(self) -> Seq<Layout> {
        self.layouts@
    }

    /// The draw commands recorded since `begin`, in issue order.
    pub closed spec fn drawn(self) -> Seq<DrawCommand> {
        self.commands@
    }

    /// The innermost open frame.
    pub open spec fn top_frame(self) -> Layout {
        self.frames().last()
    }

    /// The frame directly enclosing the innermost one.
    pub open spec fn parent_frame(self) -> Layout {
        self.frames()[self.frames().len() - 2]
    }

    pub fn new() -> (r: Ui)
        ensures
            r.frames().len() == 0,
            r.drawn().len() == 0,
    {
        Ui { layouts: Vec::new(), commands: Vec::new() }
    }

    /// How many frames are open.
    pub fn depth(&self) -> (n: usize)
        ensures
            n == self.frames().len(),
    {
        self.layouts.len()
    }

    /// The accumulated size of the innermost open frame.
    pub fn top_size(&self) -> (s: Vec2)
        requires
            self.frames().len() > 0,
        ensures
            s == self.top_frame().size,
    {
        self.layouts[self.layouts.len() - 1].size
    }

    /// The draw commands of the current pass, for a shell to replay.
    pub fn commands(&self) -> (r: &Vec<DrawCommand>)
        ensures
            r@ == self.drawn(),
    {
        &self.commands
    }

    /// Decide at run time whether `begin_layout` may be called.
    pub fn can_begin_layout(&self) -> (b: bool)
        ensures
            b == (self.frames().len() > 0 && self.top_frame().avail_fits()),
    {
        self.layouts.len() > 0 && self.layouts[self.layouts.len() - 1].avail_fits_check()
    }

    /// Decide at run time whether `end_layout` may be called.
    pub fn can_end_layout(&self) -> (b: bool)
        ensures
            b == (self.frames().len() >= 2 && self.parent_frame().grown_fits(
                self.top_frame().size,
            )),
    {
        self.layouts.len() >= 2 && self.layouts[self.layouts.len() - 2].grown_fits_check(
            self.layouts[self.layouts.len() - 1].size,
        )
    }

    /// Decide at run time whether `label_fixed_width` may be called with
    /// the given declared width.
    pub fn can_label(&self, width: i32) -> (b: bool)
        ensures
            b == (self.frames().len() > 0 && self.top_frame().avail_fits()
                && self.top_frame().grown_fits((Vec2 { x: width, y: 1 }))),
    {
        self.layouts.len() > 0 && self.layouts[self.layouts.len() - 1].avail_fits_check()
            && self.layouts[self.layouts.len() - 1].grown_fits_check(Vec2::new(width, 1))
    }

    /// Open the root frame of a fresh pass. Only legal while no frame is
    /// open; any commands of an earlier pass are discarded.
    pub fn begin(&mut self, pos: Vec2, kind: LayoutKind)
        requires
            old(self).frames().len() == 0,
        ensures
            final(self).frames().len() == 1,
            final(self).top_frame().kind == kind,
            final(self).top_frame().pos == pos,
            final(self).top_frame().size.x == 0,
            final(self).top_frame().size.y == 0,
            final(self).drawn().len() == 0,
    {
        self.commands.clear();
        self.layouts.push(Layout { kind, pos, size: Vec2::new(0, 0) });
    }

    /// Open a nested frame at the enclosing frame's next-child position.
    /// Only legal while some frame is open.
    pub fn begin_layout(&mut self, kind: LayoutKind)
        requires
            old(self).frames().len() > 0,
            old(self).top_frame().avail_fits(),
        ensures
            final(self).frames().len() == old(self).frames().len() + 1,
            final(self).frames().drop_last() == old(self).frames(),
            final(self).top_frame().kind == kind,
            final(self).top_frame().pos.x == old(self).top_frame().avail_x(),
            final(self).top_frame().pos.y == old(self).top_frame().avail_y(),
            final(self).top_frame().size.x == 0,
            final(self).top_frame().size.y == 0,
            final(self).drawn() == old(self).drawn(),
    {
        let pos = self.layouts[self.layouts.len() - 1].available_pos();
        self.layouts.push(Layout { kind, pos, size: Vec2::new(0, 0) });
        proof {
            assert(self.frames().drop_last() =~= old(self).frames());
        }
    }

    /// Close the innermost nested frame and absorb its final footprint into
    /// the enclosing frame. Only legal while at least two frames are open:
    /// the root is closed by `end`, never by `end_layout`.
    pub fn end_layout(&mut self)
        requires
            old(self).frames().len() >= 2,
            old(self).parent_frame().grown_fits(old(self).top_frame().size),
        ensures
            final(self).frames().len() == old(self).frames().len() - 1,
            final(self).frames().drop_last() == old(self).frames().drop_last().drop_last(),
            final(self).top_frame().kind == old(self).parent_frame().kind,
            final(self).top_frame().pos == old(self).parent_frame().pos,
            final(self).top_frame().size.x == old(self).parent_frame().grown_x(
                old(self).top_frame().size,
            ),
            final(self).top_frame().size.y == old(self).parent_frame().grown_y(
                old(self).top_frame().size,
            ),
            final(self).drawn() == old(self).drawn(),
    {
        let child = self.layouts.pop().unwrap();
        let mut parent = self.layouts.pop().unwrap();
        parent.add_widget(child.size);
        self.layouts.push(parent);
        proof {
            assert(self.frames().drop_last() =~= old(self).frames().drop_last().drop_last());
        }
    }

    /// Place a one-row label at the innermost frame's next-child position:
    /// record its draw command and reserve a footprint of the declared
    /// `width` (not the text's own length) by one row.
    pub fn label_fixed_width(&mut self, text: &str, width: i32, style: Style)
        requires
            old(self).frames().len() > 0,
            old(self).top_frame().avail_fits(),
            old(self).top_frame().grown_fits((Vec2 { x: width, y: 1 })),
        ensures
            final(self).frames().len() == old(self).frames().len(),
            final(self).frames().drop_last() == old(self).frames().drop_last(),
            final(self).top_frame().kind == old(self).top_frame().kind,
            final(self).top_frame().pos == old(self).top_frame().pos,
            final(self).top_frame().size.x == old(self).top_frame().grown_x(
                (Vec2 { x: width, y: 1 }),
            ),
            final(self).top_frame().size.y == old(self).top_frame().grown_y(
                (Vec2 { x: width, y: 1 }),
            ),
            final(self).drawn().len() == old(self).drawn().len() + 1,
            final(self).drawn().drop_last() == old(self).drawn(),
            final(self).drawn().last().pos.x == old(self).top_frame().avail_x(),
            final(self).drawn().last().pos.y == old(self).top_frame().avail_y(),
            final(self).drawn().last().text@ == text@,
            final(self).drawn().last().style == style,
    {
        let mut top = self.layouts.pop().unwrap();
        let pos = top.available_pos();
        self.commands.push(DrawCommand { pos, text: text.to_owned(), style });
        top.add_widget(Vec2::new(width, 1));
        self.layouts.push(top);
        proof {
            assert(self.frames().drop_last() =~= old(self).frames().drop_last());
            assert(self.drawn().drop_last() =~= old(self).drawn());
        }
    }

    /// Close the root frame and end the pass. Only legal when exactly the
    /// root is open: an unmatched nested frame is a bug in the caller's
    /// render sequence, not something `end` may paper over.
    pub fn end(&mut self)
        requires
            old(self).frames().len() == 1,
        ensures
            final(self).frames().len() == 0,
            final(self).drawn() == old(self).drawn(),
    {
        let _ = self.layouts.pop();
    }
}

/// One operation of a render pass after `begin`, reduced to its effect on
/// the frame stack: `Open` is `begin_layout`, `Close` is `end_layout`,
/// `Label` is `label_fixed_width`.
#[derive(Clone, Copy, Debug, PartialEq, Eq, Structural)]
pub enum FrameOp {
    Open,
    Close,
    Label,
}

/// The number of open frames after `begin` (which leaves one) and then
/// the given operations: `Open` pushes a frame, `Close` pops one, `Label`
/// leaves the stack as it is — exactly the frame counts that
/// `begin_layout`, `end_layout` and `label_fixed_width` ensure.
pub open spec fn depth_after(ops: Seq<FrameOp>) -> int
    decreases ops.len(),
{
    if ops.len() == 0 {
        1
    } else {
        depth_after(ops.drop_last()) + (match ops.last() {
            FrameOp::Open => 1,
            FrameOp::Close => -1,
            FrameOp::Label => 0,
        })
    }
}

/// A properly nested pass: the root frame stays open throughout, and at
/// the end only the root is left.
pub open spec fn properly_nested(ops: Seq<FrameOp>) -> bool {
    (forall|i: int| 0 <= i <= ops.len() ==> depth_after(#[trigger] ops.take(i)) >= 1)
        && depth_after(ops) == 1
}

/// In a properly nested pass every operation meets the engine's
/// stack-shape precondition at the moment it runs — `Open` and `Label`
/// find a frame open, `Close` finds a nested frame above the root — and
/// the pass ends with exactly the root open, as `end` demands. A caller
/// whose pass is properly nested (and whose sizes stay within the machine
/// integer bounds) can therefore never trip the engine.
pub proof fn lemma_nested_pass_meets_stack_requires(ops: Seq<FrameOp>, i: int)
    requires
        properly_nested(ops),
        0 <= i < ops.len(),
    ensures
        depth_after(ops.take(i)) >= 1,
        ops[i] is Close ==> depth_after(ops.take(i)) >= 2,
{
    assert(ops.take(i + 1).drop_last() =~= ops.take(i));
    assert(ops.take(i + 1).last() == ops[i]);
    assert(depth_after(ops.take(i + 1)) >= 1);
}

impl Default for Ui {
    fn default() -> (r: Ui)
        ensures
            r.frames().len() == 0,
            r.drawn().len() == 0,
    {
        Ui::new()
    }
}

} // verus!
