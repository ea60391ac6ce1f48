//! Cursor-based navigation and mutation of an ordered list of items.
//!
//! Every operation is a no-op outside its guard rather than an error: a
//! stale cursor self-heals instead of crashing. Each length-changing
//! operation clamps the cursor back onto the last valid index, so the
//! cursor invariant below is preserved by every operation.

use vstd::prelude::*;

verus! {

/// The cursor invariant: inside the list while the list is non-empty,
/// parked at zero once it is empty.
pub open spec fn cursor_in_bounds(list: Seq<String>, cursor: nat) -> bool {
    if list.len() == 0 {
        cursor == 0
    } else {
        cursor < list.len()
    }
}

/// Move the cursor one step up, unless it is already on the first item.
pub fn list_up(list_curr: &mut usize)
    ensures
        *final(list_curr) == if *old(list_curr) > 0 {
            (*old(list_curr) - 1) as int
        } else {
            0
        },
{
    if *list_curr > 0 {
        *list_curr = *list_curr - 1;
    }
}

/// Move the cursor one step down, unless it is already on the last item
/// (or the list is empty).
pub fn list_down(list: &Vec<String>, list_curr: &mut usize)
    ensures
        *final(list_curr) == if *old(list_curr) + 1 < list@.len() {
            *old(list_curr) + 1
        } else {
            *old(list_curr) as int
        },
        cursor_in_bounds(list@, *old(list_curr) as nat) ==> cursor_in_bounds(
            list@,
            *final(list_curr) as nat,
        ),
{
    if *list_curr < list.len() && *list_curr + 1 < list.len() {
        *list_curr = *list_curr + 1;
    }
}

/// Jump the cursor to the first item.
pub fn list_first(list_curr: &mut usize)
    ensures
        *final(list_curr) == 0,
{
    if *list_curr > 0 {
        *list_curr = 0;
    }
}

/// Jump the cursor to the last item; a no-op on an empty list.
pub fn list_last(list: &Vec<String>, list_curr: &mut usize)
    ensures
        *final(list_curr) == if list@.len() > 0 {
            list@.len() - 1
        } else {
            *old(list_curr) as int
        },
        cursor_in_bounds(list@, *old(list_curr) as nat) ==> cursor_in_bounds(
            list@,
            *final(list_curr) as nat,
        ),
{
    if list.len() > 0 {
        *list_curr = list.len() - 1;
    }
}

/// Swap the current item with its predecessor, the cursor following the
/// moved item; a no-op on the first item or with a cursor off the list.
pub fn list_drag_up(list: &mut Vec<String>, list_curr: &mut usize)
    ensures
        if 0 < *old(list_curr) < old(list)@.len() {
            final(list)@ == old(list)@.update(
                *old(list_curr) - 1,
                old(list)@[*old(list_curr) as int],
            ).update(*old(list_curr) as int, old(list)@[*old(list_curr) - 1])
                && *final(list_curr) == *old(list_curr) - 1
        } else {
            final(list)@ == old(list)@ && *final(list_curr) == *old(list_curr)
        },
        cursor_in_bounds(old(list)@, *old(list_curr) as nat) ==> cursor_in_bounds(
            final(list)@,
            *final(list_curr) as nat,
        ),
{
    if *list_curr > 0 && *list_curr < list.len() {
        let item = list.remove(*list_curr);
        list.insert(*list_curr - 1, item);
        *list_curr = *list_curr - 1;
        proof {
            assert(list@ =~= old(list)@.update(
                *old(list_curr) - 1,
                old(list)@[*old(list_curr) as int],
            ).update(*old(list_curr) as int, old(list)@[*old(list_curr) - 1]));
        }
    }
}

/// Swap the current item with its successor, the cursor following the
/// moved item; a no-op on the last item or with a cursor off the list.
pub fn list_drag_down(list: &mut Vec<String>, list_curr: &mut usize)
    ensures
        if *old(list_curr) + 1 < old(list)@.len() {
            final(list)@ == old(list)@.update(
                *old(list_curr) as int,
                old(list)@[*old(list_curr) + 1],
            ).update(*old(list_curr) + 1, old(list)@[*old(list_curr) as int])
                && *final(list_curr) == *old(list_curr) + 1
        } else {
            final(list)@ == old(list)@ && *final(list_curr) == *old(list_curr)
        },
        cursor_in_bounds(old(list)@, *old(list_curr) as nat) ==> cursor_in_bounds(
            final(list)@,
            *final(list_curr) as nat,
        ),
{
    if *list_curr < list.len() && *list_curr + 1 < list.len() {
        let item = list.remove(*list_curr);
        list.insert(*list_curr + 1, item);
        *list_curr = *list_curr + 1;
        proof {
            assert(list@ =~= old(list)@.update(
                *old(list_curr) as int,
                old(list)@[*old(list_curr) + 1],
            ).update(*old(list_curr) + 1, old(list)@[*old(list_curr) as int]));
        }
    }
}

/// Remove the current item, then clamp the cursor onto the new last item
/// if it fell off the end; a no-op with a cursor off the list.
pub fn list_delete(list: &mut Vec<String>, list_curr: &mut usize)
    ensures
        if *old(list_curr) < old(list)@.len() {
            final(list)@ == old(list)@.remove(*old(list_curr) as int) && *final(list_curr)
                == if *old(list_curr) >= final(list)@.len() && final(list)@.len() > 0 {
                final(list)@.len() - 1
            } else {
                *old(list_curr) as int
            }
        } else {
            final(list)@ == old(list)@ && *final(list_curr) == *old(list_curr)
        },
        cursor_in_bounds(old(list)@, *old(list_curr) as nat) ==> cursor_in_bounds(
            final(list)@,
            *final(list_curr) as nat,
        ),
{
    if *list_curr < list.len() {
        let _ = list.remove(*list_curr);
        if *list_curr >= list.len() && list.len() > 0 {
            *list_curr = list.len() - 1;
        }
    }
}

/// Move the current item of the source list to the end of the destination
/// list, then clamp the source cursor as `list_delete` does; a no-op with
/// a cursor off the source list. The destination's own cursor is untouched.
pub fn list_transfer(
    list_dst: &mut Vec<String>,
    list_src: &mut Vec<String>,
    list_src_curr: &mut usize,
)
    ensures
        if *old(list_src_curr) < old(list_src)@.len() {
            final(list_src)@ == old(list_src)@.remove(*old(list_src_curr) as int)
                && final(list_dst)@ == old(list_dst)@.push(
                old(list_src)@[*old(list_src_curr) as int],
            )
                && *final(list_src_curr) == if *old(list_src_curr) >= final(list_src)@.len()
                && final(list_src)@.len() > 0 {
                final(list_src)@.len() - 1
            } else {
                *old(list_src_curr) as int
            }
        } else {
            final(list_src)@ == old(list_src)@ && final(list_dst)@ == old(list_dst)@
                && *final(list_src_curr) == *old(list_src_curr)
        },
        cursor_in_bounds(old(list_src)@, *old(list_src_curr) as nat) ==> cursor_in_bounds(
            final(list_src)@,
            *final(list_src_curr) as nat,
        ),
{
    if *list_src_curr < list_src.len() {
        let item = list_src.remove(*list_src_curr);
        list_dst.push(item);
        if *list_src_curr >= list_src.len() && list_src.len() > 0 {
            *list_src_curr = list_src.len() - 1;
        }
    }
}

/// One step down or up never leaves the list: the stepped cursor written
/// here is the one `list_down`'s and `list_up`'s contracts promise, so the
/// invariant holds again after the step, and with it after any number of
/// repetitions.
pub proof fn lemma_moves_stay_in_bounds(list: Seq<String>, cursor: nat)
    requires
        cursor < list.len(),
    ensures
        ({
            let down: int = if cursor + 1 < list.len() {
                (cursor + 1) as int
            } else {
                cursor as int
            };
            0 <= down < list.len()
        }),
        ({
            let up: int = if cursor > 0 {
                cursor - 1
            } else {
                0
            };
            0 <= up < list.len()
        }),
{
}

/// One `list_transfer` with the source cursor on the first item, at the
/// spec level: the head of the source moves to the end of the destination,
/// and the cursor stays on the first item (`list_transfer`'s contract with
/// the cursor at zero says exactly this).
pub open spec fn transfer_once(dst: Seq<String>, src: Seq<String>) -> (Seq<String>, Seq<String>) {
    if src.len() == 0 {
        (dst, src)
    } else {
        (dst.push(src.first()), src.drop_first())
    }
}

/// `n` repetitions of `transfer_once`.
pub open spec fn transfer_all(dst: Seq<String>, src: Seq<String>, n: nat) -> (
    Seq<String>,
    Seq<String>,
)
    decreases n,
{
    if n == 0 {
        (dst, src)
    } else {
        let p = transfer_once(dst, src);
        transfer_all(p.0, p.1, (n - 1) as nat)
    }
}

/// Transferring as many times as the source has items drains the source
/// completely and appends all of its items to the destination's end, in
/// their original relative order.
pub proof fn lemma_transfer_drains_source(dst: Seq<String>, src: Seq<String>)
    ensures
        transfer_all(dst, src, src.len()).0 == dst + src,
        transfer_all(dst, src, src.len()).1 == Seq::<String>::empty(),
    decreases src.len(),
{
    if src.len() == 0 {
        assert(dst + src =~= dst);
    } else {
        lemma_transfer_drains_source(dst.push(src.first()), src.drop_first());
        assert(dst.push(src.first()) + src.drop_first() =~= dst + src);
    }
}

} // verus!
