//! The pixel state machines: one state per shape, advanced one point per call.

use vstd::prelude::*;
use crate::point::IVec2;

pub mod circle_iter;
pub mod common;
pub mod line_iter;
pub mod rect_iter;

verus! {

/// A finite source of grid points, advanced one point per call of `next`.
///
/// `remaining` is the sequence of points that the state still has to hand
/// out. `next` hands out its head and leaves its tail; on an exhausted state
/// it returns `None` and the state stays exhausted.
pub trait PixelIter {
    /// The states that the constructors make and that `next` keeps.
    spec fn wf(&self) -> bool;

    /// The points that are still to come, in the order in which they come.
    spec fn remaining(&self) -> Seq<(int, int)>;

    fn next(&mut self) -> (r: Option<IVec2>)
        requires
            old(self).wf(),
        ensures
            final(self).wf(),
            old(self).remaining().len() == 0 ==> r is None && final(self).remaining().len() == 0,
            old(self).remaining().len() > 0 ==> r is Some && r->0@ == old(self).remaining().first()
                && final(self).remaining() == old(self).remaining().drop_first(),
    ;
}

/// Drains `it` into a vector: the points that were still to come, in order.
pub fn collect_pixels<I: PixelIter>(it: &mut I) -> (v: Vec<IVec2>)
    requires
        old(it).wf(),
    ensures
        final(it).wf(),
        final(it).remaining().len() == 0,
        v@.len() == old(it).remaining().len(),
        forall|i: int| 0 <= i < v@.len() ==> (#[trigger] v@[i])@ == old(it).remaining()[i],
{
    let mut v: Vec<IVec2> = Vec::new();
    let ghost all = it.remaining();
    loop
        invariant
            it.wf(),
            all == old(it).remaining(),
            v@.len() + it.remaining().len() == all.len(),
            forall|i: int| 0 <= i < v@.len() ==> (#[trigger] v@[i])@ == all[i],
            forall|i: int|
                0 <= i < it.remaining().len() ==> #[trigger] it.remaining()[i] == all[v@.len() + i],
        ensures
            it.wf(),
            it.remaining().len() == 0,
            v@.len() == all.len(),
            forall|i: int| 0 <= i < v@.len() ==> (#[trigger] v@[i])@ == all[i],
        decreases it.remaining().len(),
    {
        let ghost before = it.remaining();
        match it.next() {
            Some(p) => {
                assert(before.first() == all[v@.len() as int]);
                assert forall|i: int| 0 <= i < it.remaining().len() implies #[trigger] it.remaining()[i]
                    == all[v@.len() + 1 + i] by {
                    assert(it.remaining()[i] == before[i + 1]);
                }
                v.push(p);
            },
            None => {
                break ;
            },
        }
    }
    v
}

} // verus!
