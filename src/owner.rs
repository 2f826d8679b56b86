use vstd::prelude::*;

use crate::arena::{Arena, ArenaModel, BackendKind};
use crate::handle::GenerationalBox;
use crate::laws::{law_close_invalidates, lemma_release_all_evolves};
use crate::value::Value;

verus! {

/// The arena after releasing, in order, every slot that the handles in
/// `boxes` were issued for.
pub open spec fn release_all(m: ArenaModel, boxes: Seq<GenerationalBox>) -> ArenaModel
    decreases boxes.len(),
{
    if boxes.len() == 0 {
        m
    } else {
        release_all(m, boxes.drop_last()).release(boxes.last().index, boxes.last().generation)
    }
}

/// Releasing never adds or removes slots.
pub proof fn lemma_release_all_len(m: ArenaModel, boxes: Seq<GenerationalBox>)
    ensures
        release_all(m, boxes).slots.len() == m.slots.len(),
    decreases boxes.len(),
{
    if boxes.len() > 0 {
        lemma_release_all_len(m, boxes.drop_last());
    }
}

/// A scope that records the slots it allocated and releases them on close.
pub struct Owner {
    kind: BackendKind,
    owned: Vec<GenerationalBox>,
}

impl Owner {
    pub closed spec fn spec_kind(&self) -> BackendKind {
        self.kind
    }

    /// The handles issued by this owner and not yet released, oldest first.
    pub closed spec fn owned(&self) -> Seq<GenerationalBox> {
        self.owned@
    }

    /// A new owner, holding nothing, for arenas of the given kind.
    pub fn new(kind: BackendKind) -> (o: Owner)
        ensures
            o.spec_kind() == kind,
            o.owned().len() == 0,
    {
        Owner { kind, owned: Vec::new() }
    }

    pub fn kind(&self) -> (k: BackendKind)
        ensures
            k == self.spec_kind(),
    {
        self.kind
    }

    /// Number of slots this owner currently holds.
    pub fn len(&self) -> (n: usize)
        ensures
            n == self.owned().len(),
    {
        self.owned.len()
    }

    /// Stores `v` in `arena` and returns a handle to it, recording the slot
    /// as owned by this owner.
    pub fn insert(&mut self, arena: &mut Arena, v: Value) -> (h: GenerationalBox)
        requires
            old(arena)@.wf(),
            old(arena)@.slots.len() < usize::MAX,
            old(arena).spec_kind() == old(self).spec_kind(),
        ensures
            (final(arena)@, h.index) == old(arena)@.allocate(v),
            h.generation == final(arena)@.slots[h.index as int].generation,
            h.tag == v.tag_of(),
            h.kind == old(self).spec_kind(),
            h.read_spec(final(arena)) == Ok::<Value, crate::arena::AccessError>(v),
            final(arena)@.wf(),
            final(arena).spec_kind() == old(arena).spec_kind(),
            final(self).spec_kind() == old(self).spec_kind(),
            final(self).owned() == old(self).owned().push(h),
    {
        let tag = v.tag();
        let index = arena.allocate(v);
        let generation = arena.generation(index);
        let h = GenerationalBox { index, generation, tag, kind: self.kind };
        self.owned.push(h);
        h
    }

    /// Releases every slot this owner holds, oldest first, and forgets them;
    /// a second close changes nothing.
    pub fn close(&mut self, arena: &mut Arena)
        requires
            old(arena)@.wf(),
        ensures
            final(arena)@ == release_all(old(arena)@, old(self).owned()),
            final(arena)@.wf(),
            final(arena)@.slots.len() == old(arena)@.slots.len(),
            old(arena)@.evolves_to(final(arena)@),
            forall|h: GenerationalBox|
                old(self).owned().contains(h) && old(arena)@.holds(h.index, h.generation)
                    ==> #[trigger] final(arena)@.stale(h.index, h.generation),
            final(arena).spec_kind() == old(arena).spec_kind(),
            final(self).spec_kind() == old(self).spec_kind(),
            final(self).owned().len() == 0,
    {
        let ghost m0 = arena@;
        let ghost boxes = self.owned@;
        let n = self.owned.len();
        let mut k: usize = 0;
        while k < n
            invariant
                0 <= k <= n,
                n == boxes.len(),
                self.owned@ == boxes,
                self.kind == old(self).kind,
                arena@.wf(),
                arena.spec_kind() == old(arena).spec_kind(),
                arena@ == release_all(m0, boxes.subrange(0, k as int)),
            decreases n - k,
        {
            let h = self.owned[k];
            arena.release(h.index, h.generation);
            proof {
                let s = boxes.subrange(0, k + 1);
                assert(s.drop_last() =~= boxes.subrange(0, k as int));
                assert(s.last() == h);
            }
            k = k + 1;
        }
        proof {
            assert(boxes.subrange(0, n as int) =~= boxes);
            lemma_release_all_len(m0, boxes);
            lemma_release_all_evolves(m0, boxes);
            assert forall|h: GenerationalBox|
                boxes.contains(h) && m0.holds(h.index, h.generation) implies #[trigger] arena@.stale(
                h.index,
                h.generation,
            ) by {
                law_close_invalidates(m0, boxes, h);
            }
        }
        self.owned.clear();
    }
}

} // verus!
