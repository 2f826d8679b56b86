use vstd::prelude::*;

use crate::arena::{AccessError, ArenaModel, BorrowState, MAX_GENERATION};
use crate::handle::GenerationalBox;
use crate::owner::release_all;
use crate::value::Value;

verus! {

/// A stale reference never reads successfully, and what it gets is
/// `SlotFreed` or `GenerationMismatch`.
pub proof fn law_stale_read_fails(m: ArenaModel, h: GenerationalBox)
    requires
        m.stale(h.index, h.generation),
    ensures
        m.access(h.index, h.generation, h.tag) == Err::<Value, AccessError>(AccessError::SlotFreed)
            || m.access(h.index, h.generation, h.tag) == Err::<Value, AccessError>(
            AccessError::GenerationMismatch,
        ),
{
}

/// A stored value reads back at once through the handle made for it.
pub proof fn law_freshness(m: ArenaModel, v: Value)
    requires
        m.wf(),
        m.slots.len() < usize::MAX,
    ensures
        ({
            let (m2, i) = m.allocate(v);
            &&& m2.wf()
            &&& m2.access(i, m2.slots[i as int].generation, v.tag_of()) == Ok::<Value, AccessError>(v)
        }),
{
    let (m2, i) = m.allocate(v);
    if m.free.len() > 0 {
        assert(m.free[m.free.len() - 1] == i);
        assert forall|k: int| 0 <= k < m2.free.len() implies (#[trigger] m2.free[k] as int)
            < m2.slots.len() && !m2.slots[m2.free[k] as int].occupied by {
            assert(m2.free[k] == m.free[k]);
            assert(m.free[k] != m.free[m.free.len() - 1]);
        }
    } else {
        assert forall|k: int| 0 <= k < m2.free.len() implies (#[trigger] m2.free[k] as int)
            < m2.slots.len() && !m2.slots[m2.free[k] as int].occupied by {
            assert(m2.slots[m2.free[k] as int] == m.slots[m.free[k] as int]);
        }
    }
}

/// Releasing a slot that a handle holds makes that handle stale.
pub proof fn law_release_invalidates(m: ArenaModel, h: GenerationalBox)
    requires
        m.wf(),
        m.holds(h.index, h.generation),
    ensures
        m.release(h.index, h.generation).stale(h.index, h.generation),
{
    let m2 = m.release(h.index, h.generation);
    if h.generation == MAX_GENERATION {
        assert(!m.free.contains(h.index)) by {
            if m.free.contains(h.index) {
                let k = choose|k: int| 0 <= k < m.free.len() && m.free[k] == h.index;
                assert(!m.slots[m.free[k] as int].occupied);
            }
        }
        assert(m2.free == m.free);
    }
}

/// Allocation only moves the arena forward.
pub proof fn law_allocate_evolves(m: ArenaModel, v: Value)
    requires
        m.wf(),
    ensures
        m.evolves_to(m.allocate(v).0),
{
    let (m2, i) = m.allocate(v);
    if m.free.len() > 0 {
        assert forall|j: int| 0 <= j < m.slots.len() implies {
            &&& (#[trigger] m2.slots[j]).generation >= m.slots[j].generation
            &&& m.retired(j as usize) ==> m2.retired(j as usize) && m2.slots[j].generation
                == m.slots[j].generation
            &&& (m.slots[j].occupied && m2.slots[j].generation == m.slots[j].generation) ==> (
            m2.slots[j].occupied || m2.retired(j as usize))
        } by {
            if m.retired(j as usize) {
                assert(j != i) by {
                    assert(m.free[m.free.len() - 1] == i);
                }
                assert(!m2.free.contains(j as usize)) by {
                    if m2.free.contains(j as usize) {
                        let k = choose|k: int| 0 <= k < m2.free.len() && m2.free[k] == j as usize;
                        assert(m.free[k] == j as usize);
                    }
                }
            }
        }
    }
}

/// Releasing only moves the arena forward.
pub proof fn law_release_evolves(m: ArenaModel, index: usize, generation: u32)
    requires
        m.wf(),
    ensures
        m.evolves_to(m.release(index, generation)),
{
    let m2 = m.release(index, generation);
    if m.holds(index, generation) {
        assert forall|j: int| 0 <= j < m.slots.len() implies {
            &&& (#[trigger] m2.slots[j]).generation >= m.slots[j].generation
            &&& m.retired(j as usize) ==> m2.retired(j as usize) && m2.slots[j].generation
                == m.slots[j].generation
            &&& (m.slots[j].occupied && m2.slots[j].generation == m.slots[j].generation) ==> (
            m2.slots[j].occupied || m2.retired(j as usize))
        } by {
            if j == index as int {
                assert(!m.free.contains(index)) by {
                    if m.free.contains(index) {
                        let k = choose|k: int| 0 <= k < m.free.len() && m.free[k] == index;
                        assert(!m.slots[m.free[k] as int].occupied);
                    }
                }
            } else if m.retired(j as usize) {
                assert(!m2.free.contains(j as usize)) by {
                    if m2.free.contains(j as usize) {
                        let k = choose|k: int| 0 <= k < m2.free.len() && m2.free[k] == j as usize;
                        if k < m.free.len() {
                            assert(m.free[k] == j as usize);
                        }
                    }
                }
            }
        }
    }
}

/// Writing only moves the arena forward.
pub proof fn law_write_evolves(m: ArenaModel, h: GenerationalBox, v: Value)
    requires
        m.wf(),
    ensures
        m.evolves_to(m.write(h.index, h.generation, h.tag, v)),
{
}

/// Starting and ending borrows only moves the arena forward.
pub proof fn law_borrow_evolves(m: ArenaModel, h: GenerationalBox, exclusive: bool)
    requires
        m.wf(),
    ensures
        m.evolves_to(m.borrow(h.index, h.generation, h.tag, exclusive)),
        m.evolves_to(m.end_borrow(h.index, h.generation, exclusive)),
{
}

/// Moving forward is transitive, so any run of operations moves forward.
pub proof fn law_evolves_transitive(a: ArenaModel, b: ArenaModel, c: ArenaModel)
    requires
        a.evolves_to(b),
        b.evolves_to(c),
    ensures
        a.evolves_to(c),
{
    assert forall|i: int| 0 <= i < a.slots.len() implies {
        &&& (#[trigger] c.slots[i]).generation >= a.slots[i].generation
        &&& a.retired(i as usize) ==> c.retired(i as usize) && c.slots[i].generation
            == a.slots[i].generation
        &&& (a.slots[i].occupied && c.slots[i].generation == a.slots[i].generation) ==> (
        c.slots[i].occupied || c.retired(i as usize))
    } by {
        assert(b.slots[i].generation >= a.slots[i].generation);
        assert(c.slots[i].generation >= b.slots[i].generation);
    }
}

/// Once stale, a handle stays stale however the arena moves on: it is never
/// revalidated by a later value stored in its former slot.
pub proof fn law_stale_stays_stale(m: ArenaModel, later: ArenaModel, h: GenerationalBox)
    requires
        m.stale(h.index, h.generation),
        m.evolves_to(later),
    ensures
        later.stale(h.index, h.generation),
        later.access(h.index, h.generation, h.tag) is Err,
{
    let i = h.index as int;
    assert(later.slots[i].generation >= m.slots[i].generation);
}

/// Closing an owner makes every handle it issued, and that was live at the
/// time, stale; its reads then fail with `SlotFreed` or `GenerationMismatch`.
pub proof fn law_close_invalidates(m: ArenaModel, boxes: Seq<GenerationalBox>, h: GenerationalBox)
    requires
        m.wf(),
        boxes.contains(h),
        m.holds(h.index, h.generation),
    ensures
        release_all(m, boxes).stale(h.index, h.generation),
        release_all(m, boxes).access(h.index, h.generation, h.tag) == Err::<Value, AccessError>(
            AccessError::SlotFreed,
        ) || release_all(m, boxes).access(h.index, h.generation, h.tag) == Err::<
            Value,
            AccessError,
        >(AccessError::GenerationMismatch),
    decreases boxes.len(),
{
    lemma_close_makes_stale(m, boxes, h);
    law_stale_read_fails(release_all(m, boxes), h);
}

/// The induction behind `law_close_invalidates`.
proof fn lemma_close_makes_stale(m: ArenaModel, boxes: Seq<GenerationalBox>, h: GenerationalBox)
    requires
        m.wf(),
        boxes.contains(h),
        m.holds(h.index, h.generation),
    ensures
        release_all(m, boxes).stale(h.index, h.generation),
    decreases boxes.len(),
{
    lemma_release_all_evolves(m, boxes);
    let prev = release_all(m, boxes.drop_last());
    lemma_release_all_evolves(m, boxes.drop_last());
    let last = boxes.last();
    law_release_evolves(prev, last.index, last.generation);
    if boxes.drop_last().contains(h) {
        lemma_close_makes_stale(m, boxes.drop_last(), h);
        law_stale_stays_stale(prev, release_all(m, boxes), h);
    } else {
        assert(last == h) by {
            let k = choose|k: int| 0 <= k < boxes.len() && boxes[k] == h;
            if k < boxes.len() - 1 {
                assert(boxes.drop_last()[k] == h);
            }
        }
        let i = h.index as int;
        if prev.stale(h.index, h.generation) {
            law_stale_stays_stale(prev, release_all(m, boxes), h);
        } else {
            assert(prev.slots[i].generation >= m.slots[i].generation);
            assert(prev.holds(h.index, h.generation));
            law_release_invalidates(prev, h);
        }
    }
}

/// Releasing a run of slots keeps the arena well formed and only moves it
/// forward.
pub proof fn lemma_release_all_evolves(m: ArenaModel, boxes: Seq<GenerationalBox>)
    requires
        m.wf(),
    ensures
        release_all(m, boxes).wf(),
        m.evolves_to(release_all(m, boxes)),
    decreases boxes.len(),
{
    if boxes.len() == 0 {
        assert forall|i: int| 0 <= i < m.slots.len() implies {
            &&& (#[trigger] m.slots[i]).generation >= m.slots[i].generation
            &&& m.retired(i as usize) ==> m.retired(i as usize) && m.slots[i].generation
                == m.slots[i].generation
            &&& (m.slots[i].occupied && m.slots[i].generation == m.slots[i].generation) ==> (
            m.slots[i].occupied || m.retired(i as usize))
        } by {}
    } else {
        lemma_release_all_evolves(m, boxes.drop_last());
        let prev = release_all(m, boxes.drop_last());
        let last = boxes.last();
        lemma_release_wf(prev, last.index, last.generation);
        law_release_evolves(prev, last.index, last.generation);
        law_evolves_transitive(m, prev, release_all(m, boxes));
    }
}

/// Releasing keeps the arena well formed.
pub proof fn lemma_release_wf(m: ArenaModel, index: usize, generation: u32)
    requires
        m.wf(),
    ensures
        m.release(index, generation).wf(),
{
    let m2 = m.release(index, generation);
    if m.holds(index, generation) {
        assert forall|k: int| 0 <= k < m.free.len() implies m.free[k] != index by {
            assert(!m.slots[m.free[k] as int].occupied);
        }
        if generation < MAX_GENERATION {
            assert forall|k: int| 0 <= k < m2.free.len() implies (#[trigger] m2.free[k] as int)
                < m2.slots.len() && !m2.slots[m2.free[k] as int].occupied by {
                if k < m.free.len() {
                    assert(m2.free[k] == m.free[k]);
                }
            }
            assert forall|a: int, b: int|
                0 <= a < m2.free.len() && 0 <= b < m2.free.len() && a != b implies m2.free[a]
                != m2.free[b] by {
                if a < m.free.len() && b < m.free.len() {
                    assert(m2.free[a] == m.free[a]);
                    assert(m2.free[b] == m.free[b]);
                } else if a < m.free.len() {
                    assert(m2.free[a] == m.free[a]);
                } else if b < m.free.len() {
                    assert(m2.free[b] == m.free[b]);
                }
            }
        } else {
            assert forall|k: int| 0 <= k < m2.free.len() implies (#[trigger] m2.free[k] as int)
                < m2.slots.len() && !m2.slots[m2.free[k] as int].occupied by {
                assert(m.free[k] != index);
            }
        }
    }
}

/// Releasing a handle's slot and storing a new value that reuses the slot
/// leaves the old handle failing with `GenerationMismatch`: it never reads
/// the new value.
pub proof fn law_recycling_safety(m: ArenaModel, h: GenerationalBox, v: Value)
    requires
        m.wf(),
        m.holds(h.index, h.generation),
        h.generation < MAX_GENERATION,
    ensures
        ({
            let (m2, i) = m.release(h.index, h.generation).allocate(v);
            &&& i == h.index
            &&& m2.slots[i as int].generation == h.generation + 1
            &&& m2.access(h.index, h.generation, h.tag) == Err::<Value, AccessError>(
                AccessError::GenerationMismatch,
            )
            &&& m2.access(i, m2.slots[i as int].generation, v.tag_of()) == Ok::<Value, AccessError>(v)
        }),
{
    let m1 = m.release(h.index, h.generation);
    assert(m1.free.last() == h.index);
}

/// After an accepted write, every live handle to the same slot reads the new
/// value.
pub proof fn law_write_visibility(m: ArenaModel, h: GenerationalBox, v: Value, other: GenerationalBox)
    requires
        m.wf(),
        m.write_result(h.index, h.generation, h.tag, v) is Ok,
        m.access(other.index, other.generation, other.tag) is Ok,
        other.index == h.index,
    ensures
        m.write(h.index, h.generation, h.tag, v).access(other.index, other.generation, other.tag)
            == Ok::<Value, AccessError>(v),
{
}

/// A handle only ever reads values of the kind it is bound to, whatever the
/// slot held at other generations.
pub proof fn law_no_type_confusion(m: ArenaModel, h: GenerationalBox)
    requires
        m.access(h.index, h.generation, h.tag) is Ok,
    ensures
        m.access(h.index, h.generation, h.tag).unwrap().tag_of() == h.tag,
{
}

/// A write never changes the kind of value a slot holds.
pub proof fn law_write_keeps_kind(m: ArenaModel, h: GenerationalBox, v: Value)
    requires
        m.wf(),
        (h.index as int) < m.slots.len(),
        m.slots[h.index as int].occupied,
    ensures
        m.write(h.index, h.generation, h.tag, v).slots[h.index as int].value.unwrap().tag_of()
            == m.slots[h.index as int].value.unwrap().tag_of(),
{
}

/// While an exclusive borrow of a slot is live, every other borrow of it,
/// every read and every write through a live handle fails with
/// `BorrowConflict`; ending the borrow lifts the conflict.
pub proof fn law_exclusive_borrow(m: ArenaModel, h: GenerationalBox, other: GenerationalBox, exclusive: bool, v: Value)
    requires
        m.wf(),
        m.borrow_result(h.index, h.generation, h.tag, true) is Ok,
        m.access(other.index, other.generation, other.tag) is Ok,
        other.index == h.index,
    ensures
        ({
            let b = m.borrow(h.index, h.generation, h.tag, true);
            &&& b.access(other.index, other.generation, other.tag) == Err::<Value, AccessError>(
                AccessError::BorrowConflict,
            )
            &&& b.borrow_result(other.index, other.generation, other.tag, exclusive) == Err::<
                (),
                AccessError,
            >(AccessError::BorrowConflict)
            &&& b.write_result(other.index, other.generation, other.tag, v) == Err::<
                (),
                AccessError,
            >(AccessError::BorrowConflict)
            &&& b.end_borrow(h.index, h.generation, true).access(
                other.index,
                other.generation,
                other.tag,
            ) == m.access(other.index, other.generation, other.tag)
        }),
{
    let b = m.borrow(h.index, h.generation, h.tag, true);
    assert(m.slots[h.index as int].borrow == BorrowState::Unborrowed);
    assert(b.slots[h.index as int].borrow == BorrowState::Exclusive);
}

} // verus!
