use vstd::prelude::*;

use crate::value::{TypeTag, Value};

verus! {

/// The largest generation a slot can reach; a slot released at this
/// generation is retired instead of being recycled.
pub const MAX_GENERATION: u32 = 0xffff_ffff;

/// The largest number of shared borrows one slot can have live at once.
pub const MAX_SHARED_BORROWS: u32 = 0xffff_ffff;

/// The concurrency discipline an arena is meant for.
#[derive(Clone, Copy, Debug, PartialEq, Eq, Hash, Structural)]
pub enum BackendKind {
    /// Single thread of control, no locking.
    Unsync,
    /// Shared across threads behind a lock held by the caller.
    Sync,
}

/// Why an access through a handle was refused.
#[derive(Clone, Copy, Debug, PartialEq, Eq, Hash, Structural)]
pub enum AccessError {
    /// The slot holds no value (released, retired, or never allocated).
    SlotFreed,
    /// The slot was recycled and now holds a newer value.
    GenerationMismatch,
    /// The stored value is not of the kind the handle is bound to.
    TypeMismatch,
    /// The slot's value is already borrowed in a conflicting way.
    BorrowConflict,
}

/// How a slot's value is currently borrowed through explicit borrow tokens.
#[derive(Clone, Copy, Debug, PartialEq, Eq, Hash, Structural)]
pub enum BorrowState {
    Unborrowed,
    /// This many shared borrows are live.
    Shared(u32),
    /// One exclusive borrow is live.
    Exclusive,
}

/// One cell of the arena: a generation tag, the value when occupied, and
/// the borrows of that value that are live.
#[derive(Debug)]
pub struct Slot {
    pub generation: u32,
    pub occupied: bool,
    pub value: Option<Value>,
    pub borrow: BorrowState,
}

/// Proof that a borrow of one slot's value was granted; handing it back to
/// the arena ends the borrow.
#[derive(Debug)]
pub struct BorrowToken {
    pub index: usize,
    pub generation: u32,
    pub exclusive: bool,
}

/// The mathematical picture of an arena: its slot table and its free list.
pub struct ArenaModel {
    pub slots: Seq<Slot>,
    pub free: Seq<usize>,
}

impl ArenaModel {
    /// Occupancy agrees with the stored value, and the free list names
    /// distinct, existing, unoccupied slots.
    pub open spec fn wf(self) -> bool {
        &&& forall|i: int|
            0 <= i < self.slots.len() ==> (#[trigger] self.slots[i]).occupied
                == self.slots[i].value.is_some()
        &&& forall|k: int|
            0 <= k < self.free.len() ==> (#[trigger] self.free[k] as int) < self.slots.len()
                && !self.slots[self.free[k] as int].occupied
        &&& self.free.no_duplicates()
    }

    /// Slot `index` is occupied at generation `generation`.
    pub open spec fn holds(self, index: usize, generation: u32) -> bool {
        &&& (index as int) < self.slots.len()
        &&& self.slots[index as int].occupied
        &&& self.slots[index as int].generation == generation
    }

    /// Slot `index` is empty and will never be handed out again.
    pub open spec fn retired(self, index: usize) -> bool {
        &&& (index as int) < self.slots.len()
        &&& !self.slots[index as int].occupied
        &&& !self.free.contains(index)
    }

    /// A reference to slot `index` at `generation` can never become valid
    /// again: the slot has moved past that generation or is retired at it.
    pub open spec fn stale(self, index: usize, generation: u32) -> bool {
        &&& (index as int) < self.slots.len()
        &&& {
            ||| self.slots[index as int].generation > generation
            ||| (self.slots[index as int].generation == generation && self.retired(index))
        }
    }

    /// What reading slot `index` through a reference carrying `generation`
    /// and `tag` yields: the checks are occupancy, then generation, then
    /// kind, then that no exclusive borrow is live.
    pub open spec fn access(self, index: usize, generation: u32, tag: TypeTag) -> Result<
        Value,
        AccessError,
    > {
        if !((index as int) < self.slots.len()) || !self.slots[index as int].occupied {
            Err(AccessError::SlotFreed)
        } else if self.slots[index as int].generation != generation {
            Err(AccessError::GenerationMismatch)
        } else if self.slots[index as int].value.is_none()
            || self.slots[index as int].value.unwrap().tag_of() != tag {
            Err(AccessError::TypeMismatch)
        } else if self.slots[index as int].borrow == BorrowState::Exclusive {
            Err(AccessError::BorrowConflict)
        } else {
            Ok(self.slots[index as int].value.unwrap())
        }
    }

    /// Storing `v`: the most recently freed slot is reused at its current
    /// generation, or else a new slot is appended at generation 0.
    pub open spec fn allocate(self, v: Value) -> (ArenaModel, usize) {
        if self.free.len() > 0 {
            let i = self.free.last();
            (
                ArenaModel {
                    slots: self.slots.update(
                        i as int,
                        Slot {
                            generation: self.slots[i as int].generation,
                            occupied: true,
                            value: Some(v),
                            borrow: BorrowState::Unborrowed,
                        },
                    ),
                    free: self.free.drop_last(),
                },
                i,
            )
        } else {
            (
                ArenaModel {
                    slots: self.slots.push(Slot { generation: 0, occupied: true, value: Some(v), borrow: BorrowState::Unborrowed }),
                    free: self.free,
                },
                self.slots.len() as usize,
            )
        }
    }

    /// Releasing slot `index` at `generation`: when it holds that generation
    /// its value is dropped and the generation advances, the slot going back
    /// on the free list; at the largest generation the slot is retired. In
    /// any other case nothing changes.
    pub open spec fn release(self, index: usize, generation: u32) -> ArenaModel {
        if self.holds(index, generation) {
            if generation < MAX_GENERATION {
                ArenaModel {
                    slots: self.slots.update(
                        index as int,
                        Slot {
                            generation: (generation + 1) as u32,
                            occupied: false,
                            value: None,
                            borrow: BorrowState::Unborrowed,
                        },
                    ),
                    free: self.free.push(index),
                }
            } else {
                ArenaModel {
                    slots: self.slots.update(
                        index as int,
                        Slot { generation, occupied: false, value: None, borrow: BorrowState::Unborrowed },
                    ),
                    free: self.free,
                }
            }
        } else {
            self
        }
    }

    /// Whether writing `v` through a reference (`index`, `generation`, `tag`)
    /// is accepted: the reference must read successfully, no borrow of the
    /// value may be live, and `v` must be of the same kind.
    pub open spec fn write_result(self, index: usize, generation: u32, tag: TypeTag, v: Value) -> Result<
        (),
        AccessError,
    > {
        match self.access(index, generation, tag) {
            Err(e) => Err(e),
            Ok(_) => if self.slots[index as int].borrow != BorrowState::Unborrowed {
                Err(AccessError::BorrowConflict)
            } else if v.tag_of() != tag {
                Err(AccessError::TypeMismatch)
            } else {
                Ok(())
            },
        }
    }

    /// Whether a borrow, exclusive or shared, of slot `index` through a
    /// reference (`index`, `generation`, `tag`) is granted: the reference
    /// must read successfully, an exclusive borrow needs no other borrow to
    /// be live, and a shared one needs no exclusive borrow and room in the
    /// count.
    pub open spec fn borrow_result(self, index: usize, generation: u32, tag: TypeTag, exclusive: bool) -> Result<
        (),
        AccessError,
    > {
        match self.access(index, generation, tag) {
            Err(e) => Err(e),
            Ok(_) => match self.slots[index as int].borrow {
                BorrowState::Unborrowed => Ok(()),
                BorrowState::Shared(n) => if exclusive || n == MAX_SHARED_BORROWS {
                    Err(AccessError::BorrowConflict)
                } else {
                    Ok(())
                },
                BorrowState::Exclusive => Err(AccessError::BorrowConflict),
            },
        }
    }

    /// The borrow state after one more borrow is granted.
    pub open spec fn added_borrow(b: BorrowState, exclusive: bool) -> BorrowState {
        if exclusive {
            BorrowState::Exclusive
        } else {
            match b {
                BorrowState::Shared(n) => BorrowState::Shared((n + 1) as u32),
                _ => BorrowState::Shared(1),
            }
        }
    }

    /// The arena after a borrow request: the slot records the new borrow when
    /// it is granted, and nothing changes otherwise.
    pub open spec fn borrow(self, index: usize, generation: u32, tag: TypeTag, exclusive: bool) -> ArenaModel {
        if self.borrow_result(index, generation, tag, exclusive) is Ok {
            let s = self.slots[index as int];
            ArenaModel {
                slots: self.slots.update(
                    index as int,
                    Slot { borrow: Self::added_borrow(s.borrow, exclusive), ..s },
                ),
                free: self.free,
            }
        } else {
            self
        }
    }

    /// The borrow state after one borrow of the given sort ends; a state
    /// that holds no such borrow is left as it is.
    pub open spec fn removed_borrow(b: BorrowState, exclusive: bool) -> BorrowState {
        match b {
            BorrowState::Exclusive => if exclusive {
                BorrowState::Unborrowed
            } else {
                b
            },
            BorrowState::Shared(n) => if exclusive {
                b
            } else if n <= 1 {
                BorrowState::Unborrowed
            } else {
                BorrowState::Shared((n - 1) as u32)
            },
            BorrowState::Unborrowed => b,
        }
    }

    /// The arena after a borrow ends: only a slot still holding the token's
    /// generation is touched; for a released slot the borrow already ended.
    pub open spec fn end_borrow(self, index: usize, generation: u32, exclusive: bool) -> ArenaModel {
        if self.holds(index, generation) {
            let s = self.slots[index as int];
            ArenaModel {
                slots: self.slots.update(
                    index as int,
                    Slot { borrow: Self::removed_borrow(s.borrow, exclusive), ..s },
                ),
                free: self.free,
            }
        } else {
            self
        }
    }

    /// The arena after a write: the value is replaced when the write is
    /// accepted, and nothing changes otherwise.
    pub open spec fn write(self, index: usize, generation: u32, tag: TypeTag, v: Value) -> ArenaModel {
        if self.write_result(index, generation, tag, v) is Ok {
            ArenaModel {
                slots: self.slots.update(
                    index as int,
                    Slot { generation, occupied: true, value: Some(v), borrow: BorrowState::Unborrowed },
                ),
                free: self.free,
            }
        } else {
            self
        }
    }

    /// `later` is reachable from `self` by the arena's operations: slots are
    /// never removed, generations never go back, retired slots stay retired
    /// at the same generation, and an occupied slot whose generation is
    /// unchanged is still occupied or has been retired.
    pub open spec fn evolves_to(self, later: ArenaModel) -> bool {
        &&& self.slots.len() <= later.slots.len()
        &&& forall|i: int|
            0 <= i < self.slots.len() ==> {
                &&& (#[trigger] later.slots[i]).generation >= self.slots[i].generation
                &&& self.retired(i as usize) ==> later.retired(i as usize)
                    && later.slots[i].generation == self.slots[i].generation
                &&& (self.slots[i].occupied && later.slots[i].generation
                    == self.slots[i].generation) ==> (later.slots[i].occupied || later.retired(
                    i as usize,
                ))
            }
    }
}

/// A growable table of slots with a free list of recyclable indices.
pub struct Arena {
    kind: BackendKind,
    slots: Vec<Slot>,
    free: Vec<usize>,
}

impl View for Arena {
    type V = ArenaModel;

    closed spec fn view(&self) -> ArenaModel {
        ArenaModel { slots: self.slots@, free: self.free@ }
    }
}

impl Arena {
    /// The backend kind this arena was made for.
    pub closed spec fn spec_kind(&self) -> BackendKind {
        self.kind
    }

    /// An empty arena for the given backend kind.
    pub fn new(kind: BackendKind) -> (r: Arena)
        ensures
            r@.slots.len() == 0,
            r@.free.len() == 0,
            r@.wf(),
            r.spec_kind() == kind,
    {
        let r = Arena { kind, slots: Vec::new(), free: Vec::new() };
        proof {
            assert(r@.free =~= Seq::<usize>::empty());
        }
        r
    }

    pub fn kind(&self) -> (k: BackendKind)
        ensures
            k == self.spec_kind(),
    {
        self.kind
    }

    /// Number of slots in the table, free or not.
    pub fn len(&self) -> (n: usize)
        ensures
            n == self@.slots.len(),
    {
        self.slots.len()
    }

    /// Number of slots waiting on the free list.
    pub fn free_len(&self) -> (n: usize)
        ensures
            n == self@.free.len(),
    {
        self.free.len()
    }

    /// The current generation of slot `index`.
    pub fn generation(&self, index: usize) -> (g: u32)
        requires
            (index as int) < self@.slots.len(),
        ensures
            g == self@.slots[index as int].generation,
    {
        self.slots[index].generation
    }

    /// Stores `v` and returns the index of its slot.
    pub fn allocate(&mut self, v: Value) -> (index: usize)
        requires
            old(self)@.wf(),
            old(self)@.slots.len() < usize::MAX,
        ensures
            (final(self)@, index) == old(self)@.allocate(v),
            final(self)@.wf(),
            final(self).spec_kind() == old(self).spec_kind(),
    {
        let ghost m = self@;
        match self.free.pop() {
            Some(i) => {
                assert(m.free[m.free.len() - 1] == i);
                let g = self.slots[i].generation;
                self.slots.set(
                    i,
                    Slot { generation: g, occupied: true, value: Some(v), borrow: BorrowState::Unborrowed },
                );
                proof {
                    let m2 = self@;
                    assert forall|k: int| 0 <= k < m2.free.len() implies (#[trigger] m2.free[k]
                        as int) < m2.slots.len() && !m2.slots[m2.free[k] as int].occupied by {
                        assert(m2.free[k] == m.free[k]);
                        assert(m.free[k] != m.free[m.free.len() - 1]);
                    }
                    assert(m2.free.no_duplicates());
                }
                i
            },
            None => {
                self.slots.push(Slot { generation: 0, occupied: true, value: Some(v), borrow: BorrowState::Unborrowed });
                proof {
                    let m2 = self@;
                    assert forall|k: int| 0 <= k < m2.free.len() implies (#[trigger] m2.free[k]
                        as int) < m2.slots.len() && !m2.slots[m2.free[k] as int].occupied by {
                        assert(m2.slots[m2.free[k] as int] == m.slots[m.free[k] as int]);
                    }
                }
                self.slots.len() - 1
            },
        }
    }

    /// Reads slot `index` through a reference carrying `generation` and `tag`.
    pub fn try_access(&self, index: usize, generation: u32, tag: TypeTag) -> (r: Result<
        &Value,
        AccessError,
    >)
        requires
            self@.wf(),
        ensures
            match r {
                Ok(v) => self@.access(index, generation, tag) == Ok::<Value, AccessError>(*v),
                Err(e) => self@.access(index, generation, tag) == Err::<Value, AccessError>(e),
            },
    {
        if index >= self.slots.len() || !self.slots[index].occupied {
            return Err(AccessError::SlotFreed);
        }
        if self.slots[index].generation != generation {
            return Err(AccessError::GenerationMismatch);
        }
        match &self.slots[index].value {
            None => Err(AccessError::TypeMismatch),
            Some(v) => {
                if v.tag() != tag {
                    Err(AccessError::TypeMismatch)
                } else if self.slots[index].borrow == BorrowState::Exclusive {
                    Err(AccessError::BorrowConflict)
                } else {
                    Ok(v)
                }
            },
        }
    }

    /// Whether a reference carrying `generation` and `tag` reads slot
    /// `index` successfully.
    pub fn is_valid(&self, index: usize, generation: u32, tag: TypeTag) -> (b: bool)
        requires
            self@.wf(),
        ensures
            b == self@.access(index, generation, tag) is Ok,
    {
        self.try_access(index, generation, tag).is_ok()
    }

    /// Replaces the value of slot `index` through a reference carrying
    /// `generation` and `tag`, when the write is accepted.
    pub fn write(&mut self, index: usize, generation: u32, tag: TypeTag, v: Value) -> (r: Result<
        (),
        AccessError,
    >)
        requires
            old(self)@.wf(),
        ensures
            r == old(self)@.write_result(index, generation, tag, v),
            final(self)@ == old(self)@.write(index, generation, tag, v),
            final(self)@.wf(),
            final(self).spec_kind() == old(self).spec_kind(),
    {
        let checked = self.try_access(index, generation, tag);
        match checked {
            Err(e) => Err(e),
            Ok(_) => {
                if self.slots[index].borrow != BorrowState::Unborrowed {
                    Err(AccessError::BorrowConflict)
                } else if v.tag() != tag {
                    Err(AccessError::TypeMismatch)
                } else {
                    let ghost m = self@;
                    self.slots.set(
                        index,
                        Slot {
                            generation,
                            occupied: true,
                            value: Some(v),
                            borrow: BorrowState::Unborrowed,
                        },
                    );
                    proof {
                        let m2 = self@;
                        assert forall|k: int| 0 <= k < m2.free.len() implies (#[trigger] m2.free[k]
                            as int) < m2.slots.len() && !m2.slots[m2.free[k] as int].occupied by {
                            assert(m.free[k] != index);
                        }
                    }
                    Ok(())
                }
            },
        }
    }

    /// Starts a borrow of slot `index`'s value through a reference carrying
    /// `generation` and `tag`; a conflicting borrow fails at once.
    pub fn begin_borrow(&mut self, index: usize, generation: u32, tag: TypeTag, exclusive: bool) -> (r:
        Result<BorrowToken, AccessError>)
        requires
            old(self)@.wf(),
        ensures
            match r {
                Ok(t) => old(self)@.borrow_result(index, generation, tag, exclusive) is Ok && t
                    == (BorrowToken { index, generation, exclusive }),
                Err(e) => old(self)@.borrow_result(index, generation, tag, exclusive) == Err::<
                    (),
                    AccessError,
                >(e),
            },
            final(self)@ == old(self)@.borrow(index, generation, tag, exclusive),
            final(self)@.wf(),
            final(self).spec_kind() == old(self).spec_kind(),
    {
        let checked = self.try_access(index, generation, tag);
        if let Err(e) = checked {
            return Err(e);
        }
        let s = &self.slots[index];
        let next = match s.borrow {
            BorrowState::Unborrowed => if exclusive {
                BorrowState::Exclusive
            } else {
                BorrowState::Shared(1)
            },
            BorrowState::Shared(n) => {
                if exclusive || n == MAX_SHARED_BORROWS {
                    return Err(AccessError::BorrowConflict);
                }
                BorrowState::Shared(n + 1)
            },
            BorrowState::Exclusive => {
                return Err(AccessError::BorrowConflict);
            },
        };
        self.set_borrow(index, next);
        Ok(BorrowToken { index, generation, exclusive })
    }

    /// Ends the borrow that `token` stands for.
    pub fn end_borrow(&mut self, token: BorrowToken)
        requires
            old(self)@.wf(),
        ensures
            final(self)@ == old(self)@.end_borrow(token.index, token.generation, token.exclusive),
            final(self)@.wf(),
            final(self).spec_kind() == old(self).spec_kind(),
    {
        let index = token.index;
        if index >= self.slots.len() || !self.slots[index].occupied
            || self.slots[index].generation != token.generation {
            return;
        }
        let next = match self.slots[index].borrow {
            BorrowState::Exclusive => if token.exclusive {
                BorrowState::Unborrowed
            } else {
                BorrowState::Exclusive
            },
            BorrowState::Shared(n) => if token.exclusive {
                BorrowState::Shared(n)
            } else if n <= 1 {
                BorrowState::Unborrowed
            } else {
                BorrowState::Shared(n - 1)
            },
            BorrowState::Unborrowed => BorrowState::Unborrowed,
        };
        self.set_borrow(index, next);
    }

    /// Records a new borrow state for slot `index`.
    fn set_borrow(&mut self, index: usize, b: BorrowState)
        requires
            old(self)@.wf(),
            (index as int) < old(self)@.slots.len(),
        ensures
            final(self)@ == (ArenaModel {
                slots: old(self)@.slots.update(
                    index as int,
                    Slot { borrow: b, ..old(self)@.slots[index as int] },
                ),
                free: old(self)@.free,
            }),
            final(self)@.wf(),
            final(self).spec_kind() == old(self).spec_kind(),
    {
        let ghost m = self@;
        let mut s = Slot {
            generation: 0,
            occupied: false,
            value: None,
            borrow: BorrowState::Unborrowed,
        };
        self.slots.set_and_swap(index, &mut s);
        s.borrow = b;
        self.slots.set(index, s);
        proof {
            let m2 = self@;
            assert(m2.slots =~= m.slots.update(index as int, Slot { borrow: b, ..m.slots[index as int] }));
            assert forall|k: int| 0 <= k < m2.free.len() implies (#[trigger] m2.free[k]
                as int) < m2.slots.len() && !m2.slots[m2.free[k] as int].occupied by {
                assert(m2.free[k] == m.free[k]);
            }
        }
    }

    /// Releases slot `index` if it holds `generation`; returns whether it did.
    pub fn release(&mut self, index: usize, generation: u32) -> (released: bool)
        requires
            old(self)@.wf(),
        ensures
            released == old(self)@.holds(index, generation),
            final(self)@ == old(self)@.release(index, generation),
            final(self)@.wf(),
            final(self).spec_kind() == old(self).spec_kind(),
    {
        if index >= self.slots.len() || !self.slots[index].occupied
            || self.slots[index].generation != generation {
            return false;
        }
        let ghost m = self@;
        proof {
            assert(!m.free.contains(index)) by {
                if m.free.contains(index) {
                    let k = choose|k: int| 0 <= k < m.free.len() && m.free[k] == index;
                    assert(!m.slots[m.free[k] as int].occupied);
                }
            }
        }
        if generation < MAX_GENERATION {
            self.slots.set(
                index,
                Slot {
                    generation: generation + 1,
                    occupied: false,
                    value: None,
                    borrow: BorrowState::Unborrowed,
                },
            );
            self.free.push(index);
            proof {
                let m2 = self@;
                assert forall|k: int| 0 <= k < m2.free.len() implies (#[trigger] m2.free[k]
                    as int) < m2.slots.len() && !m2.slots[m2.free[k] as int].occupied by {
                    if k < m.free.len() {
                        assert(m2.free[k] == m.free[k]);
                    }
                }
                assert forall|a: int, b: int|
                    0 <= a < m2.free.len() && 0 <= b < m2.free.len() && a != b implies m2.free[a]
                    != m2.free[b] by {
                    if a < m.free.len() && b < m.free.len() {
                        assert(m2.free[a] == m.free[a]);
                        assert(m2.free[b] == m.free[b]);
                    } else if a < m.free.len() {
                        assert(m.free[a] != index);
                    } else if b < m.free.len() {
                        assert(m.free[b] != index);
                    }
                }
            }
        } else {
            self.slots.set(
                index,
                Slot { generation, occupied: false, value: None, borrow: BorrowState::Unborrowed },
            );
            proof {
                let m2 = self@;
                assert forall|k: int| 0 <= k < m2.free.len() implies (#[trigger] m2.free[k]
                    as int) < m2.slots.len() && !m2.slots[m2.free[k] as int].occupied by {
                    assert(m.free[k] != index);
                }
            }
        }
        true
    }
}

} // verus!
