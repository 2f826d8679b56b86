use vstd::prelude::*;

use crate::arena::{AccessError, Arena, BackendKind, BorrowToken};
use crate::value::{TypeTag, Value};

verus! {

/// A copyable, generation-checked reference to one value in an arena.
/// It owns nothing: every access checks it against the slot's current state.
#[derive(Clone, Copy, Debug, PartialEq, Eq, Hash, Structural)]
pub struct GenerationalBox {
    pub index: usize,
    pub generation: u32,
    pub tag: TypeTag,
    pub kind: BackendKind,
}

impl GenerationalBox {
    /// What reading through this handle yields in `arena`.
    pub open spec fn read_spec(self, arena: &Arena) -> Result<Value, AccessError> {
        arena@.access(self.index, self.generation, self.tag)
    }

    /// Reads the value this handle refers to.
    pub fn try_read<'a>(&self, arena: &'a Arena) -> (r: Result<&'a Value, AccessError>)
        requires
            arena@.wf(),
        ensures
            match r {
                Ok(v) => self.read_spec(arena) == Ok::<Value, AccessError>(*v),
                Err(e) => self.read_spec(arena) == Err::<Value, AccessError>(e),
            },
    {
        arena.try_access(self.index, self.generation, self.tag)
    }

    /// Reads the value this handle refers to, which the caller knows to be live.
    pub fn read<'a>(&self, arena: &'a Arena) -> (v: &'a Value)
        requires
            arena@.wf(),
            self.read_spec(arena) is Ok,
        ensures
            self.read_spec(arena) == Ok::<Value, AccessError>(*v),
    {
        let r = arena.try_access(self.index, self.generation, self.tag);
        r.unwrap()
    }

    /// Replaces the value this handle refers to; refused when the handle is
    /// stale or `v` is of another kind than the handle is bound to.
    pub fn try_write(&self, arena: &mut Arena, v: Value) -> (r: Result<(), AccessError>)
        requires
            old(arena)@.wf(),
        ensures
            r == old(arena)@.write_result(self.index, self.generation, self.tag, v),
            final(arena)@ == old(arena)@.write(self.index, self.generation, self.tag, v),
            final(arena)@.wf(),
            final(arena).spec_kind() == old(arena).spec_kind(),
    {
        arena.write(self.index, self.generation, self.tag, v)
    }

    /// Replaces the value this handle refers to, which the caller knows to be
    /// live and of the handle's kind.
    pub fn set(&self, arena: &mut Arena, v: Value)
        requires
            old(arena)@.wf(),
            old(arena)@.write_result(self.index, self.generation, self.tag, v) is Ok,
        ensures
            final(arena)@ == old(arena)@.write(self.index, self.generation, self.tag, v),
            final(arena)@.wf(),
            final(arena).spec_kind() == old(arena).spec_kind(),
    {
        let _ = arena.write(self.index, self.generation, self.tag, v);
    }

    /// Starts a shared borrow of the value this handle refers to; it fails
    /// while an exclusive borrow is live.
    pub fn borrow(&self, arena: &mut Arena) -> (r: Result<BorrowToken, AccessError>)
        requires
            old(arena)@.wf(),
        ensures
            match r {
                Ok(t) => old(arena)@.borrow_result(self.index, self.generation, self.tag, false)
                    is Ok && t == (BorrowToken {
                    index: self.index,
                    generation: self.generation,
                    exclusive: false,
                }),
                Err(e) => old(arena)@.borrow_result(self.index, self.generation, self.tag, false)
                    == Err::<(), AccessError>(e),
            },
            final(arena)@ == old(arena)@.borrow(self.index, self.generation, self.tag, false),
            final(arena)@.wf(),
            final(arena).spec_kind() == old(arena).spec_kind(),
    {
        arena.begin_borrow(self.index, self.generation, self.tag, false)
    }

    /// Starts an exclusive borrow of the value this handle refers to; it
    /// fails while any other borrow is live.
    pub fn borrow_mut(&self, arena: &mut Arena) -> (r: Result<BorrowToken, AccessError>)
        requires
            old(arena)@.wf(),
        ensures
            match r {
                Ok(t) => old(arena)@.borrow_result(self.index, self.generation, self.tag, true)
                    is Ok && t == (BorrowToken {
                    index: self.index,
                    generation: self.generation,
                    exclusive: true,
                }),
                Err(e) => old(arena)@.borrow_result(self.index, self.generation, self.tag, true)
                    == Err::<(), AccessError>(e),
            },
            final(arena)@ == old(arena)@.borrow(self.index, self.generation, self.tag, true),
            final(arena)@.wf(),
            final(arena).spec_kind() == old(arena).spec_kind(),
    {
        arena.begin_borrow(self.index, self.generation, self.tag, true)
    }

    /// Whether reading through this handle would succeed.
    pub fn is_valid(&self, arena: &Arena) -> (b: bool)
        requires
            arena@.wf(),
        ensures
            b == self.read_spec(arena) is Ok,
    {
        arena.is_valid(self.index, self.generation, self.tag)
    }
}

} // verus!
