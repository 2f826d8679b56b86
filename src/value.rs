use vstd::prelude::*;

verus! {

/// The kind of a stored value; every slot records the kind of what it holds.
#[derive(Clone, Copy, Debug, PartialEq, Eq, Hash, Structural)]
pub enum TypeTag {
    Unit,
    Bool,
    U32,
    U64,
    I64,
    Text,
    Bytes,
}

/// A value of any of the kinds the arena can hold, erased to one type so that
/// one slot table can host them all.
#[derive(Clone, Debug, PartialEq, Eq)]
pub enum Value {
    Unit,
    Bool(bool),
    U32(u32),
    U64(u64),
    I64(i64),
    Text(String),
    Bytes(Vec<u8>),
}

impl Value {
    /// The kind of this value.
    pub open spec fn tag_of(self) -> TypeTag {
        match self {
            Value::Unit => TypeTag::Unit,
            Value::Bool(_) => TypeTag::Bool,
            Value::U32(_) => TypeTag::U32,
            Value::U64(_) => TypeTag::U64,
            Value::I64(_) => TypeTag::I64,
            Value::Text(_) => TypeTag::Text,
            Value::Bytes(_) => TypeTag::Bytes,
        }
    }

    pub fn tag(&self) -> (t: TypeTag)
        ensures
            t == self.tag_of(),
    {
        match self {
            Value::Unit => TypeTag::Unit,
            Value::Bool(_) => TypeTag::Bool,
            Value::U32(_) => TypeTag::U32,
            Value::U64(_) => TypeTag::U64,
            Value::I64(_) => TypeTag::I64,
            Value::Text(_) => TypeTag::Text,
            Value::Bytes(_) => TypeTag::Bytes,
        }
    }
}

} // verus!
