use vstd::prelude::*;

verus! {

/// A component whose properties are described by a type of their own.
pub trait HasProps {
    /// The props type of the component.
    type Props;
}

} // verus!
