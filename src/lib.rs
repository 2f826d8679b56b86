//! A generational slot arena: copyable handles to stored values, checked
//! on every access against the slot's generation, the value's kind and the
//! borrows that are live, and scope owners that release what they stored.

pub mod arena;
pub mod handle;
pub mod laws;
pub mod owner;
pub mod props;
pub mod value;

pub use arena::{AccessError, Arena, BackendKind, BorrowState, BorrowToken, MAX_GENERATION};
pub use handle::GenerationalBox;
pub use owner::Owner;
pub use props::HasProps;
pub use value::{TypeTag, Value};
