//! A compact vector of heterogeneous values behind one shared interface.
//!
//! The byte images of the stored values are packed into a few append-only
//! arenas, one per alignment class, instead of one allocation per value. A
//! directory records, for every element in insertion order, the arena that
//! holds it, its byte range there, and the interface that was captured for
//! its concrete type when it was pushed.
//!
//! A reference to an element is the pair of its byte span and its interface:
//! the interface knows how to read the bytes, and, given exclusive access, how
//! to change them in place. The interface of a concrete type is usually a
//! zero-sized value, so that boxing it allocates nothing.
//!
//! The container has no removal: it grows by `push`, is read and written in
//! place by `get` and `get_mut`, and ends as a whole by `teardown`.

pub mod align;
pub mod arena;
pub mod capability;
pub mod dst_vec;
pub mod primitives;

pub use crate::align::{class_of, LOG_MAX_ALIGN, MAX_ALIGN, NUM_CLASSES};
pub use crate::arena::ArenaSet;
pub use crate::capability::{AnyTrait, TraitImpl};
pub use crate::dst_vec::DstVec;
