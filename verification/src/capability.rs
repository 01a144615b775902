//! What a concrete type must offer to be stored: its alignment and byte image,
//! and the interface through which its bytes are reached afterwards.

use vstd::prelude::*;

verus! {

/// A value that can report the alignment it needs and hand out its byte image.
pub trait AnyTrait {
    /// The alignment that the value requires.
    spec fn align_spec(&self) -> usize;

    /// The value's full byte image.
    spec fn raw_bytes_spec(&self) -> Seq<u8>;

    /// Reports the alignment that the value requires.
    fn align(&self) -> (align: usize)
        ensures
            align == self.align_spec(),
    ;

    /// Copies out the value's byte image. The value itself is left as it is.
    fn raw_bytes(&self) -> (bytes: Vec<u8>)
        ensures
            bytes@ == self.raw_bytes_spec(),
    ;
}

/// A concrete type whose byte image can be reached through the interface
/// `Trait`.
///
/// An implementation promises that the interface it hands out is the one that
/// understands byte images of exactly this type.
pub trait TraitImpl<Trait: ?Sized>: Sized + AnyTrait {
    /// The interface for byte images of this type.
    spec fn upcast_spec() -> Box<Trait>;

    /// Hands out the interface for byte images of this type. It depends on the
    /// type alone, never on a value.
    fn upcast() -> (interface: Box<Trait>)
        ensures
            interface == Self::upcast_spec(),
    ;
}

} // verus!
