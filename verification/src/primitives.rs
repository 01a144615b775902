//! The unsigned integers as storable values: each reports its natural
//! alignment and hands out its little-endian byte image.

use vstd::prelude::*;
use vstd::bytes::{
    lemma_auto_spec_u16_to_from_le_bytes, lemma_auto_spec_u32_to_from_le_bytes,
    lemma_auto_spec_u64_to_from_le_bytes, spec_u16_from_le_bytes, spec_u16_to_le_bytes,
    spec_u32_from_le_bytes, spec_u32_to_le_bytes, spec_u64_from_le_bytes, spec_u64_to_le_bytes,
    u16_to_le_bytes, u32_to_le_bytes, u64_to_le_bytes,
};
use crate::align::{align_class, supported_align};
use crate::capability::AnyTrait;

verus! {

impl AnyTrait for u8 {
    open spec fn align_spec(&self) -> usize {
        1
    }

    open spec fn raw_bytes_spec(&self) -> Seq<u8> {
        seq![*self]
    }

    fn align(&self) -> (align: usize) {
        1
    }

    fn raw_bytes(&self) -> (bytes: Vec<u8>) {
        let mut bytes: Vec<u8> = Vec::new();
        bytes.push(*self);
        assert(bytes@ =~= seq![*self]);
        bytes
    }
}

impl AnyTrait for u16 {
    open spec fn align_spec(&self) -> usize {
        2
    }

    open spec fn raw_bytes_spec(&self) -> Seq<u8> {
        spec_u16_to_le_bytes(*self)
    }

    fn align(&self) -> (align: usize) {
        2
    }

    fn raw_bytes(&self) -> (bytes: Vec<u8>) {
        u16_to_le_bytes(*self)
    }
}

impl AnyTrait for u32 {
    open spec fn align_spec(&self) -> usize {
        4
    }

    open spec fn raw_bytes_spec(&self) -> Seq<u8> {
        spec_u32_to_le_bytes(*self)
    }

    fn align(&self) -> (align: usize) {
        4
    }

    fn raw_bytes(&self) -> (bytes: Vec<u8>) {
        u32_to_le_bytes(*self)
    }
}

impl AnyTrait for u64 {
    open spec fn align_spec(&self) -> usize {
        8
    }

    open spec fn raw_bytes_spec(&self) -> Seq<u8> {
        spec_u64_to_le_bytes(*self)
    }

    fn align(&self) -> (align: usize) {
        8
    }

    fn raw_bytes(&self) -> (bytes: Vec<u8>) {
        u64_to_le_bytes(*self)
    }
}

/// A `u8` goes to class 0 and its image is the byte itself.
pub proof fn lemma_u8_image(x: u8)
    ensures
        supported_align(x.align_spec()),
        align_class(x.align_spec()) == 0,
        x.raw_bytes_spec().len() == 1,
        x.raw_bytes_spec()[0] == x,
{
}

/// A `u16` goes to class 1, its image is two bytes long, and reading the
/// image as a little-endian number gives the value back.
pub proof fn lemma_u16_image(x: u16)
    ensures
        supported_align(x.align_spec()),
        align_class(x.align_spec()) == 1,
        x.raw_bytes_spec().len() == 2,
        spec_u16_from_le_bytes(x.raw_bytes_spec()) == x,
{
    lemma_auto_spec_u16_to_from_le_bytes();
}

/// A `u32` goes to class 2, its image is four bytes long, and reading the
/// image as a little-endian number gives the value back.
pub proof fn lemma_u32_image(x: u32)
    ensures
        supported_align(x.align_spec()),
        align_class(x.align_spec()) == 2,
        x.raw_bytes_spec().len() == 4,
        spec_u32_from_le_bytes(x.raw_bytes_spec()) == x,
{
    lemma_auto_spec_u32_to_from_le_bytes();
}

/// A `u64` goes to class 3, its image is eight bytes long, and reading the
/// image as a little-endian number gives the value back.
pub proof fn lemma_u64_image(x: u64)
    ensures
        supported_align(x.align_spec()),
        align_class(x.align_spec()) == 3,
        x.raw_bytes_spec().len() == 8,
        spec_u64_from_le_bytes(x.raw_bytes_spec()) == x,
{
    lemma_auto_spec_u64_to_from_le_bytes();
}

} // verus!
