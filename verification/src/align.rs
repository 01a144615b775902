//! Alignment classes: the supported alignments and the arena each one maps to.

use vstd::prelude::*;

verus! {

/// The largest alignment that a stored value may ask for.
pub const MAX_ALIGN: usize = 8;

/// The class of [`MAX_ALIGN`], which is the highest class there is.
pub const LOG_MAX_ALIGN: usize = 3;

/// The number of alignment classes, and so of arenas.
pub const NUM_CLASSES: usize = 4;

/// An alignment is supported when it is a power of two and at most [`MAX_ALIGN`].
pub open spec fn supported_align(align: usize) -> bool {
    align == 1 || align == 2 || align == 4 || align == 8
}

/// The class of a supported alignment: its binary logarithm.
pub open spec fn align_class(align: usize) -> nat {
    if align == 1 {
        0
    } else if align == 2 {
        1
    } else if align == 4 {
        2
    } else {
        3
    }
}

/// Two to the power `class`, for the classes that exist.
pub open spec fn class_align(class: nat) -> usize {
    if class == 0 {
        1
    } else if class == 1 {
        2
    } else if class == 2 {
        4
    } else {
        8
    }
}

/// On the supported alignments the class is the binary logarithm: it is a
/// class that exists, and raising two to it gives the alignment back.
pub proof fn lemma_class_is_log2(align: usize)
    requires
        supported_align(align),
    ensures
        align_class(align) <= LOG_MAX_ALIGN,
        align_class(align) < NUM_CLASSES,
        class_align(align_class(align)) == align,
        vstd::arithmetic::power2::pow2(align_class(align)) == align,
{
    vstd::arithmetic::power2::lemma2_to64();
}

/// The supported alignments are exactly the powers of two from one up to
/// [`MAX_ALIGN`].
pub proof fn lemma_supported_is_power_of_two(align: usize)
    ensures
        supported_align(align) <==> exists|k: nat|
            k <= LOG_MAX_ALIGN && #[trigger] vstd::arithmetic::power2::pow2(k) == align,
{
    vstd::arithmetic::power2::lemma2_to64();
    if supported_align(align) {
        assert(vstd::arithmetic::power2::pow2(align_class(align)) == align);
    }
}

/// Distinct supported alignments fall into distinct classes.
pub proof fn lemma_class_injective(a: usize, b: usize)
    requires
        supported_align(a),
        supported_align(b),
        align_class(a) == align_class(b),
    ensures
        a == b,
{
}

/// The number of trailing zero bits of the four supported alignments.
proof fn lemma_trailing_zeros_of_supported(align: u64)
    requires
        align == 1 || align == 2 || align == 4 || align == 8,
    ensures
        align == 1 ==> vstd::std_specs::bits::u64_trailing_zeros(align) == 0,
        align == 2 ==> vstd::std_specs::bits::u64_trailing_zeros(align) == 1,
        align == 4 ==> vstd::std_specs::bits::u64_trailing_zeros(align) == 2,
        align == 8 ==> vstd::std_specs::bits::u64_trailing_zeros(align) == 3,
{
    vstd::std_specs::bits::axiom_u64_trailing_zeros(align);
    let tz: u32 = vstd::std_specs::bits::u64_trailing_zeros(align);
    assert(tz < 64);
    let t: u64 = tz as u64;
    assert((align >> t) & 1u64 == 1u64);
    assert(t < 64 && (align >> t) & 1u64 == 1u64 && (align == 1 || align == 2 || align == 4
        || align == 8) ==> (align == 1 && t == 0) || (align == 2 && t == 1) || (align == 4 && t
        == 2) || (align == 8 && t == 3)) by (bit_vector);
}

/// The alignment class of `align`, counted as the trailing zero bits of the
/// alignment. For a supported alignment this is its binary logarithm.
pub fn class_of(align: usize) -> (class: usize)
    requires
        supported_align(align),
    ensures
        class == align_class(align),
        class < NUM_CLASSES,
{
    let wide: u64 = align as u64;
    proof {
        lemma_trailing_zeros_of_supported(wide);
    }
    let zeros: u32 = wide.trailing_zeros();
    zeros as usize
}

} // verus!
