//! Similarity scores, carried as IEEE-754 single-precision bit patterns.
//!
//! A similarity between two unit vectors is a single-precision value in
//! the interval from minus one to one. The crate never computes with the
//! value itself; it carries the 32-bit pattern and compares patterns
//! through [`score_key`], an integer key whose order agrees with the
//! numeric order of the encoded values wherever those values are
//! numbers, with one exception: the two zero patterns are numerically
//! equal but the key puts minus zero strictly below plus zero. Both
//! zeros fall well below the relevance floor, so ranking never observes
//! the difference.

use vstd::prelude::*;

verus! {

/// Bit pattern of the single-precision value one, the largest similarity
/// two unit vectors can have.
pub const ONE_BITS: u32 = 0x3F80_0000;

/// Bit pattern of the single-precision value minus one, the smallest
/// similarity two unit vectors can have.
pub const NEG_ONE_BITS: u32 = 0xBF80_0000;

/// Bit pattern of the fixed relevance floor, three tenths. A search result
/// whose similarity does not exceed this value is discarded.
pub const RELEVANCE_FLOOR_BITS: u32 = 0x3E99_999A;

/// The sign bit of a single-precision pattern.
pub const SIGN_MASK: u32 = 0x8000_0000;

/// A pattern with the sign bit cleared and every exponent bit set; patterns
/// strictly above it (ignoring the sign) do not encode numbers.
pub const INFINITY_MAGNITUDE: u32 = 0x7F80_0000;

/// An integer key that orders score bit patterns as the encoded values
/// are ordered. Patterns with the sign bit set encode negative values or
/// minus zero, whose order is the reverse of their pattern order; they
/// sit below every pattern with the sign bit clear. At the zeros the key
/// is finer than the numbers: minus zero keys below plus zero though the
/// two are numerically equal.
pub open spec fn score_key(bits: u32) -> int {
    if bits >= SIGN_MASK {
        0xFFFF_FFFF - bits
    } else {
        bits + 0x8000_0000
    }
}

/// Whether a bit pattern encodes no number at all: every exponent bit set
/// and a non-zero mantissa.
pub open spec fn spec_is_nan_bits(bits: u32) -> bool {
    bits % SIGN_MASK > INFINITY_MAGNITUDE
}

/// A similarity taken from a numeric model is absorbed into the interval
/// from minus one to one: patterns above the pattern of one clamp down to
/// it, patterns below the pattern of minus one clamp up to it, and a
/// pattern that encodes no number at all becomes the lowest similarity.
pub open spec fn spec_clamp_score(bits: u32) -> u32 {
    if spec_is_nan_bits(bits) {
        NEG_ONE_BITS
    } else if score_key(bits) > score_key(ONE_BITS) {
        ONE_BITS
    } else if score_key(bits) < score_key(NEG_ONE_BITS) {
        NEG_ONE_BITS
    } else {
        bits
    }
}

/// Whether a (clamped) similarity clears the relevance floor.
pub open spec fn spec_passes_floor(bits: u32) -> bool {
    score_key(bits) > score_key(RELEVANCE_FLOOR_BITS)
}

/// Compares two score patterns by their keys.
pub fn score_exceeds(a: u32, b: u32) -> (r: bool)
    ensures
        r == (score_key(a) > score_key(b)),
{
    if a >= SIGN_MASK {
        if b >= SIGN_MASK {
            b > a
        } else {
            false
        }
    } else {
        if b >= SIGN_MASK {
            true
        } else {
            a > b
        }
    }
}

/// Whether a bit pattern encodes no number at all.
pub fn is_nan_bits(bits: u32) -> (r: bool)
    ensures
        r == spec_is_nan_bits(bits),
{
    bits % SIGN_MASK > INFINITY_MAGNITUDE
}

/// Absorbs a raw similarity pattern into the interval from minus one to
/// one, as [`spec_clamp_score`] describes.
pub fn clamp_score(bits: u32) -> (r: u32)
    ensures
        r == spec_clamp_score(bits),
{
    if is_nan_bits(bits) {
        NEG_ONE_BITS
    } else if score_exceeds(bits, ONE_BITS) {
        ONE_BITS
    } else if score_exceeds(NEG_ONE_BITS, bits) {
        NEG_ONE_BITS
    } else {
        bits
    }
}

/// Whether a similarity pattern clears the relevance floor.
pub fn passes_floor(bits: u32) -> (r: bool)
    ensures
        r == spec_passes_floor(bits),
{
    score_exceeds(bits, RELEVANCE_FLOOR_BITS)
}

/// Law: a clamped similarity never leaves the interval from minus one
/// to one; in key order it lies between the patterns of those two
/// values. This is what absorbs floating-point drift in a similarity
/// handed in from the numeric model.
pub proof fn lemma_clamp_score_bounds(bits: u32)
    ensures
        score_key(NEG_ONE_BITS) <= score_key(spec_clamp_score(bits)) <= score_key(ONE_BITS),
{
}

} // verus!
