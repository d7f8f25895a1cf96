//! Embedding vectors and their stored byte encoding.
//!
//! An embedding vector has exactly [`EMBEDDING_DIM`] components, each
//! carried as the bit pattern of an IEEE-754 single-precision value. The
//! cache stores a vector as the concatenation of the four little-endian
//! bytes of each component, in component order; encoding and decoding
//! are exact inverses at the bit level, so a stored vector is read back
//! unchanged.

use vstd::prelude::*;
use vstd::bytes::{spec_u32_from_le_bytes, spec_u32_to_le_bytes};
use vstd::bytes::{u32_from_le_bytes, u32_to_le_bytes};
use vstd::bytes::lemma_auto_spec_u32_to_from_le_bytes;
use vstd::slice::slice_subrange;

verus! {

/// The hidden dimension of the model: the number of components of every
/// embedding vector.
pub const EMBEDDING_DIM: usize = 384;

/// The number of bytes of a stored vector: four per component.
pub const EMBEDDING_BYTES: usize = 4 * 384;

/// A fixed-length embedding vector. Each component is the bit pattern of
/// an IEEE-754 single-precision value; the view is the sequence of those
/// patterns, and it always has exactly [`EMBEDDING_DIM`] entries.
pub struct EmbeddingVector {
    bits: Vec<u32>,
}

impl View for EmbeddingVector {
    type V = Seq<u32>;

    closed spec fn view(&self) -> Seq<u32> {
        self.bits@
    }
}

impl EmbeddingVector {
    #[verifier::type_invariant]
    spec fn fixed_dimension(self) -> bool {
        self.bits@.len() == EMBEDDING_DIM
    }

    /// Wraps a component list into a vector, refusing any list whose
    /// length is not exactly [`EMBEDDING_DIM`].
    pub fn from_bits(bits: Vec<u32>) -> (r: Option<EmbeddingVector>)
        ensures
            match r {
                Some(v) => bits@.len() == EMBEDDING_DIM && v@ == bits@,
                None => bits@.len() != EMBEDDING_DIM,
            },
    {
        if bits.len() == EMBEDDING_DIM {
            Some(EmbeddingVector { bits })
        } else {
            None
        }
    }

    /// The components of the vector.
    pub fn bits(&self) -> (r: &Vec<u32>)
        ensures
            r@ == self@,
            r@.len() == EMBEDDING_DIM,
    {
        proof {
            use_type_invariant(self);
        }
        &self.bits
    }

    /// The number of components, always [`EMBEDDING_DIM`].
    pub fn len(&self) -> (n: usize)
        ensures
            n == EMBEDDING_DIM,
            self@.len() == EMBEDDING_DIM,
    {
        proof {
            use_type_invariant(self);
        }
        self.bits.len()
    }
}

impl Clone for EmbeddingVector {
    fn clone(&self) -> (r: Self)
        ensures
            r@ == self@,
    {
        proof {
            use_type_invariant(self);
        }
        EmbeddingVector { bits: self.bits.clone() }
    }
}

/// The stored byte encoding of a component sequence: the four
/// little-endian bytes of each component, in component order.
pub open spec fn spec_encode_vector(v: Seq<u32>) -> Seq<u8>
    decreases v.len(),
{
    if v.len() == 0 {
        Seq::empty()
    } else {
        spec_u32_to_le_bytes(v.first()) + spec_encode_vector(v.drop_first())
    }
}

/// The component sequence read back from stored bytes: each group of four
/// bytes is one little-endian component; a trailing group of fewer than
/// four bytes is dropped.
pub open spec fn spec_decode_vector(b: Seq<u8>) -> Seq<u32>
    decreases b.len(),
{
    if b.len() < 4 {
        Seq::empty()
    } else {
        seq![spec_u32_from_le_bytes(b.take(4))] + spec_decode_vector(b.skip(4))
    }
}

/// Encoding `n` components yields `4 * n` bytes.
pub proof fn lemma_encode_vector_len(v: Seq<u32>)
    ensures
        spec_encode_vector(v).len() == 4 * v.len(),
    decreases v.len(),
{
    lemma_auto_spec_u32_to_from_le_bytes();
    if v.len() > 0 {
        lemma_encode_vector_len(v.drop_first());
    }
}

/// Appending one component to a sequence appends its four bytes to the
/// encoding.
proof fn lemma_encode_vector_push(v: Seq<u32>, x: u32)
    ensures
        spec_encode_vector(v.push(x)) == spec_encode_vector(v) + spec_u32_to_le_bytes(x),
    decreases v.len(),
{
    lemma_auto_spec_u32_to_from_le_bytes();
    if v.len() == 0 {
        assert(v.push(x).drop_first() =~= v);
        assert(spec_encode_vector(v.push(x)) =~= spec_u32_to_le_bytes(x));
        assert(spec_encode_vector(v) + spec_u32_to_le_bytes(x) =~= spec_u32_to_le_bytes(x));
    } else {
        assert(v.push(x).first() == v.first());
        assert(v.push(x).drop_first() =~= v.drop_first().push(x));
        lemma_encode_vector_push(v.drop_first(), x);
        assert(spec_encode_vector(v.push(x)) =~= spec_encode_vector(v) + spec_u32_to_le_bytes(x));
    }
}

/// Appending four bytes to a whole number of groups appends one decoded
/// component.
proof fn lemma_decode_vector_append4(b: Seq<u8>, c: Seq<u8>)
    requires
        b.len() % 4 == 0,
        c.len() == 4,
    ensures
        spec_decode_vector(b + c) == spec_decode_vector(b) + seq![spec_u32_from_le_bytes(c)],
    decreases b.len(),
{
    if b.len() == 0 {
        assert(b + c =~= c);
        assert(c.take(4) =~= c);
        assert(c.skip(4) =~= Seq::<u8>::empty());
        assert(spec_decode_vector(Seq::<u8>::empty()) =~= Seq::<u32>::empty());
        assert(spec_decode_vector(c) =~= seq![spec_u32_from_le_bytes(c)]);
        assert(spec_decode_vector(b) + seq![spec_u32_from_le_bytes(c)] =~= seq![
            spec_u32_from_le_bytes(c),
        ]);
    } else {
        assert((b + c).take(4) =~= b.take(4));
        assert((b + c).skip(4) =~= b.skip(4) + c);
        lemma_decode_vector_append4(b.skip(4), c);
        assert(spec_decode_vector(b + c) =~= spec_decode_vector(b) + seq![
            spec_u32_from_le_bytes(c),
        ]);
    }
}

/// Law: decoding an encoded component sequence yields the sequence
/// unchanged, so a vector stored through [`encode_embedding`] and read
/// back through [`decode_embedding`] is exactly the vector that was
/// stored.
pub proof fn lemma_vector_codec_roundtrip(v: Seq<u32>)
    ensures
        spec_decode_vector(spec_encode_vector(v)) == v,
    decreases v.len(),
{
    lemma_auto_spec_u32_to_from_le_bytes();
    if v.len() == 0 {
        assert(spec_decode_vector(spec_encode_vector(v)) =~= v);
    } else {
        let head = spec_u32_to_le_bytes(v.first());
        let tail = spec_encode_vector(v.drop_first());
        assert((head + tail).take(4) =~= head);
        assert((head + tail).skip(4) =~= tail);
        lemma_vector_codec_roundtrip(v.drop_first());
        assert(spec_decode_vector(spec_encode_vector(v)) =~= v);
    }
}

/// Encodes a vector into the stored byte form.
pub fn encode_embedding(v: &EmbeddingVector) -> (bytes: Vec<u8>)
    ensures
        bytes@ == spec_encode_vector(v@),
        bytes@.len() == EMBEDDING_BYTES,
{
    proof {
        use_type_invariant(v);
        lemma_encode_vector_len(v@);
    }
    let components = v.bits();
    let mut bytes: Vec<u8> = Vec::new();
    let mut i: usize = 0;
    while i < components.len()
        invariant
            i <= components.len(),
            components@ == v@,
            components@.len() == EMBEDDING_DIM,
            bytes@ == spec_encode_vector(v@.take(i as int)),
        decreases components@.len() - i,
    {
        let mut group = u32_to_le_bytes(components[i]);
        proof {
            lemma_encode_vector_push(v@.take(i as int), v@[i as int]);
            assert(v@.take(i as int).push(v@[i as int]) =~= v@.take(i + 1));
        }
        bytes.append(&mut group);
        i = i + 1;
    }
    proof {
        assert(v@.take(v@.len() as int) =~= v@);
    }
    bytes
}

/// Decodes stored bytes back into a vector. Exactly the byte strings of
/// length [`EMBEDDING_BYTES`] decode; any other length is refused.
pub fn decode_embedding(bytes: &Vec<u8>) -> (r: Option<EmbeddingVector>)
    ensures
        match r {
            Some(v) => bytes@.len() == EMBEDDING_BYTES && v@ == spec_decode_vector(bytes@),
            None => bytes@.len() != EMBEDDING_BYTES,
        },
{
    if bytes.len() != EMBEDDING_BYTES {
        return None;
    }
    let mut components: Vec<u32> = Vec::new();
    let mut i: usize = 0;
    while i < EMBEDDING_DIM
        invariant
            i <= EMBEDDING_DIM,
            bytes@.len() == EMBEDDING_BYTES,
            components@ == spec_decode_vector(bytes@.take(4 * i)),
            components@.len() == i,
        decreases EMBEDDING_DIM - i,
    {
        let group = slice_subrange(bytes.as_slice(), 4 * i, 4 * i + 4);
        let x = u32_from_le_bytes(group);
        proof {
            lemma_decode_vector_append4(bytes@.take(4 * i), group@);
            assert(bytes@.take(4 * i) + group@ =~= bytes@.take(4 * (i + 1)));
            assert(spec_decode_vector(bytes@.take(4 * i)).len() == i);
        }
        components.push(x);
        i = i + 1;
    }
    proof {
        assert(bytes@.take(4 * (EMBEDDING_DIM as int)) =~= bytes@);
    }
    Some(EmbeddingVector { bits: components })
}

} // verus!
