//! The tokenizer adapter: from free text to the token arrays the model
//! takes.
//!
//! The vocabulary artifact is parsed and applied by the `tokenizers`
//! crate behind two trusted wrappers. Not every parseable artifact
//! encodes the way a vocabulary must: one whose byte-pair model carries
//! merge dropout draws randomness on every call, and one whose template
//! for single texts references the second sequence aborts on every
//! call. [`spec_encoder_pure`] names the tokenizers free of both —
//! encoding under them returns on every text, and what it returns
//! depends on the text alone, the purity the pipeline's contract asks
//! of a vocabulary. Encoding requires that hypothesis; under it, the
//! outcome, the ids and the mask carry names ([`spec_encode_succeeds`],
//! [`spec_encoded_ids`], [`spec_encoded_mask`]) the contracts are exact
//! over, so encoding the same text under the same pure tokenizer yields
//! the same arrays. Everything after the raw encoding is verified: the
//! token ids are widened to the signed 64-bit form the model takes, the
//! attention mask is widened alongside, and the token type ids are all
//! zero because every input is a single segment.

use vstd::prelude::*;

use crate::errors::TokenizationError;

verus! {

#[verifier::external_type_specification]
#[verifier::external_body]
pub struct ExTokenizer(tokenizers::Tokenizer);

/// Whether the bytes of a vocabulary artifact parse into a tokenizer.
pub uninterp spec fn spec_tokenizer_parses(data: Seq<u8>) -> bool;

/// Whether a tokenizer encodes the way a vocabulary must: encoding
/// under it returns on every text, and what it returns depends on the
/// text alone. A parsed artifact need not be pure — a byte-pair model
/// with merge dropout draws randomness per call, and a template for
/// single texts that references the second sequence aborts — so
/// encoding carries this hypothesis, and the application establishes
/// it for the artifacts it accepts.
pub uninterp spec fn spec_encoder_pure(t: tokenizers::Tokenizer) -> bool;

/// Whether encoding a text under a pure tokenizer hands back token
/// arrays; when it does not, the adapter reports a tokenization error
/// instead.
pub uninterp spec fn spec_encode_succeeds(t: tokenizers::Tokenizer, text: Seq<char>) -> bool;

/// The token ids encoding under a pure tokenizer hands back, where it
/// succeeds.
pub uninterp spec fn spec_encoded_ids(t: tokenizers::Tokenizer, text: Seq<char>) -> Seq<u32>;

/// The attention mask encoding under a pure tokenizer hands back,
/// where it succeeds.
pub uninterp spec fn spec_encoded_mask(t: tokenizers::Tokenizer, text: Seq<char>) -> Seq<u32>;

/// Relies on `tokenizers::Tokenizer::from_bytes`: parses a serialized
/// tokenizer definition, succeeding on exactly the artifacts the crate
/// parses and failing on malformed bytes.
#[verifier::external_body]
fn tokenizer_from_bytes(data: &[u8]) -> (r: Result<tokenizers::Tokenizer, TokenizationError>)
    ensures
        r is Ok <==> spec_tokenizer_parses(data@),
{
    match tokenizers::Tokenizer::from_bytes(data) {
        Ok(t) => Ok(t),
        Err(e) => Err(TokenizationError { message: e.to_string() }),
    }
}

/// Relies on `tokenizers::Tokenizer::encode`: the token ids and the
/// attention mask of one encoding are built in step and have equal
/// length, and every mask entry is zero or one (one for content, zero
/// for padding) — read at every site of the crate that builds or edits
/// an encoding; those two facts hold of every outcome. The named
/// results are bound only under [`spec_encoder_pure`], because a
/// parseable artifact can encode randomly (merge dropout), and the
/// `requires` leaves out the tokenizers on which the call would not
/// return (a template for single texts that references the second
/// sequence aborts). Verified code cannot absorb an abort, so the
/// application screens a freshly fetched artifact — probing that an
/// encoding returns, twice and identically — before it builds an
/// adapter, and thereby stands behind the hypothesis.
#[verifier::external_body]
fn encode_raw(tokenizer: &tokenizers::Tokenizer, text: &str) -> (r: Result<
    (Vec<u32>, Vec<u32>),
    TokenizationError,
>)
    requires
        spec_encoder_pure(*tokenizer),
    ensures
        spec_encoder_pure(*tokenizer) ==> (r is Ok <==> spec_encode_succeeds(
            *tokenizer,
            text@,
        )),
        spec_encoder_pure(*tokenizer) ==> (r matches Ok(p) ==> p.0@ == spec_encoded_ids(
            *tokenizer,
            text@,
        )),
        spec_encoder_pure(*tokenizer) ==> (r matches Ok(p) ==> p.1@ == spec_encoded_mask(
            *tokenizer,
            text@,
        )),
        r matches Ok(p) ==> p.0@.len() == p.1@.len() && forall|k: int|
            0 <= k < p.1@.len() ==> p.1@[k] <= 1,
{
    match tokenizer.encode(text, false) {
        Ok(enc) => Ok((enc.get_ids().to_vec(), enc.get_attention_mask().to_vec())),
        Err(e) => Err(TokenizationError { message: e.to_string() }),
    }
}

/// A token id sequence widened to the signed 64-bit form the model
/// takes.
pub open spec fn widen_tokens(s: Seq<u32>) -> Seq<i64> {
    Seq::new(s.len(), |k: int| s[k] as i64)
}

/// The three equal-length arrays handed to the model for one text:
/// token ids, attention mask, and all-zero token type ids (inputs are
/// always a single segment; sentence pairs are not supported).
pub struct EncodedText {
    pub input_ids: Vec<i64>,
    pub attention_mask: Vec<i64>,
    pub token_type_ids: Vec<i64>,
}

impl EncodedText {
    /// The shape every encoding has: equal lengths, mask entries zero or
    /// one, token type ids zero, and ids within the unsigned 32-bit
    /// range they were widened from.
    pub open spec fn wf(&self) -> bool {
        &&& self.attention_mask@.len() == self.input_ids@.len()
        &&& self.token_type_ids@.len() == self.input_ids@.len()
        &&& forall|k: int|
            0 <= k < self.input_ids@.len() ==> 0 <= #[trigger] self.input_ids@[k] <= u32::MAX
        &&& forall|k: int|
            0 <= k < self.attention_mask@.len() ==> 0 <= #[trigger] self.attention_mask@[k] <= 1
        &&& forall|k: int|
            0 <= k < self.token_type_ids@.len() ==> #[trigger] self.token_type_ids@[k] == 0
    }
}

/// A loaded vocabulary artifact, ready to encode text. Encoding is
/// synchronous, has no side effects on the corpus and is never
/// retried; that it returns, and returns the same arrays for the same
/// text, is the [`spec_encoder_pure`] hypothesis the shell establishes
/// when it accepts an artifact.
pub struct TokenizerAdapter {
    tokenizer: tokenizers::Tokenizer,
}

impl TokenizerAdapter {
    /// The tokenizer value the adapter encodes with; the named results
    /// of [`TokenizerAdapter::encode`] are functions of it.
    pub closed spec fn spec_tokenizer(&self) -> tokenizers::Tokenizer {
        self.tokenizer
    }

    /// Parses a serialized tokenizer definition, the bytes of the
    /// vocabulary artifact; succeeds exactly when the artifact parses.
    pub fn from_bytes(data: &[u8]) -> (r: Result<TokenizerAdapter, TokenizationError>)
        ensures
            r is Ok <==> spec_tokenizer_parses(data@),
    {
        match tokenizer_from_bytes(data) {
            Ok(t) => Ok(TokenizerAdapter { tokenizer: t }),
            Err(e) => Err(e),
        }
    }

    /// Encodes one text into the arrays the model takes: the named raw
    /// encoding of the text under this adapter's tokenizer, widened,
    /// with all-zero token type ids. The adapter's tokenizer must be a
    /// pure encoder (the unverified shell establishes that by screening
    /// each artifact before it builds an adapter); under that
    /// hypothesis, encoding succeeds exactly when the raw encoding
    /// does, and the same text always yields the same arrays.
    pub fn encode(&self, text: &str) -> (r: Result<EncodedText, TokenizationError>)
        requires
            spec_encoder_pure(self.spec_tokenizer()),
        ensures
            r is Ok <==> spec_encode_succeeds(self.spec_tokenizer(), text@),
            r matches Ok(e) ==> e.wf(),
            r matches Ok(e) ==> e.input_ids@ == widen_tokens(
                spec_encoded_ids(self.spec_tokenizer(), text@),
            ),
            r matches Ok(e) ==> e.attention_mask@ == widen_tokens(
                spec_encoded_mask(self.spec_tokenizer(), text@),
            ),
    {
        let (ids, mask) = match encode_raw(&self.tokenizer, text) {
            Ok(p) => p,
            Err(e) => {
                return Err(e);
            },
        };
        let n = ids.len();
        let mut input_ids: Vec<i64> = Vec::new();
        let mut attention_mask: Vec<i64> = Vec::new();
        let mut token_type_ids: Vec<i64> = Vec::new();
        let mut j: usize = 0;
        while j < n
            invariant
                j <= n,
                n == ids@.len(),
                n == mask@.len(),
                forall|k: int| 0 <= k < mask@.len() ==> mask@[k] <= 1,
                input_ids@.len() == j,
                attention_mask@.len() == j,
                token_type_ids@.len() == j,
                forall|k: int|
                    0 <= k < j ==> #[trigger] input_ids@[k] == ids@[k] as i64,
                forall|k: int|
                    0 <= k < j ==> #[trigger] attention_mask@[k] == mask@[k] as i64,
                forall|k: int| 0 <= k < j ==> #[trigger] token_type_ids@[k] == 0,
            decreases n - j,
        {
            input_ids.push(ids[j] as i64);
            attention_mask.push(mask[j] as i64);
            token_type_ids.push(0);
            j = j + 1;
        }
        proof {
            assert(input_ids@ =~= widen_tokens(ids@));
            assert(attention_mask@ =~= widen_tokens(mask@));
        }
        Ok(EncodedText { input_ids, attention_mask, token_type_ids })
    }
}

} // verus!
