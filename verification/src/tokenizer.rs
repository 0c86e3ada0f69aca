//! Token counting through the tiktoken `o200k_base` encoder.
//!
//! The encoder itself is outside code: the engine carries it as an
//! opaque value and treats every count it produces as an input. All
//! totals and cache properties are therefore proved for every possible
//! count, and nothing in the engine depends on what the encoder returns.

use vstd::prelude::*;

verus! {

/// Declares tiktoken's byte-pair encoder type so values of it can be
/// stored and passed through verified code.
#[verifier::external_type_specification]
#[verifier::external_body]
pub struct ExCoreBPE(tiktoken_rs::CoreBPE);

/// Relies on tiktoken_rs::o200k_base: builds the o200k byte-pair
/// encoder, or fails if the bundled vocabulary cannot be parsed.
#[verifier::external_body]
fn make_o200k() -> (r: Option<tiktoken_rs::CoreBPE>)
{
    tiktoken_rs::o200k_base().ok()
}

/// Relies on tiktoken_rs::CoreBPE::encode_with_special_tokens: encodes
/// the text with the given encoder and returns how many tokens came out.
#[verifier::external_body]
fn encode_count(encoder: &tiktoken_rs::CoreBPE, text: &str) -> (r: usize)
{
    encoder.encode_with_special_tokens(text).len()
}

/// Token counter holding a shared byte-pair encoder instance.
pub struct TokenCounter {
    encoder: tiktoken_rs::CoreBPE,
}

impl TokenCounter {
    /// Creates a token counter with the o200k encoder, or `None` if the
    /// encoder cannot be built.
    pub fn new() -> (r: Option<TokenCounter>)
    {
        match make_o200k() {
            Some(encoder) => Some(TokenCounter { encoder }),
            None => None,
        }
    }

    /// Counts the tokens of one piece of text. The result depends on
    /// the encoder, so callers treat it as an arbitrary count.
    pub fn count_text_tokens(&self, text: &str) -> (r: u64)
    {
        encode_count(&self.encoder, text) as u64
    }
}

} // verus!
