//! How large a text is taken to be in a model's context.
use vstd::prelude::*;
use crate::text;

verus! {

/// Bytes that one token is taken to stand for.
pub const BYTES_PER_TOKEN: usize = 4;

/// The estimated number of tokens of a text.
pub open spec fn text_tokens(s: Seq<char>) -> nat {
    text::byte_len(s) / (BYTES_PER_TOKEN as nat)
}

/// Estimates the number of tokens of a text.
pub fn estimate_text_tokens(s: &str) -> (tokens: usize)
    ensures
        tokens == text_tokens(s@),
{
    text::bytes_in(s) / BYTES_PER_TOKEN
}

// ---------------------------------------------------------------------------
// Laws
// ---------------------------------------------------------------------------

/// A token stands for as many bytes as it is taken for, and a longer text is
/// never estimated at less.
pub proof fn law_tokens_follow_the_bytes(s: Seq<char>, more: Seq<char>)
    ensures
        text_tokens(s) * BYTES_PER_TOKEN <= text::byte_len(s) < (text_tokens(s) + 1) * BYTES_PER_TOKEN,
        text_tokens(s) <= text_tokens(s + more),
        text_tokens(s) + text_tokens(more) <= text_tokens(s + more) <= text_tokens(s) + text_tokens(more) + 1,
{
    text::encode_concat(s, more);
}

} // verus!
