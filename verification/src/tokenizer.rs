//! Token-count estimates for text.

use vstd::prelude::*;
use vstd::utf8::*;

verus! {

/// `n / 4`, rounded up.
pub open spec fn quarter_up(n: nat) -> nat {
    (n + 3) / 4
}

fn div_up_4(n: usize) -> (r: usize)
    ensures
        r == quarter_up(n as nat),
{
    if n % 4 == 0 {
        n / 4
    } else {
        n / 4 + 1
    }
}

/// Estimate token count from text using character-based heuristic.
/// Uses ~4 characters per token for English text as a rough approximation.
pub fn estimate_tokens(text: &str) -> (r: usize)
    ensures
        r == quarter_up(text@.len()),
        text@.len() <= 4 * r < text@.len() + 4,
{
    if text.is_empty() {
        return 0;
    }
    div_up_4(text.unicode_len())
}

/// Estimate token count from byte length when text is unavailable.
/// Uses ~4 bytes per token for ASCII/English text. For UTF-8 multi-byte
/// characters this overestimates (fewer bytes per token); for CJK text
/// (~3 bytes/char, ~1-2 chars/token) it underestimates. Use
/// `estimate_tokens(&str)` when text is available for more accurate results.
pub fn estimate_tokens_from_bytes(bytes: usize) -> (r: usize)
    ensures
        r == quarter_up(bytes as nat),
        bytes <= 4 * r < bytes + 4,
{
    if bytes == 0 {
        return 0;
    }
    div_up_4(bytes)
}

/// Count Unicode characters in text.
pub fn count_chars(text: &str) -> (r: usize)
    ensures
        r == text@.len(),
{
    text.unicode_len()
}

/// The estimates as methods. The free functions `estimate_tokens` and
/// `count_chars` do the same.
pub struct Tokenizer;

impl Tokenizer {
    /// A tokenizer; it holds no state.
    pub fn new() -> (r: Self)
        ensures
            r == Tokenizer,
    {
        Tokenizer
    }

    /// See [`estimate_tokens`].
    pub fn estimate_tokens(&self, text: &str) -> (r: usize)
        ensures
            r == quarter_up(text@.len()),
            text@.len() <= 4 * r < text@.len() + 4,
    {
        estimate_tokens(text)
    }

    /// See [`count_chars`].
    pub fn count_chars(&self, text: &str) -> (r: usize)
        ensures
            r == text@.len(),
    {
        count_chars(text)
    }
}

impl Default for Tokenizer {
    fn default() -> (r: Self)
        ensures
            r == Tokenizer,
    {
        Tokenizer::new()
    }
}

proof fn lemma_utf8_not_shorter(text: Seq<char>)
    ensures
        encode_utf8(text).len() >= text.len(),
    decreases text.len(),
{
    if text.len() > 0 {
        lemma_utf8_not_shorter(text.drop_first());
        vstd::utf8::char_is_scalar(text[0]);
        assert(encode_scalar(text[0] as u32).len() >= 1);
    }
}

/// For ASCII text the estimate from the byte length is the estimate from the text.
pub proof fn ascii_estimates_agree(text: Seq<char>)
    requires
        is_ascii_chars(text),
    ensures
        quarter_up(encode_utf8(text).len()) == quarter_up(text.len()),
{
    is_ascii_chars_encode_utf8(text);
}

/// The estimate from the byte length is never below the estimate from the text.
pub proof fn byte_estimate_not_below(text: Seq<char>)
    ensures
        quarter_up(text.len()) <= quarter_up(encode_utf8(text).len()),
{
    lemma_utf8_not_shorter(text);
}

} // verus!
