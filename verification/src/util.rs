//! Small shared rules: model names, token estimates, optional text.
use vstd::prelude::*;
use crate::text::{copy_str, count_words, is_blank_str, str_eq, strip_prefix, strip_prefix_str, trim, trim_str, word_count, lemma_word_count_join};

verus! {

/// A model name without its `models/` prefix, with the `gemini-flash-3-preview` alias
/// replaced by `gemini-3-flash-preview`.
pub open spec fn normalized_model_name(model: Seq<char>) -> Seq<char> {
    let bare = match strip_prefix(model, "models/"@) {
        Some(rest) => rest,
        None => model,
    };
    if bare == "gemini-flash-3-preview"@ {
        "gemini-3-flash-preview"@
    } else {
        bare
    }
}

/// The model name as the Gemini API expects it (see `normalized_model_name`).
pub fn normalize_model_name(model: &str) -> (r: String)
    ensures
        r@ == normalized_model_name(model@),
{
    let bare = match strip_prefix_str(model, "models/") {
        Some(rest) => rest,
        None => copy_str(model),
    };
    if str_eq(bare.as_str(), "gemini-flash-3-preview") {
        copy_str("gemini-3-flash-preview")
    } else {
        bare
    }
}

/// A model name without its `models/` prefix.
pub open spec fn bare_model_name(model: Seq<char>) -> Seq<char> {
    match strip_prefix(model, "models/"@) {
        Some(rest) => rest,
        None => model,
    }
}

/// The model name without its `models/` prefix.
pub fn strip_model_prefix(model: &str) -> (r: String)
    ensures
        r@ == bare_model_name(model@),
{
    match strip_prefix_str(model, "models/") {
        Some(rest) => rest,
        None => copy_str(model),
    }
}

/// The token estimate of a text: its number of whitespace-separated words, at most `u32::MAX`.
pub open spec fn token_estimate_of(text: Seq<char>) -> u32 {
    if word_count(text) <= u32::MAX {
        word_count(text) as u32
    } else {
        u32::MAX
    }
}

/// The token estimate of two texts joined by a space is the sum of their estimates, as
/// long as that sum does not reach the `u32` limit (it saturates there).
pub proof fn lemma_token_estimate_join(a: Seq<char>, b: Seq<char>)
    ensures
        word_count(a) + word_count(b) <= u32::MAX ==> token_estimate_of(a + " "@ + b) as int
            == token_estimate_of(a) + token_estimate_of(b),
        word_count(a) + word_count(b) > u32::MAX ==> token_estimate_of(a + " "@ + b) == u32::MAX,
{
    lemma_word_count_join(a, b);
}

/// Estimates the tokens of a text by counting its words.
pub fn token_estimate(text: &str) -> (r: u32)
    ensures
        r == token_estimate_of(text@),
{
    let n = count_words(text);
    if n <= u32::MAX as usize {
        n as u32
    } else {
        u32::MAX
    }
}

/// The trimmed text when it is not empty.
pub open spec fn non_empty_text(value: Option<Seq<char>>) -> Option<Seq<char>> {
    match value {
        Some(v) => if trim(v).len() > 0 {
            Some(trim(v))
        } else {
            None
        },
        None => None,
    }
}

/// The trimmed value, unless it is absent or blank.
pub fn non_empty(value: Option<&str>) -> (r: Option<String>)
    ensures
        match r {
            Some(s) => non_empty_text(match value {
                Some(v) => Some(v@),
                None => None,
            }) == Some(s@),
            None => non_empty_text(match value {
                Some(v) => Some(v@),
                None => None,
            }) is None,
        },
{
    match value {
        Some(v) => {
            if is_blank_str(v) {
                None
            } else {
                Some(trim_str(v))
            }
        },
        None => None,
    }
}

} // verus!
