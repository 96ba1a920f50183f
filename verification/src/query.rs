//! Asking a question from the command line: the prompt, the system prompt and the model.
use vstd::prelude::*;
use crate::text::{concat2, copy_str, is_blank, is_blank_str, join, join_strings, trim, trim_str, str_eq};
use crate::util::{normalize_model_name, normalized_model_name};

verus! {

/// The prompt given as arguments, joined with spaces; none when there is no argument (the
/// prompt is then read from standard input).
pub fn prompt_from_args(args: &Vec<String>) -> (r: Option<String>)
    ensures
        match r {
            Some(p) => args@.len() > 0 && p@ == join(args@.map_values(|a: String| a@), " "@),
            None => args@.len() == 0,
        },
{
    if args.len() == 0 {
        None
    } else {
        Some(join_strings(args, " "))
    }
}

/// The prompt that is sent: the given text, trimmed. A blank prompt is refused.
pub fn checked_prompt(prompt: &str) -> (r: Result<String, String>)
    ensures
        match r {
            Ok(p) => !is_blank(prompt@) && p@ == trim(prompt@),
            Err(m) => is_blank(prompt@) && m@ == "query prompt is empty"@,
        },
{
    if is_blank_str(prompt) {
        Err(copy_str("query prompt is empty"))
    } else {
        Ok(trim_str(prompt))
    }
}

/// The system prompt file to read: none when no path, or an empty one, is given.
pub fn system_prompt_path(path: Option<&str>) -> (r: Option<String>)
    ensures
        match r {
            Some(p) => path is Some && path->0@.len() > 0 && p@ == path->0@,
            None => path is None || path->0@.len() == 0,
        },
{
    match path {
        Some(p) => if p.unicode_len() == 0 {
            None
        } else {
            Some(copy_str(p))
        },
        None => None,
    }
}

/// The system prompt read from a file: its contents, trimmed. A blank file is refused.
pub fn system_prompt_from_file(path: &str, contents: &str) -> (r: Result<String, String>)
    ensures
        match r {
            Ok(p) => !is_blank(contents@) && p@ == trim(contents@),
            Err(m) => is_blank(contents@) && m@ == "system prompt file is empty: "@ + path@,
        },
{
    if is_blank_str(contents) {
        Err(concat2("system prompt file is empty: ", path))
    } else {
        Ok(trim_str(contents))
    }
}

/// The note printed when the model named is an alias or has the `models/` prefix.
pub fn model_alias_notice(model: &str) -> (r: Option<String>)
    ensures
        match r {
            Some(n) => normalized_model_name(model@) != model@ && n@ == "Using model alias: "@
                + model@ + " -> "@ + normalized_model_name(model@),
            None => normalized_model_name(model@) == model@,
        },
{
    let normalized = normalize_model_name(model);
    if str_eq(normalized.as_str(), model) {
        None
    } else {
        let a = concat2("Using model alias: ", model);
        let b = concat2(a.as_str(), " -> ");
        Some(concat2(b.as_str(), normalized.as_str()))
    }
}

} // verus!
