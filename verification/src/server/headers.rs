//! The request headers the proxy logs, with credentials hidden.
use vstd::prelude::*;
use crate::text::{concat2, copy_str, eq_ignore_ascii_case, eq_ignore_ascii_case_str, join, join_strings};

verus! {

/// A header that carries credentials.
pub open spec fn sensitive_header(name: Seq<char>) -> bool {
    eq_ignore_ascii_case(name, "authorization"@) || eq_ignore_ascii_case(name, "proxy-authorization"@)
        || eq_ignore_ascii_case(name, "x-api-key"@) || eq_ignore_ascii_case(name, "api-key"@)
}

pub fn is_sensitive_header(name: &str) -> (r: bool)
    ensures
        r == sensitive_header(name@),
{
    eq_ignore_ascii_case_str(name, "authorization") || eq_ignore_ascii_case_str(
        name,
        "proxy-authorization",
    ) || eq_ignore_ascii_case_str(name, "x-api-key") || eq_ignore_ascii_case_str(name, "api-key")
}

/// How a header is logged: `name: value`, the value hidden when the header is sensitive
/// and replaced when it is not text (`None`).
pub open spec fn header_line(name: Seq<char>, value: Option<Seq<char>>) -> Seq<char> {
    name + ": "@ + if sensitive_header(name) {
        "<redacted>"@
    } else {
        match value {
            Some(v) => v,
            None => "<non-utf8>"@,
        }
    }
}

pub open spec fn header_lines(headers: Seq<(String, Option<String>)>) -> Seq<Seq<char>> {
    headers.map_values(
        |h: (String, Option<String>)|
            header_line(
                h.0@,
                match h.1 {
                    Some(v) => Some(v@),
                    None => None,
                },
            ),
    )
}

/// The headers of a request as one line: `name: value` pairs separated by commas.
pub fn redacted_request_headers(headers: &Vec<(String, Option<String>)>) -> (r: String)
    ensures
        r@ == join(header_lines(headers@), ", "@),
{
    let mut lines: Vec<String> = Vec::new();
    let mut i: usize = 0;
    while i < headers.len()
        invariant
            i <= headers@.len(),
            lines@.map_values(|l: String| l@) == header_lines(headers@.take(i as int)),
        decreases headers@.len() - i,
    {
        let (name, value) = &headers[i];
        let shown = if is_sensitive_header(name.as_str()) {
            copy_str("<redacted>")
        } else {
            match value {
                Some(v) => v.clone(),
                None => copy_str("<non-utf8>"),
            }
        };
        let a = concat2(name.as_str(), ": ");
        let line = concat2(a.as_str(), shown.as_str());
        let ghost before = lines@.map_values(|l: String| l@);
        let ghost vv = match value {
            Some(v) => Some(v@),
            None => None,
        };
        assert(line@ == header_line(name@, vv));
        assert(headers@[i as int].0 == *name && headers@[i as int].1 == *value);
        assert(header_lines(headers@.take(i + 1)) =~= header_lines(headers@.take(i as int)).push(
            header_line(name@, vv),
        ));
        lines.push(line);
        assert(lines@.map_values(|l: String| l@) =~= before.push(header_line(name@, vv)));
        i = i + 1;
    }
    assert(headers@.take(headers@.len() as int) =~= headers@);
    join_strings(&lines, ", ")
}

} // verus!
