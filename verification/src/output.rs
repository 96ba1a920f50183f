//! What the command line prints: stores, models, answers and their citations.
use vstd::prelude::*;
use crate::gemini::types::{FileSearchStore, GenerateContentResponse, Model, RetrievedContext};
use crate::server::citations::{context_at, locate_contexts, retrieved_contexts};
use crate::text::{concat2, copy_str, decimal, decimal_string, replace_char, replace_char_str};
use crate::util::{bare_model_name, strip_model_prefix};

verus! {

/// The answer text of a response, if it has any.
pub fn response_text(response: &GenerateContentResponse) -> (r: Option<String>)
    ensures
        match r {
            Some(t) => t@ == crate::gemini::types::response_text(*response) && t@.len() > 0,
            None => crate::gemini::types::response_text(*response).len() == 0,
        },
{
    response.text()
}

/// The line of a store: its name, then its display name after a tab when it has one.
pub open spec fn store_line_text(s: FileSearchStore) -> Seq<char> {
    match s.display_name {
        Some(d) => s.name@ + "\t"@ + d@,
        None => s.name@,
    }
}

pub fn store_line(store: &FileSearchStore) -> (r: String)
    ensures
        r@ == store_line_text(*store),
{
    match &store.display_name {
        Some(d) => {
            let a = concat2(store.name.as_str(), "\t");
            concat2(a.as_str(), d.as_str())
        },
        None => store.name.clone(),
    }
}

/// The line of a model: its name without `models/`, then its display name after a tab
/// when it has one.
pub open spec fn model_line_text(m: Model) -> Seq<char> {
    match m.display_name {
        Some(d) => bare_model_name(m.name@) + "\t"@ + d@,
        None => bare_model_name(m.name@),
    }
}

pub fn model_line(model: &Model) -> (r: String)
    ensures
        r@ == model_line_text(*model),
{
    let name = strip_model_prefix(model.name.as_str());
    match &model.display_name {
        Some(d) => {
            let a = concat2(name.as_str(), "\t");
            concat2(a.as_str(), d.as_str())
        },
        None => name,
    }
}

/// The label of a printed citation: its title, else its URI, else a fixed text.
pub open spec fn printed_citation_label(c: RetrievedContext) -> Seq<char> {
    match c.title {
        Some(t) => t@,
        None => match c.uri {
            Some(u) => u@,
            None => "retrieved context"@,
        },
    }
}

/// The lines printed for citation number `n`: its label, then its text on one line.
pub open spec fn printed_citation(n: nat, c: RetrievedContext) -> Seq<Seq<char>> {
    seq![decimal(n) + ". "@ + printed_citation_label(c)] + match c.text {
        Some(t) => seq!["   "@ + replace_char(t@, '\n', ' ')],
        None => Seq::empty(),
    }
}

/// The lines of the citations, numbered from 1.
pub open spec fn printed_citations(cs: Seq<RetrievedContext>) -> Seq<Seq<char>>
    decreases cs.len(),
{
    if cs.len() == 0 {
        Seq::empty()
    } else {
        printed_citations(cs.drop_last()) + printed_citation(cs.len(), cs.last())
    }
}

/// The lines printed after an answer for its citations: none when it cites nothing, else
/// a `Citations:` heading after an empty line and the numbered citations.
pub open spec fn citation_lines_text(r: GenerateContentResponse) -> Seq<Seq<char>> {
    let cs = retrieved_contexts(seq![r]);
    if cs.len() == 0 {
        Seq::empty()
    } else {
        seq!["\nCitations:"@] + printed_citations(cs)
    }
}

pub fn citation_lines(response: &GenerateContentResponse) -> (r: Vec<String>)
    ensures
        r@.map_values(|l: String| l@) == citation_lines_text(*response),
{
    let single = core::slice::from_ref(response);
    let locations = locate_contexts(single);
    let ghost cs = retrieved_contexts(single@);
    let mut out: Vec<String> = Vec::new();
    if locations.len() == 0 {
        assert(out@.map_values(|l: String| l@) =~= citation_lines_text(*response));
        return out;
    }
    out.push(copy_str("\nCitations:"));
    let mut i: usize = 0;
    while i < locations.len()
        invariant
            single@ == seq![*response],
            cs == retrieved_contexts(single@),
            locations@ == crate::server::citations::context_locations(single@),
            forall|q: int|
                0 <= q < locations@.len() ==> crate::server::citations::valid_location(
                    single@,
                    #[trigger] locations@[q],
                ),
            i <= locations@.len(),
            out@.map_values(|l: String| l@) == seq!["\nCitations:"@] + printed_citations(
                cs.take(i as int),
            ),
        decreases locations@.len() - i,
    {
        let c = context_at(single, locations[i]);
        proof {
            assert(cs.take(i + 1).drop_last() =~= cs.take(i as int));
            assert(cs[i as int] == *c);
        }
        let label = match &c.title {
            Some(t) => t.as_str(),
            None => match &c.uri {
                Some(u) => u.as_str(),
                None => "retrieved context",
            },
        };
        let ghost before = out@.map_values(|l: String| l@);
        let head = concat2(decimal_string((i + 1) as u128).as_str(), ". ");
        out.push(concat2(head.as_str(), label));
        match &c.text {
            Some(t) => {
                let line = replace_char_str(t.as_str(), '\n', ' ');
                out.push(concat2("   ", line.as_str()));
            },
            None => {},
        }
        assert(out@.map_values(|l: String| l@) =~= before + printed_citation((i + 1) as nat, *c));
        i = i + 1;
    }
    assert(cs.take(locations@.len() as int) =~= cs);
    out
}

/// Each of the numbered citations, the `k`-th counted from 0, appears among `cs`'s printed
/// lines with its number and label.
proof fn lemma_printed_citations_hold(cs: Seq<RetrievedContext>, k: int)
    requires
        0 <= k < cs.len(),
    ensures
        printed_citations(cs).contains(
            decimal((k + 1) as nat) + ". "@ + printed_citation_label(cs[k]),
        ),
    decreases cs.len(),
{
    let prefix = printed_citations(cs.drop_last());
    let last = printed_citation(cs.len(), cs.last());
    let want = decimal((k + 1) as nat) + ". "@ + printed_citation_label(cs[k]);
    assert(printed_citations(cs) == prefix + last);
    if k + 1 == cs.len() {
        assert((prefix + last)[prefix.len() as int] == want);
    } else {
        lemma_printed_citations_hold(cs.drop_last(), k);
        assert(cs.drop_last()[k] == cs[k]);
        let j = choose|j: int| 0 <= j < prefix.len() && prefix[j] == want;
        assert((prefix + last)[j] == want);
    }
}

/// Every citation of an answer is printed under its number, counted from 1, and labelled
/// by the cited context's title whenever it has one; its URI labels it only when the title
/// is absent, and a context with neither is labelled `retrieved context`.
pub proof fn lemma_citation_line_labels(r: GenerateContentResponse, k: int)
    requires
        0 <= k < retrieved_contexts(seq![r]).len(),
    ensures
        ({
            let c = retrieved_contexts(seq![r])[k];
            let lines = citation_lines_text(r);
            &&& c.title matches Some(t) ==> lines.contains(decimal((k + 1) as nat) + ". "@ + t@)
            &&& c.title is None ==> (c.uri matches Some(u) ==> lines.contains(
                decimal((k + 1) as nat) + ". "@ + u@,
            ))
            &&& (c.title is None && c.uri is None) ==> lines.contains(
                decimal((k + 1) as nat) + ". "@ + "retrieved context"@,
            )
        }),
{
    let cs = retrieved_contexts(seq![r]);
    let want = decimal((k + 1) as nat) + ". "@ + printed_citation_label(cs[k]);
    lemma_printed_citations_hold(cs, k);
    let body = printed_citations(cs);
    let j = choose|j: int| 0 <= j < body.len() && body[j] == want;
    let lines = seq!["\nCitations:"@] + body;
    assert(citation_lines_text(r) == lines);
    assert(lines[j + 1] == want);
}

} // verus!
