//! Grounding citations: where retrieved contexts sit in responses, their count,
//! their markdown rendering, and the file references built from them.
use vstd::prelude::*;
use crate::gemini::types::{custom_metadata_list_json, custom_metadata_json, metadata_value_text, RetrievedCustomMetadata, Candidate, GenerateContentResponse, GroundingChunk, RetrievedContext};
use crate::json::{json_opt_str, json_seq_view, lemma_json_seq_view_push, opt_str_json, push_entry, extra_string_of, extra_string, json_entries_view, opt_view, or_text, Json, JsonValue};
use crate::text::{decimal_string, signed_decimal, signed_decimal_string, copy_str, starts_with, starts_with_str, str_eq, to_ascii_lowercase, to_ascii_lowercase_str, chars_of, decimal, decimal_chars, extend_chars, extend_str, replace_char, replace_char_str, string_of, trim, trim_str};

verus! {

/// Where a retrieved context sits: response, candidate within it, and grounding chunk
/// within the candidate.
#[derive(Clone, Copy)]
pub struct ContextLocation {
    pub response: usize,
    pub candidate: usize,
    pub chunk: usize,
}

pub open spec fn loc(r: int, c: int, k: int) -> ContextLocation {
    ContextLocation { response: r as usize, candidate: c as usize, chunk: k as usize }
}

/// The locations of the retrieved contexts among the first `n` chunks.
pub open spec fn chunk_locations(r: int, c: int, chunks: Seq<GroundingChunk>, n: int) -> Seq<
    ContextLocation,
>
    decreases n,
{
    if n <= 0 {
        Seq::empty()
    } else {
        chunk_locations(r, c, chunks, n - 1) + if chunks[n - 1].retrieved_context is Some {
            seq![loc(r, c, n - 1)]
        } else {
            Seq::empty()
        }
    }
}

/// The locations of the retrieved contexts of one candidate.
pub open spec fn candidate_locations(r: int, c: int, cand: Candidate) -> Seq<ContextLocation> {
    match cand.grounding_metadata {
        Some(m) => chunk_locations(r, c, m.grounding_chunks@, m.grounding_chunks@.len() as int),
        None => Seq::empty(),
    }
}

/// The locations of the retrieved contexts among the first `n` candidates of response `r`.
pub open spec fn candidates_locations(r: int, cands: Seq<Candidate>, n: int) -> Seq<
    ContextLocation,
>
    decreases n,
{
    if n <= 0 {
        Seq::empty()
    } else {
        candidates_locations(r, cands, n - 1) + candidate_locations(r, n - 1, cands[n - 1])
    }
}

/// The number of candidates in the first `n` responses.
pub open spec fn candidate_total(rs: Seq<GenerateContentResponse>, n: int) -> int
    decreases n,
{
    if n <= 0 {
        0
    } else {
        candidate_total(rs, n - 1) + rs[n - 1].candidates@.len()
    }
}

/// The position of a candidate when the candidates of all responses are counted in order.
pub open spec fn candidate_ordinal(rs: Seq<GenerateContentResponse>, l: ContextLocation) -> int {
    candidate_total(rs, l.response as int) + l.candidate
}

/// The locations of the retrieved contexts in the first `n` responses.
pub open spec fn responses_locations(rs: Seq<GenerateContentResponse>, n: int) -> Seq<
    ContextLocation,
>
    decreases n,
{
    if n <= 0 {
        Seq::empty()
    } else {
        responses_locations(rs, n - 1) + candidates_locations(
            n - 1,
            rs[n - 1].candidates@,
            rs[n - 1].candidates@.len() as int,
        )
    }
}

/// The locations of all retrieved contexts, in document order.
pub open spec fn context_locations(rs: Seq<GenerateContentResponse>) -> Seq<ContextLocation> {
    responses_locations(rs, rs.len() as int)
}

/// A location that names an existing chunk with a retrieved context.
pub open spec fn valid_location(rs: Seq<GenerateContentResponse>, l: ContextLocation) -> bool {
    &&& l.response < rs.len()
    &&& l.candidate < rs[l.response as int].candidates@.len()
    &&& rs[l.response as int].candidates@[l.candidate as int].grounding_metadata is Some
    &&& l.chunk < rs[l.response as int].candidates@[l.candidate as int].grounding_metadata->0.grounding_chunks@.len()
    &&& location_chunk(rs, l).retrieved_context is Some
}

pub open spec fn location_chunk(rs: Seq<GenerateContentResponse>, l: ContextLocation) -> GroundingChunk {
    rs[l.response as int].candidates@[l.candidate as int].grounding_metadata->0.grounding_chunks@[l.chunk as int]
}

pub open spec fn location_context(rs: Seq<GenerateContentResponse>, l: ContextLocation) -> RetrievedContext {
    location_chunk(rs, l).retrieved_context->0
}

/// The retrieved contexts of all responses, in document order.
pub open spec fn retrieved_contexts(rs: Seq<GenerateContentResponse>) -> Seq<RetrievedContext> {
    context_locations(rs).map_values(|l: ContextLocation| location_context(rs, l))
}

/// The number of grounding chunks of a response that carry a retrieved context.
pub open spec fn response_citation_count(r: GenerateContentResponse) -> nat {
    context_locations(seq![r]).len()
}

/// The sum of the citation counts of the first `n` responses.
pub open spec fn citation_count_sum(rs: Seq<GenerateContentResponse>, n: int) -> nat
    decreases n,
{
    if n <= 0 {
        0
    } else {
        citation_count_sum(rs, n - 1) + response_citation_count(rs[n - 1])
    }
}

// ---------------------------------------------------------------------------
// Lemmas on locations
// ---------------------------------------------------------------------------

pub proof fn lemma_chunk_locations_len_indep(
    r1: int,
    c1: int,
    r2: int,
    c2: int,
    chunks: Seq<GroundingChunk>,
    n: int,
)
    ensures
        chunk_locations(r1, c1, chunks, n).len() == chunk_locations(r2, c2, chunks, n).len(),
    decreases n,
{
    if n > 0 {
        lemma_chunk_locations_len_indep(r1, c1, r2, c2, chunks, n - 1);
    }
}

pub proof fn lemma_candidates_locations_len_indep(r1: int, r2: int, cands: Seq<Candidate>, n: int)
    ensures
        candidates_locations(r1, cands, n).len() == candidates_locations(r2, cands, n).len(),
    decreases n,
{
    if n > 0 {
        lemma_candidates_locations_len_indep(r1, r2, cands, n - 1);
        match cands[n - 1].grounding_metadata {
            Some(m) => lemma_chunk_locations_len_indep(
                r1,
                n - 1,
                r2,
                n - 1,
                m.grounding_chunks@,
                m.grounding_chunks@.len() as int,
            ),
            None => {},
        }
    }
}

/// The citations of several responses number the sum of their citation counts.
pub proof fn lemma_citation_count_sum(rs: Seq<GenerateContentResponse>, n: int)
    requires
        0 <= n <= rs.len(),
    ensures
        citation_count_sum(rs, n) == responses_locations(rs, n).len(),
    decreases n,
{
    if n > 0 {
        lemma_citation_count_sum(rs, n - 1);
        let r = rs[n - 1];
        let one = seq![r];
        assert(responses_locations(one, 0) =~= Seq::empty());
        assert(responses_locations(one, 1) == responses_locations(one, 0) + candidates_locations(
            0,
            r.candidates@,
            r.candidates@.len() as int,
        ));
        lemma_candidates_locations_len_indep(0, n - 1, r.candidates@, r.candidates@.len() as int);
    }
}

} // verus!

verus! {

/// Appends the locations of the retrieved contexts of the candidates of response `ri`.
fn push_candidate_locations(out: &mut Vec<ContextLocation>, ri: usize, cands: &Vec<Candidate>)
    ensures
        final(out)@ == old(out)@ + candidates_locations(ri as int, cands@, cands@.len() as int),
        forall|q: int|
            old(out)@.len() <= q < final(out)@.len() ==> {
                let l = #[trigger] final(out)@[q];
                &&& l.response == ri
                &&& l.candidate < cands@.len()
                &&& cands@[l.candidate as int].grounding_metadata is Some
                &&& l.chunk < cands@[l.candidate as int].grounding_metadata->0.grounding_chunks@.len()
                &&& cands@[l.candidate as int].grounding_metadata->0.grounding_chunks@[l.chunk as int].retrieved_context is Some
            },
{
    let ghost base = old(out)@;
    let mut j: usize = 0;
    while j < cands.len()
        invariant
            j <= cands@.len(),
            base == old(out)@,
            out@ == base + candidates_locations(ri as int, cands@, j as int),
            forall|q: int|
                base.len() <= q < out@.len() ==> {
                    let l = #[trigger] out@[q];
                    &&& l.response == ri
                    &&& l.candidate < cands@.len()
                    &&& cands@[l.candidate as int].grounding_metadata is Some
                    &&& l.chunk < cands@[l.candidate as int].grounding_metadata->0.grounding_chunks@.len()
                    &&& cands@[l.candidate as int].grounding_metadata->0.grounding_chunks@[l.chunk as int].retrieved_context is Some
                },
        decreases cands@.len() - j,
    {
        let ghost base_j = out@;
        match &cands[j].grounding_metadata {
            Some(m) => {
                let mut k: usize = 0;
                while k < m.grounding_chunks.len()
                    invariant
                        j < cands@.len(),
                        base == old(out)@,
                        base_j.len() >= base.len(),
                        cands@[j as int].grounding_metadata == Some(*m),
                        k <= m.grounding_chunks@.len(),
                        out@ == base_j + chunk_locations(
                            ri as int,
                            j as int,
                            m.grounding_chunks@,
                            k as int,
                        ),
                        forall|q: int|
                            base.len() <= q < out@.len() ==> {
                                let l = #[trigger] out@[q];
                                &&& l.response == ri
                                &&& l.candidate < cands@.len()
                                &&& cands@[l.candidate as int].grounding_metadata is Some
                                &&& l.chunk < cands@[l.candidate as int].grounding_metadata->0.grounding_chunks@.len()
                                &&& cands@[l.candidate as int].grounding_metadata->0.grounding_chunks@[l.chunk as int].retrieved_context is Some
                            },
                    decreases m.grounding_chunks@.len() - k,
                {
                    if m.grounding_chunks[k].retrieved_context.is_some() {
                        let l = ContextLocation { response: ri, candidate: j, chunk: k };
                        out.push(l);
                    }
                    k = k + 1;
                }
            },
            None => {},
        }
        assert(out@ == base + candidates_locations(ri as int, cands@, j + 1));
        j = j + 1;
    }
}

/// The locations of all retrieved contexts, in document order.
pub fn locate_contexts(rs: &[GenerateContentResponse]) -> (r: Vec<ContextLocation>)
    ensures
        r@ == context_locations(rs@),
        forall|q: int| 0 <= q < r@.len() ==> valid_location(rs@, #[trigger] r@[q]),
{
    let mut out: Vec<ContextLocation> = Vec::new();
    let mut i: usize = 0;
    while i < rs.len()
        invariant
            i <= rs@.len(),
            out@ == responses_locations(rs@, i as int),
            forall|q: int| 0 <= q < out@.len() ==> valid_location(rs@, #[trigger] out@[q]),
        decreases rs@.len() - i,
    {
        push_candidate_locations(&mut out, i, &rs[i].candidates);
        i = i + 1;
    }
    out
}

/// The number of grounding chunks of the response that carry a retrieved context.
pub fn citation_count(response: &GenerateContentResponse) -> (r: usize)
    ensures
        r == response_citation_count(*response),
{
    let mut out: Vec<ContextLocation> = Vec::new();
    push_candidate_locations(&mut out, 0, &response.candidates);
    proof {
        let one = seq![*response];
        assert(responses_locations(one, 0) =~= Seq::<ContextLocation>::empty());
        assert(out@ =~= responses_locations(one, 1));
    }
    out.len()
}

/// The total number of citations over several responses.
pub fn citation_count_from_responses(responses: &[GenerateContentResponse]) -> (r: usize)
    ensures
        r == citation_count_sum(responses@, responses@.len() as int),
        r == retrieved_contexts(responses@).len(),
{
    let locations = locate_contexts(responses);
    proof {
        lemma_citation_count_sum(responses@, responses@.len() as int);
    }
    locations.len()
}

/// The retrieved context at a valid location.
pub fn context_at<'a>(rs: &'a [GenerateContentResponse], l: ContextLocation) -> (r: &'a RetrievedContext)
    requires
        valid_location(rs@, l),
    ensures
        *r == location_context(rs@, l),
{
    rs[l.response].candidates[l.candidate].grounding_metadata.as_ref().unwrap().grounding_chunks[l.chunk].retrieved_context.as_ref().unwrap()
}

/// The grounding chunk at a valid location.
pub fn chunk_at<'a>(rs: &'a [GenerateContentResponse], l: ContextLocation) -> (r: &'a GroundingChunk)
    requires
        valid_location(rs@, l),
    ensures
        *r == location_chunk(rs@, l),
{
    &rs[l.response].candidates[l.candidate].grounding_metadata.as_ref().unwrap().grounding_chunks[l.chunk]
}

} // verus!

verus! {

/// The label of a citation: its title, else its URI, else its store, else a fixed text.
pub open spec fn citation_label(c: RetrievedContext) -> Seq<char> {
    match c.title {
        Some(t) => t@,
        None => match c.uri {
            Some(u) => u@,
            None => match c.file_search_store {
                Some(s) => s@,
                None => "retrieved context"@,
            },
        },
    }
}

/// The heading line of citation number `n`: a link when the context has a URI.
pub open spec fn citation_heading(n: nat, c: RetrievedContext) -> Seq<char> {
    match c.uri {
        Some(u) => "\n"@ + decimal(n) + ". ["@ + citation_label(c) + "]("@ + u@ + ")"@,
        None => "\n"@ + decimal(n) + ". **"@ + citation_label(c) + "**"@,
    }
}

/// The quoted snippet of a citation: its trimmed text on one line, if not empty.
pub open spec fn citation_snippet(c: RetrievedContext) -> Seq<char> {
    match c.text {
        Some(t) => if trim(t@).len() > 0 {
            "\n   > "@ + replace_char(trim(t@), '\n', ' ')
        } else {
            Seq::empty()
        },
        None => Seq::empty(),
    }
}

pub open spec fn citation_entry(n: nat, c: RetrievedContext) -> Seq<char> {
    citation_heading(n, c) + citation_snippet(c) + "\n"@
}

/// The entries of the citations, numbered from 1.
pub open spec fn citation_entries(cs: Seq<RetrievedContext>) -> Seq<char>
    decreases cs.len(),
{
    if cs.len() == 0 {
        Seq::empty()
    } else {
        citation_entries(cs.drop_last()) + citation_entry(cs.len(), cs.last())
    }
}

/// The markdown citation section of some responses: empty when they cite nothing.
pub open spec fn markdown_citations_text(rs: Seq<GenerateContentResponse>) -> Seq<char> {
    let cs = retrieved_contexts(rs);
    if cs.len() == 0 {
        Seq::empty()
    } else {
        "\n\n## Citations\n"@ + citation_entries(cs)
    }
}

/// Every retrieved context of the responses is cited once: the contexts are as many as
/// their locations, and the markdown citation section is empty exactly when there is none.
pub proof fn lemma_citations_cover_contexts(rs: Seq<GenerateContentResponse>)
    ensures
        retrieved_contexts(rs).len() == context_locations(rs).len(),
        markdown_citations_text(rs).len() == 0 <==> context_locations(rs).len() == 0,
{
    reveal_strlit("\n\n## Citations\n");
}

fn citation_label_of(c: &RetrievedContext) -> (r: &str)
    ensures
        r@ == citation_label(*c),
{
    match &c.title {
        Some(t) => t.as_str(),
        None => match &c.uri {
            Some(u) => u.as_str(),
            None => match &c.file_search_store {
                Some(s) => s.as_str(),
                None => "retrieved context",
            },
        },
    }
}

/// Appends the entry of citation number `n`.
fn push_citation_entry(out: &mut Vec<char>, n: usize, c: &RetrievedContext)
    ensures
        final(out)@ == old(out)@ + citation_entry(n as nat, *c),
{
    let label = citation_label_of(c);
    let number = decimal_chars(n as u128);
    extend_str(out, "\n");
    extend_chars(out, number.as_slice());
    match &c.uri {
        Some(u) => {
            extend_str(out, ". [");
            extend_str(out, label);
            extend_str(out, "](");
            extend_str(out, u.as_str());
            extend_str(out, ")");
        },
        None => {
            extend_str(out, ". **");
            extend_str(out, label);
            extend_str(out, "**");
        },
    }
    let ghost after_heading = out@;
    assert(after_heading =~= old(out)@ + citation_heading(n as nat, *c));
    match &c.text {
        Some(t) => {
            let trimmed = trim_str(t.as_str());
            if chars_of(trimmed.as_str()).len() > 0 {
                let line = replace_char_str(trimmed.as_str(), '\n', ' ');
                extend_str(out, "\n   > ");
                extend_str(out, line.as_str());
            }
        },
        None => {},
    }
    assert(out@ =~= old(out)@ + citation_heading(n as nat, *c) + citation_snippet(*c));
    extend_str(out, "\n");
    assert(out@ =~= old(out)@ + citation_entry(n as nat, *c));
}

/// The markdown citation section of the responses: a `## Citations` heading followed by
/// one numbered entry per retrieved context, or the empty string when there is none.
pub fn markdown_citations(responses: &[GenerateContentResponse]) -> (r: String)
    ensures
        r@ == markdown_citations_text(responses@),
{
    let locations = locate_contexts(responses);
    let ghost cs = retrieved_contexts(responses@);
    if locations.len() == 0 {
        return String::new();
    }
    let mut out: Vec<char> = Vec::new();
    extend_str(&mut out, "\n\n## Citations\n");
    let mut q: usize = 0;
    while q < locations.len()
        invariant
            q <= locations@.len(),
            locations@ == context_locations(responses@),
            cs == retrieved_contexts(responses@),
            forall|p: int|
                0 <= p < locations@.len() ==> valid_location(responses@, #[trigger] locations@[p]),
            out@ == "\n\n## Citations\n"@ + citation_entries(cs.take(q as int)),
        decreases locations@.len() - q,
    {
        let c = context_at(responses, locations[q]);
        proof {
            assert(cs.take(q + 1).drop_last() =~= cs.take(q as int));
            assert(cs.take(q + 1).last() == cs[q as int]);
        }
        push_citation_entry(&mut out, q + 1, c);
        q = q + 1;
    }
    assert(cs.take(locations@.len() as int) =~= cs);
    string_of(out.as_slice())
}

/// The text followed by the markdown citations of the responses.
pub fn with_markdown_citations(text: String, responses: &[GenerateContentResponse]) -> (r: String)
    ensures
        r@ == text@ + markdown_citations_text(responses@),
{
    let citations = markdown_citations(responses);
    let mut text = text;
    text.append(citations.as_str());
    text
}

} // verus!

verus! {

pub open spec fn is_segment_separator(c: char) -> bool {
    c == '.' || c == '?' || c == '#'
}

/// The trailing run of `s` that holds no separator.
pub open spec fn trailing_segment(s: Seq<char>) -> Seq<char>
    decreases s.len(),
{
    if s.len() == 0 || is_segment_separator(s.last()) {
        Seq::empty()
    } else {
        trailing_segment(s.drop_last()).push(s.last())
    }
}

/// The last non-empty piece of `s` split at `.`, `?` and `#`.
pub open spec fn last_segment(s: Seq<char>) -> Option<Seq<char>>
    decreases s.len(),
{
    if s.len() == 0 {
        None
    } else if is_segment_separator(s.last()) {
        last_segment(s.drop_last())
    } else {
        Some(trailing_segment(s))
    }
}

/// The image media type of a (lower-case) file extension.
pub open spec fn image_mime_for_extension(ext: Seq<char>) -> Option<Seq<char>> {
    if ext == "apng"@ {
        Some("image/apng"@)
    } else if ext == "avif"@ {
        Some("image/avif"@)
    } else if ext == "bmp"@ {
        Some("image/bmp"@)
    } else if ext == "gif"@ {
        Some("image/gif"@)
    } else if ext == "jpg"@ || ext == "jpeg"@ {
        Some("image/jpeg"@)
    } else if ext == "png"@ {
        Some("image/png"@)
    } else if ext == "svg"@ {
        Some("image/svg+xml"@)
    } else if ext == "webp"@ {
        Some("image/webp"@)
    } else {
        None
    }
}

/// The image media type that a path's extension names, if any.
pub open spec fn inferred_mime_type(path: Option<Seq<char>>) -> Option<Seq<char>> {
    match path {
        Some(p) => match last_segment(p) {
            Some(ext) => image_mime_for_extension(to_ascii_lowercase(ext)),
            None => None,
        },
        None => None,
    }
}

/// A reference is an image when its media type starts with `image/` or its path or title
/// has an image extension.
pub open spec fn image_reference(
    mime_type: Option<Seq<char>>,
    source_path: Option<Seq<char>>,
    title: Option<Seq<char>>,
) -> bool {
    ||| (mime_type is Some && starts_with(mime_type->0, "image/"@))
    ||| inferred_mime_type(source_path) is Some
    ||| inferred_mime_type(title) is Some
}

fn image_mime_of_extension(ext: &str) -> (r: Option<String>)
    ensures
        opt_view(r) == image_mime_for_extension(ext@),
{
    if str_eq(ext, "apng") {
        Some(copy_str("image/apng"))
    } else if str_eq(ext, "avif") {
        Some(copy_str("image/avif"))
    } else if str_eq(ext, "bmp") {
        Some(copy_str("image/bmp"))
    } else if str_eq(ext, "gif") {
        Some(copy_str("image/gif"))
    } else if str_eq(ext, "jpg") || str_eq(ext, "jpeg") {
        Some(copy_str("image/jpeg"))
    } else if str_eq(ext, "png") {
        Some(copy_str("image/png"))
    } else if str_eq(ext, "svg") {
        Some(copy_str("image/svg+xml"))
    } else if str_eq(ext, "webp") {
        Some(copy_str("image/webp"))
    } else {
        None
    }
}

proof fn lemma_last_segment_at(s: Seq<char>, j: int)
    requires
        0 <= j <= s.len(),
        forall|k: int| j <= k < s.len() ==> is_segment_separator(#[trigger] s[k]),
    ensures
        last_segment(s) == last_segment(s.take(j)),
    decreases s.len() - j,
{
    if j < s.len() {
        assert(s.drop_last().take(j) =~= s.take(j));
        lemma_last_segment_at(s.drop_last(), j);
    } else {
        assert(s.take(j) =~= s);
    }
}

proof fn lemma_trailing_segment_from(s: Seq<char>, i: int)
    requires
        0 <= i <= s.len(),
        forall|k: int| i <= k < s.len() ==> !is_segment_separator(#[trigger] s[k]),
        i == 0 || is_segment_separator(s[i - 1]),
    ensures
        trailing_segment(s) == s.skip(i),
    decreases s.len() - i,
{
    if i < s.len() {
        assert(s.drop_last().skip(i) =~= s.skip(i).drop_last());
        lemma_trailing_segment_from(s.drop_last(), i);
        assert(s.skip(i) =~= s.skip(i).drop_last().push(s.last()));
    } else if s.len() > 0 {
        assert(s.skip(i) =~= Seq::<char>::empty());
    }
}

/// The image media type that a path's extension names, if any.
pub fn infer_mime_type(path: Option<&str>) -> (r: Option<String>)
    ensures
        opt_view(r) == inferred_mime_type(match path {
            Some(p) => Some(p@),
            None => None,
        }),
{
    let p = match path {
        Some(p) => p,
        None => return None,
    };
    let cs = chars_of(p);
    let mut j = cs.len();
    while j > 0 && (cs[j - 1] == '.' || cs[j - 1] == '?' || cs[j - 1] == '#')
        invariant
            j <= cs@.len(),
            cs@ == p@,
            forall|k: int| j <= k < cs@.len() ==> is_segment_separator(#[trigger] cs@[k]),
        decreases j,
    {
        j = j - 1;
    }
    proof {
        lemma_last_segment_at(p@, j as int);
    }
    if j == 0 {
        return None;
    }
    let mut i = j;
    while i > 0 && !(cs[i - 1] == '.' || cs[i - 1] == '?' || cs[i - 1] == '#')
        invariant
            i <= j <= cs@.len(),
            cs@ == p@,
            forall|k: int| i <= k < j ==> !is_segment_separator(#[trigger] cs@[k]),
        decreases i,
    {
        i = i - 1;
    }
    let mut seg: Vec<char> = Vec::new();
    let mut k = i;
    while k < j
        invariant
            i <= k <= j <= cs@.len(),
            seg@ == cs@.subrange(i as int, k as int),
        decreases j - k,
    {
        seg.push(cs[k]);
        k = k + 1;
        assert(seg@ =~= cs@.subrange(i as int, k as int));
    }
    proof {
        let t = p@.take(j as int);
        assert(!is_segment_separator(t.last()));
        assert forall|m: int| i <= m < t.len() implies !is_segment_separator(#[trigger] t[m]) by {
            assert(t[m] == cs@[m]);
        }
        if i > 0 {
            assert(t[i - 1] == cs@[i - 1]);
        }
        lemma_trailing_segment_from(t, i as int);
        assert(t.skip(i as int) =~= seg@);
    }
    let ext = to_ascii_lowercase_str(string_of(seg.as_slice()).as_str());
    image_mime_of_extension(ext.as_str())
}

/// Whether a reference designates an image.
pub fn is_image_reference(
    mime_type: Option<&str>,
    source_path: Option<&str>,
    title: Option<&str>,
) -> (r: bool)
    ensures
        r == image_reference(
            match mime_type {
                Some(m) => Some(m@),
                None => None,
            },
            match source_path {
                Some(p) => Some(p@),
                None => None,
            },
            match title {
                Some(t) => Some(t@),
                None => None,
            },
        ),
{
    let by_type = match mime_type {
        Some(m) => starts_with_str(m, "image/"),
        None => false,
    };
    by_type || infer_mime_type(source_path).is_some() || infer_mime_type(title).is_some()
}

} // verus!

verus! {

/// The text of the first custom metadata entry at or after `i` with this key.
pub open spec fn first_metadata_text(ms: Seq<RetrievedCustomMetadata>, key: Seq<char>, i: int) -> Option<
    Seq<char>,
>
    decreases ms.len() - i,
{
    if i < 0 || i >= ms.len() {
        None
    } else if ms[i].key@ == key {
        metadata_value_text(ms[i])
    } else {
        first_metadata_text(ms, key, i + 1)
    }
}

/// The text of the context's first custom metadata entry with this key.
pub open spec fn custom_metadata_string(c: RetrievedContext, key: Seq<char>) -> Option<Seq<char>> {
    first_metadata_text(c.custom_metadata@, key, 0)
}

/// The source path of a reference: from custom metadata, else from unknown members of the
/// context, else of the chunk (under `source_path` or `sourcePath`), else the URI.
pub open spec fn reference_source_path(ch: GroundingChunk, c: RetrievedContext) -> Option<Seq<char>> {
    let ce = json_entries_view(c.extra@);
    let he = json_entries_view(ch.extra@);
    or_text(
        custom_metadata_string(c, "source_path"@),
        or_text(
            custom_metadata_string(c, "sourcePath"@),
            or_text(
                extra_string(ce, "source_path"@),
                or_text(
                    extra_string(ce, "sourcePath"@),
                    or_text(
                        extra_string(he, "source_path"@),
                        or_text(extra_string(he, "sourcePath"@), opt_view(c.uri)),
                    ),
                ),
            ),
        ),
    )
}

/// The media type of a reference: from custom metadata, else from unknown members of the
/// context, else of the chunk (under `mime_type` or `mimeType`), else inferred from the
/// source path, else from the title.
pub open spec fn reference_mime_type(ch: GroundingChunk, c: RetrievedContext) -> Option<Seq<char>> {
    let ce = json_entries_view(c.extra@);
    let he = json_entries_view(ch.extra@);
    or_text(
        custom_metadata_string(c, "mime_type"@),
        or_text(
            custom_metadata_string(c, "mimeType"@),
            or_text(
                extra_string(ce, "mime_type"@),
                or_text(
                    extra_string(ce, "mimeType"@),
                    or_text(
                        extra_string(he, "mime_type"@),
                        or_text(
                            extra_string(he, "mimeType"@),
                            or_text(
                                inferred_mime_type(reference_source_path(ch, c)),
                                inferred_mime_type(opt_view(c.title)),
                            ),
                        ),
                    ),
                ),
            ),
        ),
    )
}

/// A file that grounded an answer.
pub struct FileReference {
    /// Position of the candidate when the candidates of all responses are counted in order.
    pub candidate_index: u128,
    /// Position of the chunk among the candidate's grounding chunks.
    pub chunk_index: usize,
    pub title: Option<String>,
    pub uri: Option<String>,
    pub source_path: Option<String>,
    pub mime_type: Option<String>,
    pub file_search_store: Option<String>,
    pub page_number: Option<i32>,
    pub media_id: Option<String>,
    /// The context's custom metadata entries, as a JSON array.
    pub custom_metadata: JsonValue,
    pub is_image: bool,
    pub text: Option<String>,
}

/// `f` is the reference to the retrieved context at location `l` of `rs`.
pub open spec fn reference_describes(
    f: FileReference,
    rs: Seq<GenerateContentResponse>,
    l: ContextLocation,
) -> bool {
    let ch = location_chunk(rs, l);
    let c = location_context(rs, l);
    &&& f.candidate_index == candidate_ordinal(rs, l)
    &&& f.chunk_index == l.chunk
    &&& opt_view(f.title) == opt_view(c.title)
    &&& opt_view(f.uri) == opt_view(c.uri)
    &&& opt_view(f.source_path) == reference_source_path(ch, c)
    &&& opt_view(f.mime_type) == reference_mime_type(ch, c)
    &&& opt_view(f.file_search_store) == opt_view(c.file_search_store)
    &&& f.page_number == c.page_number
    &&& opt_view(f.media_id) == opt_view(c.media_id)
    &&& f.custom_metadata@ == Json::Array(
        c.custom_metadata@.map_values(|m: RetrievedCustomMetadata| custom_metadata_json(m)),
    )
    &&& f.is_image == image_reference(
        reference_mime_type(ch, c),
        reference_source_path(ch, c),
        opt_view(c.title),
    )
    &&& opt_view(f.text) == opt_view(c.text)
}

pub proof fn lemma_candidate_total_bound(rs: Seq<GenerateContentResponse>, n: int)
    requires
        0 <= n <= rs.len(),
    ensures
        0 <= candidate_total(rs, n) <= n * (usize::MAX as int),
    decreases n,
{
    if n > 0 {
        lemma_candidate_total_bound(rs, n - 1);
        assert(rs[n - 1].candidates@.len() == rs[n - 1].candidates.len());
        assert((n - 1) * (usize::MAX as int) + (usize::MAX as int) == n * (usize::MAX as int))
            by (nonlinear_arith);
    }
}

/// The text of the context's first custom metadata entry with this key.
pub fn custom_metadata_string_of(c: &RetrievedContext, key: &str) -> (r: Option<String>)
    ensures
        opt_view(r) == custom_metadata_string(*c, key@),
{
    let mut i: usize = 0;
    while i < c.custom_metadata.len()
        invariant
            i <= c.custom_metadata@.len(),
            first_metadata_text(c.custom_metadata@, key@, 0) == first_metadata_text(
                c.custom_metadata@,
                key@,
                i as int,
            ),
        decreases c.custom_metadata@.len() - i,
    {
        if str_eq(c.custom_metadata[i].key.as_str(), key) {
            return c.custom_metadata[i].value_text();
        }
        i = i + 1;
    }
    None
}

} // verus!

verus! {

/// The source path of the reference to context `c` in chunk `ch`.
pub fn reference_source_path_of(ch: &GroundingChunk, c: &RetrievedContext) -> (r: Option<String>)
    ensures
        opt_view(r) == reference_source_path(*ch, *c),
{
    if let Some(s) = custom_metadata_string_of(c, "source_path") {
        return Some(s);
    }
    if let Some(s) = custom_metadata_string_of(c, "sourcePath") {
        return Some(s);
    }
    if let Some(s) = extra_string_of(&c.extra, "source_path") {
        return Some(s);
    }
    if let Some(s) = extra_string_of(&c.extra, "sourcePath") {
        return Some(s);
    }
    if let Some(s) = extra_string_of(&ch.extra, "source_path") {
        return Some(s);
    }
    if let Some(s) = extra_string_of(&ch.extra, "sourcePath") {
        return Some(s);
    }
    match &c.uri {
        Some(u) => Some(u.clone()),
        None => None,
    }
}

/// The media type of the reference to context `c` in chunk `ch`, given its source path.
pub fn reference_mime_type_of(
    ch: &GroundingChunk,
    c: &RetrievedContext,
    source_path: &Option<String>,
) -> (r: Option<String>)
    requires
        opt_view(*source_path) == reference_source_path(*ch, *c),
    ensures
        opt_view(r) == reference_mime_type(*ch, *c),
{
    if let Some(s) = custom_metadata_string_of(c, "mime_type") {
        return Some(s);
    }
    if let Some(s) = custom_metadata_string_of(c, "mimeType") {
        return Some(s);
    }
    if let Some(s) = extra_string_of(&c.extra, "mime_type") {
        return Some(s);
    }
    if let Some(s) = extra_string_of(&c.extra, "mimeType") {
        return Some(s);
    }
    if let Some(s) = extra_string_of(&ch.extra, "mime_type") {
        return Some(s);
    }
    if let Some(s) = extra_string_of(&ch.extra, "mimeType") {
        return Some(s);
    }
    let from_path = match source_path {
        Some(p) => infer_mime_type(Some(p.as_str())),
        None => infer_mime_type(None),
    };
    if from_path.is_some() {
        return from_path;
    }
    match &c.title {
        Some(t) => infer_mime_type(Some(t.as_str())),
        None => infer_mime_type(None),
    }
}

fn opt_as_str(o: &Option<String>) -> (r: Option<&str>)
    ensures
        match r {
            Some(s) => opt_view(*o) == Some(s@),
            None => o is None,
        },
{
    match o {
        Some(s) => Some(s.as_str()),
        None => None,
    }
}

fn clone_opt(o: &Option<String>) -> (r: Option<String>)
    ensures
        r == *o,
{
    match o {
        Some(s) => Some(s.clone()),
        None => None,
    }
}

/// The file references of the responses: one per retrieved context, in document order.
pub fn file_references(responses: &[GenerateContentResponse]) -> (r: Vec<FileReference>)
    ensures
        r@.len() == context_locations(responses@).len(),
        forall|q: int|
            0 <= q < r@.len() ==> reference_describes(
                #[trigger] r@[q],
                responses@,
                context_locations(responses@)[q],
            ),
{
    let locations = locate_contexts(responses);
    let ghost rs = responses@;
    // Candidates before each response.
    let mut totals: Vec<u128> = Vec::new();
    let mut running: u128 = 0;
    let mut i: usize = 0;
    proof {
        lemma_candidate_total_bound(rs, rs.len() as int);
    }
    while i < responses.len()
        invariant
            i <= rs.len(),
            rs == responses@,
            totals@.len() == i,
            running == candidate_total(rs, i as int),
            forall|k: int| 0 <= k < i ==> totals@[k] == candidate_total(rs, k),
        decreases rs.len() - i,
    {
        proof {
            lemma_candidate_total_bound(rs, i + 1);
            assert((i + 1) * (usize::MAX as int) <= (usize::MAX as int) * (usize::MAX as int))
                by (nonlinear_arith)
                requires
                    i + 1 <= usize::MAX,
            ;
            assert((usize::MAX as int) * (usize::MAX as int) < u128::MAX) by (nonlinear_arith)
                requires
                    usize::MAX <= 0xffff_ffff_ffff_ffff,
            ;
        }
        totals.push(running);
        running = running + responses[i].candidates.len() as u128;
        i = i + 1;
    }
    let mut out: Vec<FileReference> = Vec::new();
    let mut q: usize = 0;
    let n_responses = responses.len();
    while q < locations.len()
        invariant
            q <= locations@.len(),
            rs == responses@,
            rs.len() == n_responses,
            locations@ == context_locations(rs),
            forall|p: int| 0 <= p < locations@.len() ==> valid_location(rs, #[trigger] locations@[p]),
            totals@.len() == rs.len(),
            forall|k: int| 0 <= k < rs.len() ==> totals@[k] == candidate_total(rs, k),
            out@.len() == q,
            forall|p: int|
                0 <= p < q ==> reference_describes(#[trigger] out@[p], rs, locations@[p]),
        decreases locations@.len() - q,
    {
        let l = locations[q];
        let ch = chunk_at(responses, l);
        let c = context_at(responses, l);
        proof {
            lemma_candidate_total_bound(rs, rs.len() as int);
            lemma_candidate_total_bound(rs, l.response + 1);
            assert(candidate_total(rs, l.response + 1) == candidate_total(rs, l.response as int)
                + rs[l.response as int].candidates@.len());
            assert((l.response + 1) * (usize::MAX as int) <= (usize::MAX as int) * (usize::MAX as int))
                by (nonlinear_arith)
                requires
                    l.response + 1 <= usize::MAX,
            ;
            assert((usize::MAX as int) * (usize::MAX as int) < u128::MAX) by (nonlinear_arith)
                requires
                    usize::MAX <= 0xffff_ffff_ffff_ffff,
            ;
        }
        let source_path = reference_source_path_of(ch, c);
        let mime_type = reference_mime_type_of(ch, c, &source_path);
        let is_image = is_image_reference(
            opt_as_str(&mime_type),
            opt_as_str(&source_path),
            opt_as_str(&c.title),
        );
        let f = FileReference {
            candidate_index: totals[l.response] + l.candidate as u128,
            chunk_index: l.chunk,
            title: clone_opt(&c.title),
            uri: clone_opt(&c.uri),
            source_path,
            mime_type,
            file_search_store: clone_opt(&c.file_search_store),
            page_number: c.page_number,
            media_id: clone_opt(&c.media_id),
            custom_metadata: custom_metadata_list_json(&c.custom_metadata),
            is_image,
            text: clone_opt(&c.text),
        };
        out.push(f);
        q = q + 1;
    }
    out
}

} // verus!

verus! {

/// The JSON document of a file reference.
pub open spec fn file_reference_json(f: FileReference) -> Json {
    Json::Object(
        seq![
            ("candidate_index"@, Json::Number(decimal(f.candidate_index as nat))),
            ("chunk_index"@, Json::Number(decimal(f.chunk_index as nat))),
            ("title"@, opt_str_json(f.title)),
            ("uri"@, opt_str_json(f.uri)),
            ("source_path"@, opt_str_json(f.source_path)),
            ("mime_type"@, opt_str_json(f.mime_type)),
            ("file_search_store"@, opt_str_json(f.file_search_store)),
            ("page_number"@, match f.page_number {
                Some(n) => Json::Number(signed_decimal(n as int)),
                None => Json::Null,
            }),
            ("media_id"@, opt_str_json(f.media_id)),
            ("custom_metadata"@, f.custom_metadata@),
            ("is_image"@, Json::Bool(f.is_image)),
            ("text"@, opt_str_json(f.text)),
        ],
    )
}

impl FileReference {
    /// The JSON document of the reference.
    pub fn to_json(&self) -> (r: JsonValue)
        ensures
            r@ == file_reference_json(*self),
    {
        let mut es: Vec<(String, JsonValue)> = Vec::new();
        push_entry(&mut es, "candidate_index", JsonValue::Number(decimal_string(self.candidate_index)));
        push_entry(&mut es, "chunk_index", JsonValue::Number(decimal_string(self.chunk_index as u128)));
        push_entry(&mut es, "title", json_opt_str(&self.title));
        push_entry(&mut es, "uri", json_opt_str(&self.uri));
        push_entry(&mut es, "source_path", json_opt_str(&self.source_path));
        push_entry(&mut es, "mime_type", json_opt_str(&self.mime_type));
        push_entry(&mut es, "file_search_store", json_opt_str(&self.file_search_store));
        let page = match self.page_number {
            Some(n) => JsonValue::Number(signed_decimal_string(n as i64)),
            None => JsonValue::Null,
        };
        let ghost page_view = page@;
        assert(page_view == match self.page_number {
            Some(n) => Json::Number(signed_decimal(n as int)),
            None => Json::Null,
        });
        push_entry(&mut es, "page_number", page);
        push_entry(&mut es, "media_id", json_opt_str(&self.media_id));
        push_entry(&mut es, "custom_metadata", self.custom_metadata.deep_clone());
        push_entry(&mut es, "is_image", JsonValue::Bool(self.is_image));
        push_entry(&mut es, "text", json_opt_str(&self.text));
        let ghost entries = json_entries_view(es@);
        assert(entries =~= seq![
            ("candidate_index"@, Json::Number(decimal(self.candidate_index as nat))),
            ("chunk_index"@, Json::Number(decimal(self.chunk_index as nat))),
            ("title"@, opt_str_json(self.title)),
            ("uri"@, opt_str_json(self.uri)),
            ("source_path"@, opt_str_json(self.source_path)),
            ("mime_type"@, opt_str_json(self.mime_type)),
            ("file_search_store"@, opt_str_json(self.file_search_store)),
            ("page_number"@, match self.page_number {
                Some(n) => Json::Number(signed_decimal(n as int)),
                None => Json::Null,
            }),
            ("media_id"@, opt_str_json(self.media_id)),
            ("custom_metadata"@, self.custom_metadata@),
            ("is_image"@, Json::Bool(self.is_image)),
            ("text"@, opt_str_json(self.text)),
        ]);
        let r = JsonValue::Object(es);
        assert(r@ == Json::Object(entries));
        r
    }
}

/// The JSON array of some file references.
pub fn references_json(refs: &Vec<FileReference>) -> (r: JsonValue)
    ensures
        r@ == Json::Array(refs@.map_values(|f: FileReference| file_reference_json(f))),
{
    let mut out: Vec<JsonValue> = Vec::new();
    let mut i: usize = 0;
    while i < refs.len()
        invariant
            i <= refs@.len(),
            json_seq_view(out@) == refs@.take(i as int).map_values(
                |f: FileReference| file_reference_json(f),
            ),
        decreases refs@.len() - i,
    {
        let x = refs[i].to_json();
        proof {
            lemma_json_seq_view_push(out@, x);
            assert(refs@.take(i + 1).map_values(|f: FileReference| file_reference_json(f))
                =~= refs@.take(i as int).map_values(|f: FileReference| file_reference_json(f)).push(
                file_reference_json(refs@[i as int]),
            ));
        }
        out.push(x);
        i = i + 1;
    }
    assert(refs@.take(refs@.len() as int) =~= refs@);
    JsonValue::Array(out)
}

} // verus!

verus! {

proof fn lemma_trailing_segment_suffix(q: Seq<char>, e: Seq<char>)
    requires
        forall|i: int| 0 <= i < e.len() ==> !is_segment_separator(#[trigger] e[i]),
    ensures
        trailing_segment(q + "."@ + e) == e,
    decreases e.len(),
{
    reveal_strlit(".");
    let p = q + "."@ + e;
    if e.len() == 0 {
        assert(p.last() == '.');
    } else {
        lemma_trailing_segment_suffix(q, e.drop_last());
        assert(p.drop_last() =~= q + "."@ + e.drop_last());
        assert(p.last() == e.last());
        assert(e.drop_last().push(e.last()) =~= e);
    }
}

/// The image media types of paths: a path that ends with `.` and an extension gets, for
/// the extension in any ASCII case, `image/jpeg` for both `jpg` and `jpeg`, `image/png`
/// for `png`, `image/gif` for `gif`, `image/webp` for `webp`, `image/svg+xml` for `svg`,
/// `image/bmp` for `bmp`, `image/avif` for `avif` and `image/apng` for `apng`, and no type
/// for any other extension. A path (or title) with such an extension makes a reference
/// an image, whatever else is known of it.
pub proof fn lemma_image_extensions(q: Seq<char>, e: Seq<char>)
    requires
        e.len() > 0,
        forall|i: int| 0 <= i < e.len() ==> !is_segment_separator(#[trigger] e[i]),
    ensures
        last_segment(q + "."@ + e) == Some(e),
        ({
            let p = q + "."@ + e;
            let l = to_ascii_lowercase(e);
            &&& (l == "jpg"@ || l == "jpeg"@) ==> inferred_mime_type(Some(p)) == Some("image/jpeg"@)
            &&& l == "png"@ ==> inferred_mime_type(Some(p)) == Some("image/png"@)
            &&& l == "gif"@ ==> inferred_mime_type(Some(p)) == Some("image/gif"@)
            &&& l == "webp"@ ==> inferred_mime_type(Some(p)) == Some("image/webp"@)
            &&& l == "svg"@ ==> inferred_mime_type(Some(p)) == Some("image/svg+xml"@)
            &&& l == "bmp"@ ==> inferred_mime_type(Some(p)) == Some("image/bmp"@)
            &&& l == "avif"@ ==> inferred_mime_type(Some(p)) == Some("image/avif"@)
            &&& l == "apng"@ ==> inferred_mime_type(Some(p)) == Some("image/apng"@)
            &&& !(l == "jpg"@ || l == "jpeg"@ || l == "png"@ || l == "gif"@ || l == "webp"@ || l
                == "svg"@ || l == "bmp"@ || l == "avif"@ || l == "apng"@) ==> inferred_mime_type(
                Some(p),
            ) is None
            &&& inferred_mime_type(Some(p)) is Some ==> forall|m: Option<Seq<char>>, t: Option<
                Seq<char>,
            >| #![auto] image_reference(m, Some(p), t) && image_reference(m, t, Some(p))
        }),
{
    reveal_strlit(".");
    let p = q + "."@ + e;
    lemma_trailing_segment_suffix(q, e);
    assert(p.last() == e.last());
    assert(!is_segment_separator(e[e.len() - 1]));
    assert(last_segment(p) == Some(e));
    let l = to_ascii_lowercase(e);
    assert(inferred_mime_type(Some(p)) == image_mime_for_extension(l));
    reveal_strlit("apng");
    reveal_strlit("avif");
    reveal_strlit("bmp");
    reveal_strlit("gif");
    reveal_strlit("jpg");
    reveal_strlit("jpeg");
    reveal_strlit("png");
    reveal_strlit("svg");
    reveal_strlit("webp");
    // The extensions of the table differ in their first letters, or in the second.
    assert("apng"@[0] == 'a' && "apng"@[1] == 'p' && "avif"@[0] == 'a' && "avif"@[1] == 'v');
    assert("bmp"@[0] == 'b' && "gif"@[0] == 'g' && "jpg"@[0] == 'j' && "jpeg"@[0] == 'j');
    assert("png"@[0] == 'p' && "svg"@[0] == 's' && "webp"@[0] == 'w');
    assert((l == "jpg"@ || l == "jpeg"@) ==> inferred_mime_type(Some(p)) == Some("image/jpeg"@));
    assert(l == "png"@ ==> inferred_mime_type(Some(p)) == Some("image/png"@));
    assert(l == "gif"@ ==> inferred_mime_type(Some(p)) == Some("image/gif"@));
    assert(l == "webp"@ ==> inferred_mime_type(Some(p)) == Some("image/webp"@));
    assert(l == "svg"@ ==> inferred_mime_type(Some(p)) == Some("image/svg+xml"@));
    assert(l == "bmp"@ ==> inferred_mime_type(Some(p)) == Some("image/bmp"@));
    assert(l == "avif"@ ==> inferred_mime_type(Some(p)) == Some("image/avif"@));
    assert(l == "apng"@ ==> inferred_mime_type(Some(p)) == Some("image/apng"@));
    assert(!(l == "jpg"@ || l == "jpeg"@ || l == "png"@ || l == "gif"@ || l == "webp"@ || l
        == "svg"@ || l == "bmp"@ || l == "avif"@ || l == "apng"@) ==> inferred_mime_type(Some(p))
        is None);
    if inferred_mime_type(Some(p)) is Some {
        assert forall|m: Option<Seq<char>>, t: Option<Seq<char>>|
            #![auto]
            image_reference(m, Some(p), t) && image_reference(m, t, Some(p)) by {}
    }
}

/// The source path of a reference falls back to the context's URI: it is known whenever
/// the URI is, and it is the URI when neither the custom metadata nor any unknown member
/// of the context or of its chunk names one.
pub proof fn lemma_source_path_falls_back_to_uri(ch: GroundingChunk, c: RetrievedContext)
    ensures
        c.uri is Some ==> reference_source_path(ch, c) is Some,
        c.custom_metadata@.len() == 0 && c.extra@.len() == 0 && ch.extra@.len() == 0
            ==> reference_source_path(ch, c) == opt_view(c.uri),
{
    if c.custom_metadata@.len() == 0 && c.extra@.len() == 0 && ch.extra@.len() == 0 {
        assert(json_entries_view(c.extra@).len() == 0);
        assert(json_entries_view(ch.extra@).len() == 0);
    }
}

} // verus!
