//! Server-sent events: splitting an upstream byte stream into `data:` payloads.
use vstd::prelude::*;
use crate::text::{chars_of, extend_chars, is_blank, is_blank_str, is_whitespace, is_ws, join, string_of, strip_prefix, trim_start, lemma_trim_start_skip};

verus! {

// ---------------------------------------------------------------------------
// Lines
// ---------------------------------------------------------------------------

/// A line without one trailing carriage return.
pub open spec fn strip_cr(line: Seq<char>) -> Seq<char> {
    if line.len() > 0 && line.last() == '\r' {
        line.drop_last()
    } else {
        line
    }
}

/// The lines of `s` (as `str::lines` yields them), given the unfinished line `cur`
/// before `s`: lines end at `\n` (a `\r` before it is dropped), and a final line
/// without a line ending is kept when it is not empty.
pub open spec fn lines_from(s: Seq<char>, cur: Seq<char>) -> Seq<Seq<char>>
    decreases s.len(),
{
    if s.len() == 0 {
        if cur.len() > 0 {
            seq![cur]
        } else {
            Seq::empty()
        }
    } else if s[0] == '\n' {
        seq![strip_cr(cur)] + lines_from(s.drop_first(), Seq::empty())
    } else {
        lines_from(s.drop_first(), cur.push(s[0]))
    }
}

pub open spec fn lines(s: Seq<char>) -> Seq<Seq<char>> {
    lines_from(s, Seq::empty())
}

/// The value of a `data:` field line, without its leading whitespace.
pub open spec fn data_field(line: Seq<char>) -> Option<Seq<char>> {
    match strip_prefix(line, "data:"@) {
        Some(rest) => Some(trim_start(rest)),
        None => None,
    }
}

/// The values of the `data:` lines among `ls`, in order.
pub open spec fn data_fields(ls: Seq<Seq<char>>) -> Seq<Seq<char>>
    decreases ls.len(),
{
    if ls.len() == 0 {
        Seq::empty()
    } else {
        data_fields(ls.drop_last()) + match data_field(ls.last()) {
            Some(d) => seq![d],
            None => Seq::empty(),
        }
    }
}

/// The data of one event: its `data:` values joined by newlines; none when empty.
pub open spec fn event_data(raw: Seq<char>) -> Option<Seq<char>> {
    let d = join(data_fields(lines(raw)), "\n"@);
    if d.len() > 0 {
        Some(d)
    } else {
        None
    }
}

pub proof fn lemma_lines_from_step(s: Seq<char>, i: int, cur: Seq<char>)
    requires
        0 <= i < s.len(),
    ensures
        lines_from(s.skip(i), cur) == if s[i] == '\n' {
            seq![strip_cr(cur)] + lines_from(s.skip(i + 1), Seq::empty())
        } else {
            lines_from(s.skip(i + 1), cur.push(s[i]))
        },
{
    assert(s.skip(i).drop_first() =~= s.skip(i + 1));
}

/// The lines of a text.
pub fn lines_of(s: &[char]) -> (r: Vec<Vec<char>>)
    ensures
        r@.map_values(|v: Vec<char>| v@) == lines(s@),
{
    let mut out: Vec<Vec<char>> = Vec::new();
    let mut cur: Vec<char> = Vec::new();
    let mut i: usize = 0;
    assert(s@.skip(0) =~= s@);
    while i < s.len()
        invariant
            i <= s@.len(),
            lines(s@) == out@.map_values(|v: Vec<char>| v@) + lines_from(s@.skip(i as int), cur@),
        decreases s@.len() - i,
    {
        proof {
            lemma_lines_from_step(s@, i as int, cur@);
        }
        if s[i] == '\n' {
            let mut line = cur;
            if line.len() > 0 && line[line.len() - 1] == '\r' {
                line.pop();
            }
            assert(line@ == strip_cr(cur@));
            let ghost before = out@.map_values(|v: Vec<char>| v@);
            out.push(line);
            assert(out@.map_values(|v: Vec<char>| v@) =~= before.push(strip_cr(cur@)));
            cur = Vec::new();
            assert(cur@ =~= Seq::<char>::empty());
        } else {
            cur.push(s[i]);
        }
        i = i + 1;
    }
    assert(s@.skip(i as int) =~= Seq::<char>::empty());
    if cur.len() > 0 {
        let ghost before = out@.map_values(|v: Vec<char>| v@);
        let ghost c = cur@;
        out.push(cur);
        assert(out@.map_values(|v: Vec<char>| v@) =~= before.push(c));
    } else {
        assert(out@.map_values(|v: Vec<char>| v@) =~= out@.map_values(|v: Vec<char>| v@) + Seq::<Seq<char>>::empty());
    }
    out
}

/// The value of a `data:` field line.
fn data_field_of(line: &Vec<char>) -> (r: Option<Vec<char>>)
    ensures
        match r {
            Some(d) => data_field(line@) == Some(d@),
            None => data_field(line@) is None,
        },
{
    let prefix = ['d', 'a', 't', 'a', ':'];
    assert(prefix@ == "data:"@) by {
        reveal_strlit("data:");
    }
    if line.len() < 5 {
        return None;
    }
    let mut k: usize = 0;
    while k < 5
        invariant
            k <= 5 <= line@.len(),
            prefix@ == "data:"@,
            forall|m: int| 0 <= m < k ==> line@[m] == prefix@[m],
        decreases 5 - k,
    {
        if line[k] != prefix[k] {
            assert(line@.take(5)[k as int] != prefix@[k as int]);
            return None;
        }
        k = k + 1;
    }
    assert(line@.take(5) =~= prefix@);
    let mut j: usize = 5;
    while j < line.len() && is_whitespace(line[j])
        invariant
            5 <= j <= line@.len(),
            forall|m: int| 5 <= m < j ==> is_ws(#[trigger] line@[m]),
        decreases line@.len() - j,
    {
        j = j + 1;
    }
    let mut d: Vec<char> = Vec::new();
    let mut m: usize = j;
    while m < line.len()
        invariant
            j <= m <= line@.len(),
            d@ == line@.subrange(j as int, m as int),
        decreases line@.len() - m,
    {
        d.push(line[m]);
        m = m + 1;
        assert(d@ =~= line@.subrange(j as int, m as int));
    }
    proof {
        let rest = line@.skip(5);
        assert forall|q: int| 0 <= q < j - 5 implies is_ws(#[trigger] rest[q]) by {
            assert(rest[q] == line@[q + 5]);
        }
        lemma_trim_start_skip(rest, j - 5);
        assert(rest.skip(j - 5) =~= d@);
        if j < line@.len() {
            assert(!is_ws(d@[0]));
        }
    }
    Some(d)
}

/// The data of one raw event: its `data:` values joined by newlines; none when empty.
pub fn sse_event_data(raw: &[char]) -> (r: Option<String>)
    ensures
        match r {
            Some(d) => event_data(raw@) == Some(d@),
            None => event_data(raw@) is None,
        },
{
    let ls = lines_of(raw);
    let ghost lv = ls@.map_values(|v: Vec<char>| v@);
    let mut out: Vec<char> = Vec::new();
    let mut count: usize = 0;
    let ghost mut fields: Seq<Seq<char>> = Seq::empty();
    let mut i: usize = 0;
    while i < ls.len()
        invariant
            i <= ls@.len(),
            lv == ls@.map_values(|v: Vec<char>| v@),
            fields == data_fields(lv.take(i as int)),
            out@ == join(fields, "\n"@),
            count == fields.len(),
            count <= i,
        decreases ls@.len() - i,
    {
        proof {
            assert(lv.take(i + 1).drop_last() =~= lv.take(i as int));
        }
        match data_field_of(&ls[i]) {
            Some(d) => {
                if count > 0 {
                    out.push('\n');
                    assert(seq!['\n'] == "\n"@) by {
                        reveal_strlit("\n");
                    }
                }
                let ghost prev = out@;
                extend_chars(&mut out, d.as_slice());
                proof {
                    let nf = fields.push(d@);
                    assert(nf.drop_last() =~= fields);
                    if count == 0 {
                        assert(join(nf, "\n"@) == nf[0]);
                    }
                    assert(out@ =~= join(nf, "\n"@));
                    fields = nf;
                }
                count = count + 1;
            },
            None => {
                proof {
                    assert(data_fields(lv.take(i + 1)) =~= fields);
                }
            },
        }
        i = i + 1;
    }
    assert(lv.take(ls@.len() as int) =~= lv);
    if out.len() > 0 {
        Some(string_of(out.as_slice()))
    } else {
        None
    }
}

} // verus!

verus! {

// ---------------------------------------------------------------------------
// Events
// ---------------------------------------------------------------------------

pub open spec fn blank_line_at(s: Seq<char>, i: int) -> bool {
    0 <= i && i + 1 < s.len() && s[i] == '\n' && s[i + 1] == '\n'
}

/// The first position at or after `i` where an empty line (`"\n\n"`) ends an event.
pub open spec fn find_blank_from(s: Seq<char>, i: int) -> Option<int>
    decreases s.len() - i,
{
    if i < 0 || i + 1 >= s.len() {
        None
    } else if blank_line_at(s, i) {
        Some(i)
    } else {
        find_blank_from(s, i + 1)
    }
}

pub proof fn lemma_find_blank_from(s: Seq<char>, i: int)
    requires
        0 <= i,
    ensures
        match find_blank_from(s, i) {
            Some(k) => i <= k && k + 1 < s.len() && blank_line_at(s, k) && forall|m: int|
                i <= m < k ==> !blank_line_at(s, m),
            None => forall|m: int| i <= m ==> !blank_line_at(s, m),
        },
    decreases s.len() - i,
{
    if i + 1 < s.len() && !blank_line_at(s, i) {
        lemma_find_blank_from(s, i + 1);
    }
}

pub proof fn lemma_find_blank_skip(s: Seq<char>, m: int)
    requires
        0 <= m,
        forall|x: int| 0 <= x < m ==> !blank_line_at(s, x),
    ensures
        find_blank_from(s, 0) == find_blank_from(s, m),
    decreases m,
{
    if m > 0 {
        lemma_find_blank_skip(s, m - 1);
        if m - 1 + 1 < s.len() {
            assert(!blank_line_at(s, m - 1));
        }
    }
}

/// The complete events of a buffer (each ends with an empty line) and what follows them.
pub open spec fn split_events(s: Seq<char>) -> (Seq<Seq<char>>, Seq<char>)
    decreases s.len(),
{
    match find_blank_from(s, 0) {
        Some(k) => {
            proof {
                lemma_find_blank_from(s, 0);
            }
            let rest = split_events(s.skip(k + 2));
            (seq![s.take(k)] + rest.0, rest.1)
        },
        None => (Seq::empty(), s),
    }
}

/// The data of the events that carry any, in order.
pub open spec fn events_data(raws: Seq<Seq<char>>) -> Seq<Seq<char>>
    decreases raws.len(),
{
    if raws.len() == 0 {
        Seq::empty()
    } else {
        events_data(raws.drop_last()) + match event_data(raws.last()) {
            Some(d) => seq![d],
            None => Seq::empty(),
        }
    }
}

pub proof fn lemma_events_data_add(a: Seq<Seq<char>>, b: Seq<Seq<char>>)
    ensures
        events_data(a + b) == events_data(a) + events_data(b),
    decreases b.len(),
{
    if b.len() == 0 {
        assert(a + b =~= a);
        assert(events_data(a) + events_data(b) =~= events_data(a));
    } else {
        lemma_events_data_add(a, b.drop_last());
        assert((a + b).drop_last() =~= a + b.drop_last());
        assert(events_data(a + b) =~= events_data(a) + events_data(b));
    }
}

proof fn lemma_find_blank_prefix(x: Seq<char>, y: Seq<char>, i: int)
    requires
        0 <= i,
        find_blank_from(x, i) is Some,
    ensures
        find_blank_from(x + y, i) == find_blank_from(x, i),
    decreases x.len() - i,
{
    assert(blank_line_at(x + y, i) == blank_line_at(x, i));
    if !blank_line_at(x, i) {
        lemma_find_blank_prefix(x, y, i + 1);
    }
}

/// Splitting `x + y` into events splits `x` first, then what was left of `x` followed by
/// `y`.
pub proof fn lemma_split_events_append(x: Seq<char>, y: Seq<char>)
    ensures
        split_events(x + y).0 == split_events(x).0 + split_events(split_events(x).1 + y).0,
        split_events(x + y).1 == split_events(split_events(x).1 + y).1,
    decreases x.len(),
{
    match find_blank_from(x, 0) {
        Some(k) => {
            lemma_find_blank_from(x, 0);
            lemma_find_blank_prefix(x, y, 0);
            let xs = x.skip(k + 2);
            assert((x + y).skip(k + 2) =~= xs + y);
            assert((x + y).take(k) =~= x.take(k));
            lemma_split_events_append(xs, y);
            assert(split_events(x + y).0 =~= split_events(x).0 + split_events(
                split_events(x).1 + y,
            ).0);
        },
        None => {
            assert(split_events(x).0 =~= Seq::<Seq<char>>::empty());
            assert(split_events(x).0 + split_events(split_events(x).1 + y).0 =~= split_events(
                x + y,
            ).0);
        },
    }
}

/// Reading a stream in two pieces gives the same events as reading it at once: the data
/// of the events complete after the first piece, followed by the data of those completed
/// by the second, are the data of the events of the whole, and the same text is left over.
pub proof fn lemma_drain_in_pieces(x: Seq<char>, y: Seq<char>)
    ensures
        events_data(split_events(x).0) + events_data(split_events(split_events(x).1 + y).0)
            == events_data(split_events(x + y).0),
        split_events(split_events(x).1 + y).1 == split_events(x + y).1,
{
    lemma_split_events_append(x, y);
    lemma_events_data_add(split_events(x).0, split_events(split_events(x).1 + y).0);
}

/// The text with every `"\r\n"` replaced by `"\n"` (left to right, without overlaps).
pub open spec fn crlf_to_lf(s: Seq<char>) -> Seq<char>
    decreases s.len(),
{
    if s.len() == 0 {
        Seq::empty()
    } else if s.len() >= 2 && s[0] == '\r' && s[1] == '\n' {
        seq!['\n'] + crlf_to_lf(s.skip(2))
    } else {
        seq![s[0]] + crlf_to_lf(s.drop_first())
    }
}

/// Replaces every `"\r\n"` by `"\n"`.
pub fn normalize_line_endings(s: &[char]) -> (r: Vec<char>)
    ensures
        r@ == crlf_to_lf(s@),
{
    let mut out: Vec<char> = Vec::new();
    let mut i: usize = 0;
    assert(s@.skip(0) =~= s@);
    while i < s.len()
        invariant
            i <= s@.len(),
            crlf_to_lf(s@) == out@ + crlf_to_lf(s@.skip(i as int)),
        decreases s@.len() - i,
    {
        let ghost t = s@.skip(i as int);
        if i + 1 < s.len() && s[i] == '\r' && s[i + 1] == '\n' {
            assert(t.skip(2) =~= s@.skip(i + 2));
            out.push('\n');
            assert(crlf_to_lf(s@) =~= out@ + crlf_to_lf(s@.skip(i + 2)));
            i = i + 2;
        } else {
            assert(t.drop_first() =~= s@.skip(i + 1));
            out.push(s[i]);
            assert(crlf_to_lf(s@) =~= out@ + crlf_to_lf(s@.skip(i + 1)));
            i = i + 1;
        }
    }
    assert(s@.skip(i as int) =~= Seq::<char>::empty());
    assert(out@ + Seq::<char>::empty() =~= out@);
    out
}

/// Removes the complete events from the buffer and returns their data, in order.
pub fn drain_events(buffer: &mut Vec<char>) -> (r: Vec<String>)
    ensures
        final(buffer)@ == split_events(old(buffer)@).1,
        r@.map_values(|d: String| d@) == events_data(split_events(old(buffer)@).0),
{
    let s = buffer.clone();
    let ghost sv = s@;
    assert(sv == old(buffer)@);
    let mut out: Vec<String> = Vec::new();
    let ghost mut raws: Seq<Seq<char>> = Seq::empty();
    let mut start: usize = 0;
    assert(sv.skip(0) =~= sv);
    loop
        invariant
            s@ == sv,
            sv == old(buffer)@,
            start <= sv.len(),
            split_events(sv).0 == raws + split_events(sv.skip(start as int)).0,
            split_events(sv).1 == split_events(sv.skip(start as int)).1,
            out@.map_values(|d: String| d@) == events_data(raws),
        decreases sv.len() - start,
    {
        let ghost t = sv.skip(start as int);
        let mut j = start;
        while j < s.len() && j + 1 < s.len() && !(s[j] == '\n' && s[j + 1] == '\n')
            invariant
                s@ == sv,
                start <= j,
                j <= sv.len(),
                t == sv.skip(start as int),
                forall|x: int| 0 <= x < j - start ==> !blank_line_at(t, x),
            decreases sv.len() - j,
        {
            proof {
                assert(!blank_line_at(t, j - start)) by {
                    if j - start + 1 < t.len() {
                        assert(t[j - start] == sv[j as int]);
                        assert(t[j - start + 1] == sv[j + 1]);
                    }
                }
            }
            j = j + 1;
        }
        proof {
            lemma_find_blank_skip(t, j - start);
        }
        if j >= s.len() || j + 1 >= s.len() {
            proof {
                assert(find_blank_from(t, j - start) is None);
                assert(find_blank_from(t, 0) is None);
                assert(split_events(t).1 == t);
                assert(split_events(t).0 =~= Seq::<Seq<char>>::empty());
                assert(raws + split_events(t).0 =~= raws);
            }
            let mut rest: Vec<char> = Vec::new();
            let mut m = start;
            while m < s.len()
                invariant
                    s@ == sv,
                    start <= m <= sv.len(),
                    rest@ == sv.subrange(start as int, m as int),
                decreases sv.len() - m,
            {
                rest.push(s[m]);
                m = m + 1;
                assert(rest@ =~= sv.subrange(start as int, m as int));
            }
            assert(rest@ =~= t);
            *buffer = rest;
            return out;
        }
        proof {
            assert(t[j - start] == sv[j as int]);
            assert(t[j - start + 1] == sv[j + 1]);
            assert(blank_line_at(t, j - start));
            assert(find_blank_from(t, j - start) == Some(j - start));
            assert(t.skip(j - start + 2) =~= sv.skip(j + 2));
        }
        let mut raw: Vec<char> = Vec::new();
        let mut m = start;
        while m < j
            invariant
                s@ == sv,
                start <= m <= j < sv.len(),
                raw@ == sv.subrange(start as int, m as int),
            decreases j - m,
        {
            raw.push(s[m]);
            m = m + 1;
            assert(raw@ =~= sv.subrange(start as int, m as int));
        }
        assert(raw@ =~= t.take(j - start));
        let data = sse_event_data(raw.as_slice());
        proof {
            let nr = raws.push(raw@);
            assert(nr.drop_last() =~= raws);
            assert(split_events(sv).0 =~= nr + split_events(sv.skip(j + 2)).0);
            raws = nr;
        }
        match data {
            Some(d) => {
                let ghost prev = out@.map_values(|x: String| x@);
                let ghost dv = d@;
                out.push(d);
                assert(out@.map_values(|x: String| x@) =~= prev.push(dv));
            },
            None => {},
        }
        start = j + 2;
    }
}

/// Drains the complete events of a text buffer and returns their data, in order;
/// what follows the last complete event stays in the buffer.
pub fn drain_sse_data_events(buffer: &mut String) -> (r: Vec<String>)
    ensures
        final(buffer)@ == split_events(old(buffer)@).1,
        r@.map_values(|d: String| d@) == events_data(split_events(old(buffer)@).0),
{
    let mut cs = chars_of(buffer.as_str());
    let r = drain_events(&mut cs);
    *buffer = string_of(cs.as_slice());
    r
}

/// The data of what is left in the buffer at the end of the stream: none when the rest is
/// blank, else the data of the rest taken as one event.
pub open spec fn remaining_data(rest: Seq<char>) -> Seq<Seq<char>> {
    if is_blank(rest) {
        Seq::empty()
    } else {
        match event_data(rest) {
            Some(d) => seq![d],
            None => Seq::empty(),
        }
    }
}

/// Empties the buffer and returns the data of what it held, taken as one last event.
pub fn drain_remaining_events(buffer: &mut Vec<char>) -> (r: Vec<String>)
    ensures
        final(buffer)@ == Seq::<char>::empty(),
        r@.map_values(|d: String| d@) == remaining_data(old(buffer)@),
{
    let s = string_of(buffer.as_slice());
    *buffer = Vec::new();
    let mut out: Vec<String> = Vec::new();
    if is_blank_str(s.as_str()) {
        assert(out@.map_values(|d: String| d@) =~= Seq::<Seq<char>>::empty());
        return out;
    }
    let raw = chars_of(s.as_str());
    match sse_event_data(raw.as_slice()) {
        Some(d) => {
            let ghost dv = d@;
            out.push(d);
            assert(out@.map_values(|x: String| x@) =~= seq![dv]);
        },
        None => {
            assert(out@.map_values(|d: String| d@) =~= Seq::<Seq<char>>::empty());
        },
    }
    out
}

/// Empties the text buffer and returns the data of what it held, taken as one last event.
pub fn drain_remaining_sse_data_events(buffer: &mut String) -> (r: Vec<String>)
    ensures
        final(buffer)@ == Seq::<char>::empty(),
        r@.map_values(|d: String| d@) == remaining_data(old(buffer)@),
{
    let mut cs = chars_of(buffer.as_str());
    let r = drain_remaining_events(&mut cs);
    *buffer = String::new();
    r
}

} // verus!
