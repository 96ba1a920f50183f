//! Chat requests: message text, the Gemini prompt, and response modalities.
use vstd::prelude::*;
use crate::json::{json_as_str, JsonValue};
use crate::text::{concat2, copy_str, eq_ignore_ascii_case, eq_ignore_ascii_case_str, is_blank, is_blank_str, is_ws, join, join_strings, lemma_trim_empty_iff_blank, str_eq, trim, trim_str};

verus! {

/// One part of a message's content.
pub struct MessagePart {
    pub part_type: Option<String>,
    pub text: Option<String>,
}

/// A message's content: a string, a list of parts, or any other JSON value.
pub enum MessageContent {
    Text(String),
    Parts(Vec<MessagePart>),
    Other(JsonValue),
}

/// One chat message.
pub struct ChatMessage {
    pub role: String,
    pub content: MessageContent,
}

/// A part counts as text when it has no type, or the type `text` or `input_text`.
pub open spec fn is_text_part(p: MessagePart) -> bool {
    match p.part_type {
        Some(t) => t@ == "text"@ || t@ == "input_text"@,
        None => true,
    }
}

/// The texts of the text parts, in order.
pub open spec fn text_part_texts(ps: Seq<MessagePart>) -> Seq<Seq<char>>
    decreases ps.len(),
{
    if ps.len() == 0 {
        Seq::empty()
    } else {
        text_part_texts(ps.drop_last()) + if is_text_part(ps.last()) && ps.last().text is Some {
            seq![ps.last().text->0@]
        } else {
            Seq::empty()
        }
    }
}

/// The text of a message's content: the string itself; the text parts joined by newlines
/// (none when that is empty); or a JSON string value.
pub open spec fn content_text(c: MessageContent) -> Option<Seq<char>> {
    match c {
        MessageContent::Text(t) => Some(t@),
        MessageContent::Parts(ps) => {
            let j = join(text_part_texts(ps@), "\n"@);
            if j.len() > 0 {
                Some(j)
            } else {
                None
            }
        },
        MessageContent::Other(v) => json_as_str(v@),
    }
}

/// The prompt line of a message with text: `role: text`, the text trimmed.
pub open spec fn message_line(m: ChatMessage) -> Option<Seq<char>> {
    match content_text(m.content) {
        Some(c) => Some(m.role@ + ": "@ + trim(c)),
        None => None,
    }
}

/// The prompt lines of the messages that have text, in order.
pub open spec fn prompt_lines(ms: Seq<ChatMessage>) -> Seq<Seq<char>>
    decreases ms.len(),
{
    if ms.len() == 0 {
        Seq::empty()
    } else {
        prompt_lines(ms.drop_last()) + match message_line(ms.last()) {
            Some(l) => seq![l],
            None => Seq::empty(),
        }
    }
}

/// The prompt of a conversation: its message lines separated by empty lines.
pub open spec fn conversation_prompt(ms: Seq<ChatMessage>) -> Seq<char> {
    join(prompt_lines(ms), "\n\n"@)
}

/// Why a conversation gives no prompt.
pub enum ChatPromptError {
    NoMessages,
    NoTextContent,
}

pub open spec fn chat_prompt_error_message(e: ChatPromptError) -> Seq<char> {
    match e {
        ChatPromptError::NoMessages => "messages must not be empty"@,
        ChatPromptError::NoTextContent => "messages did not include any text content"@,
    }
}

impl ChatPromptError {
    pub fn message(&self) -> (r: String)
        ensures
            r@ == chat_prompt_error_message(*self),
    {
        match self {
            ChatPromptError::NoMessages => copy_str("messages must not be empty"),
            ChatPromptError::NoTextContent => copy_str("messages did not include any text content"),
        }
    }
}

impl MessageContent {
    /// The text of the content (see `content_text`).
    pub fn text(&self) -> (r: Option<String>)
        ensures
            match r {
                Some(t) => content_text(*self) == Some(t@),
                None => content_text(*self) is None,
            },
    {
        match self {
            MessageContent::Text(t) => Some(t.clone()),
            MessageContent::Parts(parts) => {
                let mut texts: Vec<String> = Vec::new();
                let mut i: usize = 0;
                while i < parts.len()
                    invariant
                        i <= parts@.len(),
                        texts@.map_values(|t: String| t@) == text_part_texts(
                            parts@.take(i as int),
                        ),
                    decreases parts@.len() - i,
                {
                    let p = &parts[i];
                    let selected = match &p.part_type {
                        Some(t) => str_eq(t.as_str(), "text") || str_eq(t.as_str(), "input_text"),
                        None => true,
                    };
                    proof {
                        assert(parts@.take(i + 1).drop_last() =~= parts@.take(i as int));
                    }
                    let ghost prev = texts@.map_values(|t: String| t@);
                    if selected {
                        match &p.text {
                            Some(t) => {
                                texts.push(t.clone());
                                assert(texts@.map_values(|t: String| t@) =~= prev.push(t@));
                            },
                            None => {
                                assert(prev + Seq::<Seq<char>>::empty() =~= prev);
                            },
                        }
                    } else {
                        assert(prev + Seq::<Seq<char>>::empty() =~= prev);
                    }
                    i = i + 1;
                }
                assert(parts@.take(parts@.len() as int) =~= parts@);
                let joined = join_strings(&texts, "\n");
                if joined.as_str().unicode_len() > 0 {
                    Some(joined)
                } else {
                    None
                }
            },
            MessageContent::Other(v) => v.as_str_owned(),
        }
    }
}

proof fn lemma_line_not_blank(role: Seq<char>, text: Seq<char>)
    ensures
        !is_blank(role + ": "@ + text),
{
    reveal_strlit(": ");
    let l = role + ": "@ + text;
    assert(l[role.len() as int] == ':');
    assert(!is_ws(':'));
}

proof fn lemma_join_not_blank(ls: Seq<Seq<char>>, sep: Seq<char>)
    requires
        ls.len() > 0,
        forall|i: int| 0 <= i < ls.len() ==> !is_blank(#[trigger] ls[i]),
    ensures
        !is_blank(join(ls, sep)),
    decreases ls.len(),
{
    if ls.len() > 1 {
        let a = join(ls.drop_last(), sep) + sep;
        let last = ls.last();
        assert(!is_blank(last));
        let k = choose|k: int| 0 <= k < last.len() && !is_ws(#[trigger] last[k]);
        assert((a + last)[a.len() + k] == last[k]);
    }
}

proof fn lemma_prompt_lines_not_blank(ms: Seq<ChatMessage>)
    ensures
        forall|i: int| 0 <= i < prompt_lines(ms).len() ==> !is_blank(#[trigger] prompt_lines(ms)[i]),
    decreases ms.len(),
{
    if ms.len() > 0 {
        let t = ms.drop_last();
        lemma_prompt_lines_not_blank(t);
        match content_text(ms.last().content) {
            Some(c) => lemma_line_not_blank(ms.last().role@, trim(c)),
            None => {},
        }
        assert forall|i: int| 0 <= i < prompt_lines(ms).len() implies !is_blank(
            #[trigger] prompt_lines(ms)[i],
        ) by {
            if i < prompt_lines(t).len() {
                assert(prompt_lines(ms)[i] == prompt_lines(t)[i]);
            }
        }
    }
}

/// A conversation's prompt is blank exactly when no message has text.
pub proof fn lemma_prompt_blank_iff_no_text(ms: Seq<ChatMessage>)
    ensures
        trim(conversation_prompt(ms)).len() == 0 <==> prompt_lines(ms).len() == 0,
{
    lemma_trim_empty_iff_blank(conversation_prompt(ms));
    lemma_prompt_lines_not_blank(ms);
    if prompt_lines(ms).len() > 0 {
        lemma_join_not_blank(prompt_lines(ms), "\n\n"@);
    } else {
        assert(conversation_prompt(ms) =~= Seq::<char>::empty());
    }
}

/// The Gemini prompt of a conversation: one `role: text` line per message with text,
/// separated by empty lines. Fails when there is no message, or no message has text.
pub fn chat_prompt(messages: &[ChatMessage]) -> (r: Result<String, ChatPromptError>)
    ensures
        messages@.len() == 0 ==> r == Err::<String, ChatPromptError>(ChatPromptError::NoMessages),
        messages@.len() > 0 && prompt_lines(messages@).len() == 0 ==> r == Err::<
            String,
            ChatPromptError,
        >(ChatPromptError::NoTextContent),
        r is Ok <==> (messages@.len() > 0 && prompt_lines(messages@).len() > 0),
        match r {
            Ok(p) => p@ == conversation_prompt(messages@),
            Err(_) => true,
        },
{
    if messages.len() == 0 {
        return Err(ChatPromptError::NoMessages);
    }
    let mut lines: Vec<String> = Vec::new();
    let mut i: usize = 0;
    while i < messages.len()
        invariant
            i <= messages@.len(),
            lines@.map_values(|t: String| t@) == prompt_lines(messages@.take(i as int)),
        decreases messages@.len() - i,
    {
        let m = &messages[i];
        proof {
            assert(messages@.take(i + 1).drop_last() =~= messages@.take(i as int));
        }
        let ghost prev = lines@.map_values(|t: String| t@);
        match m.content.text() {
            Some(c) => {
                let head = concat2(m.role.as_str(), ": ");
                let t = trim_str(c.as_str());
                let line = concat2(head.as_str(), t.as_str());
                lines.push(line);
                assert(lines@.map_values(|t: String| t@) =~= prev.push(m.role@ + ": "@ + trim(c@)));
            },
            None => {
                assert(prev + Seq::<Seq<char>>::empty() =~= prev);
            },
        }
        i = i + 1;
    }
    assert(messages@.take(messages@.len() as int) =~= messages@);
    let prompt = join_strings(&lines, "\n\n");
    proof {
        lemma_prompt_blank_iff_no_text(messages@);
        lemma_trim_empty_iff_blank(prompt@);
    }
    if is_blank_str(prompt.as_str()) {
        return Err(ChatPromptError::NoTextContent);
    }
    Ok(prompt)
}

// ---------------------------------------------------------------------------
// Response modalities
// ---------------------------------------------------------------------------

/// The Gemini name of an OpenAI modality (matched ignoring ASCII case).
pub open spec fn gemini_modality(m: Seq<char>) -> Option<Seq<char>> {
    if eq_ignore_ascii_case(m, "text"@) {
        Some("TEXT"@)
    } else if eq_ignore_ascii_case(m, "image"@) {
        Some("IMAGE"@)
    } else {
        None
    }
}

/// The Gemini names of the known modalities, in order.
pub open spec fn gemini_modalities(ms: Seq<Seq<char>>) -> Seq<Seq<char>>
    decreases ms.len(),
{
    if ms.len() == 0 {
        Seq::empty()
    } else {
        gemini_modalities(ms.drop_last()) + match gemini_modality(ms.last()) {
            Some(g) => seq![g],
            None => Seq::empty(),
        }
    }
}

/// `TEXT` put first when images are asked for without text.
pub open spec fn with_text_for_images(ms: Seq<Seq<char>>) -> Seq<Seq<char>> {
    if ms.contains("IMAGE"@) && !ms.contains("TEXT"@) {
        seq!["TEXT"@] + ms
    } else {
        ms
    }
}

/// The sequence without consecutive repeated elements (`Vec::dedup`).
pub open spec fn dedup(s: Seq<Seq<char>>) -> Seq<Seq<char>>
    decreases s.len(),
{
    if s.len() <= 1 {
        s
    } else if s.last() == s[s.len() - 2] {
        dedup(s.drop_last())
    } else {
        dedup(s.drop_last()).push(s.last())
    }
}

/// The Gemini response modalities of an OpenAI request.
pub open spec fn response_modalities_of(ms: Seq<Seq<char>>) -> Seq<Seq<char>> {
    dedup(with_text_for_images(gemini_modalities(ms)))
}

pub proof fn lemma_dedup_last(s: Seq<Seq<char>>)
    requires
        s.len() > 0,
    ensures
        dedup(s).len() > 0,
        dedup(s).last() == s.last(),
    decreases s.len(),
{
    if s.len() > 1 {
        lemma_dedup_last(s.drop_last());
    }
}

/// Every element of `dedup(s)` is an element of `s`, and no two neighbours are equal.
pub proof fn lemma_dedup_properties(s: Seq<Seq<char>>)
    ensures
        forall|i: int| 0 <= i < dedup(s).len() ==> s.contains(#[trigger] dedup(s)[i]),
        forall|i: int| 0 <= i < dedup(s).len() - 1 ==> #[trigger] dedup(s)[i] != dedup(s)[i + 1],
        forall|x: Seq<char>| s.contains(x) ==> dedup(s).contains(x),
    decreases s.len(),
{
    if s.len() > 1 {
        let t = s.drop_last();
        lemma_dedup_properties(t);
        lemma_dedup_last(t);
        assert forall|i: int| 0 <= i < dedup(s).len() implies s.contains(#[trigger] dedup(s)[i]) by {
            if i < dedup(t).len() {
                let x = dedup(t)[i];
                assert(t.contains(x));
                let k = choose|k: int| 0 <= k < t.len() && t[k] == x;
                assert(s[k] == x);
            } else {
                assert(s[s.len() - 1] == s.last());
            }
        }
        assert forall|x: Seq<char>| s.contains(x) implies dedup(s).contains(x) by {
            let k = choose|k: int| 0 <= k < s.len() && s[k] == x;
            if k < s.len() - 1 {
                assert(t[k] == x);
                assert(t.contains(x));
                let m = choose|m: int| 0 <= m < dedup(t).len() && dedup(t)[m] == x;
                assert(dedup(s)[m] == x);
            } else if s.last() == s[s.len() - 2] {
                assert(dedup(t).last() == t.last());
                assert(dedup(s)[dedup(s).len() - 1] == x);
            } else {
                assert(dedup(s)[dedup(s).len() - 1] == x);
            }
        }
    } else if s.len() == 1 {
        assert(dedup(s) == s);
    }
}

pub proof fn lemma_gemini_modalities_known(ms: Seq<Seq<char>>)
    ensures
        forall|i: int|
            0 <= i < gemini_modalities(ms).len() ==> #[trigger] gemini_modalities(ms)[i] == "TEXT"@
                || gemini_modalities(ms)[i] == "IMAGE"@,
    decreases ms.len(),
{
    if ms.len() > 0 {
        let t = ms.drop_last();
        lemma_gemini_modalities_known(t);
        assert forall|i: int| 0 <= i < gemini_modalities(ms).len() implies #[trigger] gemini_modalities(ms)[i]
            == "TEXT"@ || gemini_modalities(ms)[i] == "IMAGE"@ by {
            if i < gemini_modalities(t).len() {
                assert(gemini_modalities(ms)[i] == gemini_modalities(t)[i]);
            }
        }
    }
}

/// The response modalities sent to Gemini are only `TEXT` and `IMAGE`, never the same one
/// twice in a row, and whenever `IMAGE` is asked for, `TEXT` is asked for too.
pub proof fn lemma_response_modalities(ms: Seq<Seq<char>>)
    ensures
        forall|i: int|
            0 <= i < response_modalities_of(ms).len() ==> #[trigger] response_modalities_of(ms)[i]
                == "TEXT"@ || response_modalities_of(ms)[i] == "IMAGE"@,
        forall|i: int|
            0 <= i < response_modalities_of(ms).len() - 1 ==> #[trigger] response_modalities_of(
                ms,
            )[i] != response_modalities_of(ms)[i + 1],
        response_modalities_of(ms).contains("IMAGE"@) ==> response_modalities_of(ms).contains(
            "TEXT"@,
        ),
{
    let g = gemini_modalities(ms);
    let w = with_text_for_images(g);
    let r = dedup(w);
    lemma_gemini_modalities_known(ms);
    lemma_dedup_properties(w);
    assert forall|k: int| 0 <= k < w.len() implies #[trigger] w[k] == "TEXT"@ || w[k] == "IMAGE"@ by {
        if g.contains("IMAGE"@) && !g.contains("TEXT"@) {
            if k > 0 {
                assert(w[k] == g[k - 1]);
            }
        } else {
            assert(w[k] == g[k]);
        }
    }
    assert forall|i: int| 0 <= i < r.len() implies #[trigger] r[i] == "TEXT"@ || r[i] == "IMAGE"@ by {
        assert(w.contains(r[i]));
        let k = choose|k: int| 0 <= k < w.len() && w[k] == r[i];
        assert(w[k] == "TEXT"@ || w[k] == "IMAGE"@);
    }
    if r.contains("IMAGE"@) {
        let i = choose|i: int| 0 <= i < r.len() && r[i] == "IMAGE"@;
        assert(w.contains(r[i]));
        assert(w.contains("IMAGE"@));
        if g.contains("IMAGE"@) && !g.contains("TEXT"@) {
            assert(w[0] == "TEXT"@);
            assert(w.contains("TEXT"@));
        } else {
            assert(w == g);
            if !g.contains("TEXT"@) {
                assert(!g.contains("IMAGE"@));
            }
        }
        assert(r.contains("TEXT"@));
    }
}

/// Pushes the Gemini name of each known modality.
fn known_modalities(modalities: &[String]) -> (r: Vec<String>)
    ensures
        r@.map_values(|t: String| t@) == gemini_modalities(modalities@.map_values(|t: String| t@)),
{
    let ghost views = modalities@.map_values(|t: String| t@);
    let mut out: Vec<String> = Vec::new();
    let mut i: usize = 0;
    while i < modalities.len()
        invariant
            i <= modalities@.len(),
            views == modalities@.map_values(|t: String| t@),
            out@.map_values(|t: String| t@) == gemini_modalities(views.take(i as int)),
        decreases modalities@.len() - i,
    {
        proof {
            assert(views.take(i + 1).drop_last() =~= views.take(i as int));
            assert(views.take(i + 1).last() == modalities@[i as int]@);
        }
        let ghost prev = out@.map_values(|t: String| t@);
        let m = modalities[i].as_str();
        if eq_ignore_ascii_case_str(m, "text") {
            out.push(copy_str("TEXT"));
            assert(out@.map_values(|t: String| t@) =~= prev.push("TEXT"@));
        } else if eq_ignore_ascii_case_str(m, "image") {
            out.push(copy_str("IMAGE"));
            assert(out@.map_values(|t: String| t@) =~= prev.push("IMAGE"@));
        } else {
            assert(prev + Seq::<Seq<char>>::empty() =~= prev);
        }
        i = i + 1;
    }
    assert(views.take(modalities@.len() as int) =~= views);
    out
}

fn contains_str(v: &Vec<String>, x: &str) -> (r: bool)
    ensures
        r == v@.map_values(|t: String| t@).contains(x@),
{
    let ghost views = v@.map_values(|t: String| t@);
    let mut i: usize = 0;
    while i < v.len()
        invariant
            i <= v@.len(),
            views == v@.map_values(|t: String| t@),
            forall|k: int| 0 <= k < i ==> views[k] != x@,
        decreases v@.len() - i,
    {
        if str_eq(v[i].as_str(), x) {
            assert(views[i as int] == x@);
            return true;
        }
        i = i + 1;
    }
    false
}

/// The Gemini response modalities of an OpenAI request: known modalities renamed,
/// `TEXT` added first when only images are asked for, and repeats in a row removed.
pub fn gemini_response_modalities(modalities: &[String]) -> (r: Vec<String>)
    ensures
        r@.map_values(|t: String| t@) == response_modalities_of(
            modalities@.map_values(|t: String| t@),
        ),
{
    let known = known_modalities(modalities);
    let ghost kv = known@.map_values(|t: String| t@);
    let mut listed: Vec<String> = Vec::new();
    if contains_str(&known, "IMAGE") && !contains_str(&known, "TEXT") {
        listed.push(copy_str("TEXT"));
    }
    let mut i: usize = 0;
    let ghost start = listed@.map_values(|t: String| t@);
    while i < known.len()
        invariant
            i <= known@.len(),
            kv == known@.map_values(|t: String| t@),
            listed@.map_values(|t: String| t@) == start + kv.take(i as int),
        decreases known@.len() - i,
    {
        let ghost prev = listed@.map_values(|t: String| t@);
        let item = known[i].clone();
        assert(item@ == kv[i as int]);
        listed.push(item);
        assert(kv.take(i + 1) =~= kv.take(i as int).push(kv[i as int]));
        assert(listed@.map_values(|t: String| t@) =~= prev.push(item@));
        assert(listed@.map_values(|t: String| t@) =~= start + kv.take(i + 1));
        i = i + 1;
    }
    let ghost lv = listed@.map_values(|t: String| t@);
    assert(kv.take(known@.len() as int) =~= kv);
    assert(lv =~= with_text_for_images(kv));
    let mut out: Vec<String> = Vec::new();
    let mut j: usize = 0;
    while j < listed.len()
        invariant
            j <= listed@.len(),
            lv == listed@.map_values(|t: String| t@),
            out@.map_values(|t: String| t@) == dedup(lv.take(j as int)),
        decreases listed@.len() - j,
    {
        let ghost prev = out@.map_values(|t: String| t@);
        proof {
            assert(lv.take(j + 1).drop_last() =~= lv.take(j as int));
            if j > 0 {
                lemma_dedup_last(lv.take(j as int));
                assert(lv.take(j + 1)[j - 1] == lv[j - 1]);
            }
        }
        if j > 0 && str_eq(listed[j].as_str(), listed[j - 1].as_str()) {
            assert(dedup(lv.take(j + 1)) == dedup(lv.take(j as int)));
        } else {
            out.push(listed[j].clone());
            assert(out@.map_values(|t: String| t@) =~= prev.push(lv[j as int]));
            if j == 0 {
                assert(lv.take(1) =~= seq![lv[0]]);
            }
        }
        j = j + 1;
    }
    assert(lv.take(listed@.len() as int) =~= lv);
    out
}

} // verus!
