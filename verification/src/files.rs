//! Choosing the files of a folder to upload, and the order they are uploaded in.
use vstd::prelude::*;
use crate::cli::MULTIMODAL_EMBEDDING_MODEL;
use crate::paths::{extension, file_name, path_file_name, split_file_name};
use crate::text::{chars_of, concat2, copy_str, eq_ignore_ascii_case, eq_ignore_ascii_case_str};

verus! {

// ---------------------------------------------------------------------------
// Which entries are uploaded
// ---------------------------------------------------------------------------

/// A hidden entry: its name starts with a dot.
pub open spec fn hidden_name(name: Seq<char>) -> bool {
    name.len() > 0 && name[0] == '.'
}

/// Whether an entry of the walk, by its file name, is hidden.
pub fn is_hidden(name: &str) -> (r: bool)
    ensures
        r == hidden_name(name@),
{
    name.unicode_len() > 0 && name.get_char(0) == '.'
}

/// How deep the walk goes: the whole tree, or only the folder's own entries.
pub fn max_depth(recursive: bool) -> (r: usize)
    ensures
        r == if recursive {
            usize::MAX
        } else {
            1
        },
{
    if recursive {
        usize::MAX
    } else {
        1
    }
}

/// What becomes of an entry of the walk.
#[derive(PartialEq, Eq, Structural, Clone, Copy, Debug)]
pub enum EntryDecision {
    /// Not a file: passed over.
    Skip,
    /// A file larger than the limit: passed over with a warning.
    TooLarge,
    /// A file to upload.
    Upload,
}

/// Decides about an entry: only files are uploaded, and only those within the size limit.
pub fn inspect_file_entry(is_file: bool, len: u64, max_bytes: Option<u64>) -> (r: EntryDecision)
    ensures
        r == if !is_file {
            EntryDecision::Skip
        } else if max_bytes is Some && len > max_bytes->0 {
            EntryDecision::TooLarge
        } else {
            EntryDecision::Upload
        },
{
    if !is_file {
        return EntryDecision::Skip;
    }
    match max_bytes {
        Some(limit) => if len > limit {
            EntryDecision::TooLarge
        } else {
            EntryDecision::Upload
        },
        None => EntryDecision::Upload,
    }
}

/// The store that an ingest uploads into.
pub enum StoreChoice {
    /// A store given on the command line.
    Existing(String),
    /// A new store, created with this display name.
    Create(String),
}

/// The store of an ingest: the one given, else a new one named by the display name given,
/// else by the folder's name, else `rag-docs`.
pub fn ingest_store(store: Option<String>, display_name: Option<String>, folder: &str) -> (r:
    StoreChoice)
    ensures
        match store {
            Some(s) => r == StoreChoice::Existing(s),
            None => r matches StoreChoice::Create(name) && name@ == match display_name {
                Some(d) => d@,
                None => match file_name(folder@) {
                    Some(n) => n,
                    None => "rag-docs"@,
                },
            },
        },
{
    match store {
        Some(s) => StoreChoice::Existing(s),
        None => {
            let name = match display_name {
                Some(d) => d,
                None => match path_file_name(folder) {
                    Some(n) => n,
                    None => copy_str("rag-docs"),
                },
            };
            StoreChoice::Create(name)
        },
    }
}

/// An image that image File Search can index: a `.jpg`, `.jpeg` or `.png` file, the
/// extension in any case.
pub open spec fn image_file(path: Seq<char>) -> bool {
    match extension(path) {
        Some(e) => eq_ignore_ascii_case(e, "jpg"@) || eq_ignore_ascii_case(e, "jpeg"@)
            || eq_ignore_ascii_case(e, "png"@),
        None => false,
    }
}

pub fn is_image_file(path: &str) -> (r: bool)
    ensures
        r == image_file(path@),
{
    match path_file_name(path) {
        Some(name) => match split_file_name(name.as_str()).1 {
            Some(e) => eq_ignore_ascii_case_str(e.as_str(), "jpg") || eq_ignore_ascii_case_str(
                e.as_str(),
                "jpeg",
            ) || eq_ignore_ascii_case_str(e.as_str(), "png"),
            None => false,
        },
        None => false,
    }
}

/// The embedding model of a store created for an ingest: the one given, else the
/// multimodal model when the files to upload include an image, else the API's default.
pub fn ingest_embedding_model(given: Option<String>, files: &Vec<String>) -> (r: Option<String>)
    ensures
        match given {
            Some(m) => r == Some(m),
            None => match r {
                Some(m) => m@ == MULTIMODAL_EMBEDDING_MODEL@ && exists|i: int|
                    0 <= i < files@.len() && image_file(#[trigger] files@[i]@),
                None => forall|i: int| 0 <= i < files@.len() ==> !image_file(#[trigger] files@[i]@),
            },
        },
{
    if let Some(m) = given {
        return Some(m);
    }
    let mut i: usize = 0;
    while i < files.len()
        invariant
            given is None,
            i <= files@.len(),
            forall|k: int| 0 <= k < i ==> !image_file(#[trigger] files@[k]@),
        decreases files@.len() - i,
    {
        if is_image_file(files[i].as_str()) {
            return Some(copy_str(MULTIMODAL_EMBEDDING_MODEL));
        }
        i = i + 1;
    }
    None
}

/// The error of a folder without files to upload.
pub fn no_files_message(folder: &str) -> (r: String)
    ensures
        r@ == "no files found in "@ + folder@,
{
    concat2("no files found in ", folder)
}

// ---------------------------------------------------------------------------
// The order of paths
// ---------------------------------------------------------------------------

/// A component of a path, as `std::path::Component` has them on Unix.
pub enum Component {
    RootDir,
    CurDir,
    ParentDir,
    Normal(Seq<char>),
}

/// The components of the segments of `s`, with `cur` the segment being read.
pub open spec fn segment_components(s: Seq<char>, cur: Seq<char>) -> Seq<Component>
    decreases s.len(),
{
    let closed = if cur.len() == 0 || cur == "."@ {
        Seq::empty()
    } else if cur == ".."@ {
        seq![Component::ParentDir]
    } else {
        seq![Component::Normal(cur)]
    };
    if s.len() == 0 {
        closed
    } else if s[0] == '/' {
        closed + segment_components(s.drop_first(), Seq::empty())
    } else {
        segment_components(s.drop_first(), cur.push(s[0]))
    }
}

/// `Path::components`: the root, a leading `.` of a relative path, then the segments
/// that are neither empty nor `.`.
pub open spec fn components(path: Seq<char>) -> Seq<Component> {
    let root = path.len() > 0 && path[0] == '/';
    let lead = !root && path.len() > 0 && path[0] == '.' && (path.len() == 1 || path[1] == '/');
    (if root {
        seq![Component::RootDir]
    } else {
        Seq::empty()
    }) + (if lead {
        seq![Component::CurDir]
    } else {
        Seq::empty()
    }) + segment_components(path, Seq::empty())
}

/// Strict lexicographic order of texts by character.
pub open spec fn text_less(a: Seq<char>, b: Seq<char>) -> bool
    decreases a.len(),
{
    if a.len() == 0 {
        b.len() > 0
    } else if b.len() == 0 {
        false
    } else if a[0] != b[0] {
        a[0] < b[0]
    } else {
        text_less(a.drop_first(), b.drop_first())
    }
}

pub open spec fn component_rank(c: Component) -> int {
    match c {
        Component::RootDir => 1,
        Component::CurDir => 2,
        Component::ParentDir => 3,
        Component::Normal(_) => 4,
    }
}

/// The order of components: root, `.`, `..`, then names by their text.
pub open spec fn component_less(a: Component, b: Component) -> bool {
    match (a, b) {
        (Component::Normal(x), Component::Normal(y)) => text_less(x, y),
        _ => component_rank(a) < component_rank(b),
    }
}

/// Strict lexicographic order of component sequences.
pub open spec fn components_less(a: Seq<Component>, b: Seq<Component>) -> bool
    decreases a.len(),
{
    if a.len() == 0 {
        b.len() > 0
    } else if b.len() == 0 {
        false
    } else if a[0] != b[0] {
        component_less(a[0], b[0])
    } else {
        components_less(a.drop_first(), b.drop_first())
    }
}

/// The order of paths (`Ord for Path`): by their components.
pub open spec fn path_less(a: Seq<char>, b: Seq<char>) -> bool {
    components_less(components(a), components(b))
}

/// A component held at run time.
pub enum ComponentValue {
    RootDir,
    CurDir,
    ParentDir,
    Normal(Vec<char>),
}

pub open spec fn component_view(c: ComponentValue) -> Component {
    match c {
        ComponentValue::RootDir => Component::RootDir,
        ComponentValue::CurDir => Component::CurDir,
        ComponentValue::ParentDir => Component::ParentDir,
        ComponentValue::Normal(v) => Component::Normal(v@),
    }
}

pub open spec fn components_view(cs: Seq<ComponentValue>) -> Seq<Component> {
    cs.map_values(|c: ComponentValue| component_view(c))
}

fn is_dot(cur: &Vec<char>) -> (r: bool)
    ensures
        r == (cur@ == "."@),
{
    proof {
        reveal_strlit(".");
    }
    if cur.len() == 1 && cur[0] == '.' {
        assert(cur@ =~= "."@);
        true
    } else {
        false
    }
}

fn is_dot_dot(cur: &Vec<char>) -> (r: bool)
    ensures
        r == (cur@ == ".."@),
{
    proof {
        reveal_strlit("..");
    }
    if cur.len() == 2 && cur[0] == '.' && cur[1] == '.' {
        assert(cur@ =~= ".."@);
        true
    } else {
        false
    }
}

/// Adds the component of a finished segment.
fn close_segment(out: &mut Vec<ComponentValue>, cur: Vec<char>)
    ensures
        components_view(final(out)@) == components_view(old(out)@) + if cur@.len() == 0 || cur@
            == "."@ {
            Seq::empty()
        } else if cur@ == ".."@ {
            seq![Component::ParentDir]
        } else {
            seq![Component::Normal(cur@)]
        },
{
    let ghost before = components_view(out@);
    if cur.len() == 0 || is_dot(&cur) {
        assert(components_view(out@) =~= before + Seq::<Component>::empty());
    } else if is_dot_dot(&cur) {
        out.push(ComponentValue::ParentDir);
        assert(components_view(out@) =~= before + seq![Component::ParentDir]);
    } else {
        let ghost cv = cur@;
        out.push(ComponentValue::Normal(cur));
        assert(components_view(out@) =~= before + seq![Component::Normal(cv)]);
    }
}

/// The components of a path.
pub fn path_components(path: &str) -> (r: Vec<ComponentValue>)
    ensures
        components_view(r@) == components(path@),
{
    let s = chars_of(path);
    let n = s.len();
    let mut out: Vec<ComponentValue> = Vec::new();
    let root = n > 0 && s[0] == '/';
    if root {
        out.push(ComponentValue::RootDir);
    }
    if !root && n > 0 && s[0] == '.' && (n == 1 || s[1] == '/') {
        out.push(ComponentValue::CurDir);
    }
    let ghost head = components_view(out@);
    assert(head =~= (if root {
        seq![Component::RootDir]
    } else {
        Seq::<Component>::empty()
    }) + (if !root && n > 0 && s@[0] == '.' && (n == 1 || s@[1] == '/') {
        seq![Component::CurDir]
    } else {
        Seq::<Component>::empty()
    }));
    let mut cur: Vec<char> = Vec::new();
    let mut i: usize = 0;
    assert(s@.skip(0) =~= s@);
    while i < n
        invariant
            s@ == path@,
            n == s@.len(),
            i <= n,
            components_view(out@) + segment_components(s@.skip(i as int), cur@) == head
                + segment_components(s@, Seq::empty()),
        decreases n - i,
    {
        let c = s[i];
        let ghost t = s@.skip(i as int);
        assert(t[0] == c);
        assert(t.drop_first() =~= s@.skip(i + 1));
        if c == '/' {
            let ghost before = components_view(out@);
            let ghost cv = cur@;
            close_segment(&mut out, cur);
            cur = Vec::new();
            assert(cur@ =~= Seq::<char>::empty());
            assert(components_view(out@) + segment_components(s@.skip(i + 1), cur@) =~= before
                + segment_components(t, cv));
        } else {
            cur.push(c);
        }
        i = i + 1;
    }
    assert(s@.skip(i as int).len() == 0);
    close_segment(&mut out, cur);
    assert(components_view(out@) =~= head + segment_components(s@, Seq::empty()));
    out
}

// ---------------------------------------------------------------------------
// The order is a strict total order
// ---------------------------------------------------------------------------

proof fn lemma_text_less_order(a: Seq<char>, b: Seq<char>, c: Seq<char>)
    ensures
        !text_less(a, a),
        a != b ==> text_less(a, b) || text_less(b, a),
        text_less(a, b) && text_less(b, c) ==> text_less(a, c),
    decreases a.len(),
{
    if a.len() > 0 {
        lemma_text_less_order(a.drop_first(), b.drop_first(), c.drop_first());
        if b.len() > 0 && a[0] == b[0] && a != b {
            assert(a.drop_first() != b.drop_first()) by {
                if a.drop_first() == b.drop_first() {
                    assert(a =~= seq![a[0]] + a.drop_first());
                    assert(b =~= seq![b[0]] + b.drop_first());
                }
            }
        }
    } else if b.len() == 0 && a != b {
        assert(a =~= b);
    }
}

proof fn lemma_component_less_order(a: Component, b: Component, c: Component)
    ensures
        !component_less(a, a),
        a != b ==> component_less(a, b) || component_less(b, a),
        component_less(a, b) && component_less(b, c) ==> component_less(a, c),
{
    match (a, b, c) {
        (Component::Normal(x), Component::Normal(y), Component::Normal(z)) => {
            lemma_text_less_order(x, y, z);
        },
        (Component::Normal(x), Component::Normal(y), _) => {
            lemma_text_less_order(x, y, x);
        },
        (Component::Normal(x), _, _) => {
            lemma_text_less_order(x, x, x);
        },
        (_, Component::Normal(y), Component::Normal(z)) => {
            lemma_text_less_order(y, z, y);
        },
        (_, _, _) => {},
    }
}

/// Comparing paths by their components is a strict total order on component sequences.
pub proof fn lemma_components_less_order(a: Seq<Component>, b: Seq<Component>, c: Seq<Component>)
    ensures
        !components_less(a, a),
        a != b ==> components_less(a, b) || components_less(b, a),
        components_less(a, b) && components_less(b, c) ==> components_less(a, c),
    decreases a.len(),
{
    if a.len() > 0 {
        lemma_components_less_order(a.drop_first(), b.drop_first(), c.drop_first());
        if b.len() > 0 {
            lemma_component_less_order(a[0], b[0], a[0]);
            if c.len() > 0 {
                lemma_component_less_order(a[0], b[0], c[0]);
                lemma_component_less_order(b[0], c[0], a[0]);
                lemma_component_less_order(a[0], c[0], b[0]);
            }
            if a[0] == b[0] && a != b {
                assert(a.drop_first() != b.drop_first()) by {
                    if a.drop_first() == b.drop_first() {
                        assert(a =~= seq![a[0]] + a.drop_first());
                        assert(b =~= seq![b[0]] + b.drop_first());
                    }
                }
            }
        }
    } else if b.len() == 0 && a != b {
        assert(a =~= b);
    }
}

/// Whether position `x` of `paths` comes before position `y` in a stable sort of paths.
pub open spec fn path_before(paths: Seq<Seq<char>>, x: usize, y: usize) -> bool {
    path_less(paths[x as int], paths[y as int]) || (!path_less(paths[y as int], paths[x as int])
        && x < y)
}

/// `order` lists the positions of `paths` as a stable sort arranges them.
pub open spec fn is_sorted_path_order(paths: Seq<Seq<char>>, order: Seq<usize>) -> bool {
    &&& order.len() == paths.len()
    &&& forall|k: int| 0 <= k < order.len() ==> order[k] < paths.len()
    &&& forall|a: int, b: int|
        0 <= a < b < order.len() ==> path_before(paths, #[trigger] order[a], #[trigger] order[b])
}

// ---------------------------------------------------------------------------
// Comparing and sorting
// ---------------------------------------------------------------------------

fn text_less_exec(a: &Vec<char>, b: &Vec<char>) -> (r: bool)
    ensures
        r == text_less(a@, b@),
{
    let mut i: usize = 0;
    assert(a@.skip(0) =~= a@);
    assert(b@.skip(0) =~= b@);
    while i < a.len() && i < b.len() && a[i] == b[i]
        invariant
            i <= a@.len(),
            i <= b@.len(),
            text_less(a@, b@) == text_less(a@.skip(i as int), b@.skip(i as int)),
        decreases a@.len() - i,
    {
        assert(a@.skip(i as int).drop_first() =~= a@.skip(i + 1));
        assert(b@.skip(i as int).drop_first() =~= b@.skip(i + 1));
        i = i + 1;
    }
    if i == a.len() {
        i < b.len()
    } else if i == b.len() {
        false
    } else {
        a[i] < b[i]
    }
}

fn chars_equal(a: &Vec<char>, b: &Vec<char>) -> (r: bool)
    ensures
        r == (a@ == b@),
{
    if a.len() != b.len() {
        return false;
    }
    let mut i: usize = 0;
    while i < a.len()
        invariant
            a@.len() == b@.len(),
            i <= a@.len(),
            forall|k: int| 0 <= k < i ==> a@[k] == b@[k],
        decreases a@.len() - i,
    {
        if a[i] != b[i] {
            return false;
        }
        i = i + 1;
    }
    assert(a@ =~= b@);
    true
}

fn component_rank_of(c: &ComponentValue) -> (r: u8)
    ensures
        r as int == component_rank(component_view(*c)),
{
    match c {
        ComponentValue::RootDir => 1,
        ComponentValue::CurDir => 2,
        ComponentValue::ParentDir => 3,
        ComponentValue::Normal(_) => 4,
    }
}

fn component_equal(a: &ComponentValue, b: &ComponentValue) -> (r: bool)
    ensures
        r == (component_view(*a) == component_view(*b)),
{
    match (a, b) {
        (ComponentValue::Normal(x), ComponentValue::Normal(y)) => chars_equal(x, y),
        _ => component_rank_of(a) == component_rank_of(b),
    }
}

fn component_less_exec(a: &ComponentValue, b: &ComponentValue) -> (r: bool)
    ensures
        r == component_less(component_view(*a), component_view(*b)),
{
    match (a, b) {
        (ComponentValue::Normal(x), ComponentValue::Normal(y)) => text_less_exec(x, y),
        _ => component_rank_of(a) < component_rank_of(b),
    }
}

fn components_less_exec(a: &Vec<ComponentValue>, b: &Vec<ComponentValue>) -> (r: bool)
    ensures
        r == components_less(components_view(a@), components_view(b@)),
{
    let ghost av = components_view(a@);
    let ghost bv = components_view(b@);
    let mut i: usize = 0;
    assert(av.skip(0) =~= av);
    assert(bv.skip(0) =~= bv);
    while i < a.len() && i < b.len() && component_equal(&a[i], &b[i])
        invariant
            av == components_view(a@),
            bv == components_view(b@),
            i <= a@.len(),
            i <= b@.len(),
            components_less(av, bv) == components_less(av.skip(i as int), bv.skip(i as int)),
        decreases a@.len() - i,
    {
        assert(av.skip(i as int).drop_first() =~= av.skip(i + 1));
        assert(bv.skip(i as int).drop_first() =~= bv.skip(i + 1));
        i = i + 1;
    }
    if i == a.len() {
        i < b.len()
    } else if i == b.len() {
        false
    } else {
        component_less_exec(&a[i], &b[i])
    }
}

/// Whether path `a` sorts before path `b` (`a < b` for `Path`).
pub fn path_less_than(a: &str, b: &str) -> (r: bool)
    ensures
        r == path_less(a@, b@),
{
    let x = path_components(a);
    let y = path_components(b);
    components_less_exec(&x, &y)
}

/// The texts of some paths.
pub open spec fn path_texts(paths: Seq<String>) -> Seq<Seq<char>> {
    paths.map_values(|p: String| p@)
}

/// The files to upload, sorted as paths (`Vec<PathBuf>::sort`): by their components, and
/// in their given order where they compare equal.
pub fn sort_paths(paths: Vec<String>) -> (r: Vec<String>)
    ensures
        r@.len() == paths@.len(),
        exists|order: Seq<usize>|
            {
                &&& #[trigger] is_sorted_path_order(path_texts(paths@), order)
                &&& forall|k: int|
                    0 <= k < r@.len() ==> (#[trigger] r@[k])@ == paths@[order[k] as int]@
            },
{
    let ghost ps = path_texts(paths@);
    let mut comps: Vec<Vec<ComponentValue>> = Vec::new();
    let mut j: usize = 0;
    while j < paths.len()
        invariant
            j <= paths@.len(),
            ps == path_texts(paths@),
            comps@.len() == j,
            forall|k: int| 0 <= k < j ==> components_view((#[trigger] comps@[k])@) == components(ps[k]),
        decreases paths@.len() - j,
    {
        comps.push(path_components(paths[j].as_str()));
        j = j + 1;
    }
    let mut order: Vec<usize> = Vec::new();
    let mut i: usize = 0;
    while i < paths.len()
        invariant
            i <= paths@.len(),
            ps == path_texts(paths@),
            comps@.len() == paths@.len(),
            forall|k: int|
                0 <= k < paths@.len() ==> components_view((#[trigger] comps@[k])@) == components(ps[k]),
            order@.len() == i,
            forall|k: int| 0 <= k < order@.len() ==> order@[k] < i,
            forall|a: int, b: int|
                0 <= a < b < order@.len() ==> path_before(ps, #[trigger] order@[a], #[trigger] order@[b]),
        decreases paths@.len() - i,
    {
        let mut pos = order.len();
        while pos > 0 && components_less_exec(&comps[i], &comps[order[pos - 1]])
            invariant
                pos <= order@.len(),
                order@.len() == i,
                i < paths@.len(),
                comps@.len() == paths@.len(),
                forall|k: int|
                    0 <= k < paths@.len() ==> components_view((#[trigger] comps@[k])@) == components(ps[k]),
                forall|k: int| 0 <= k < order@.len() ==> order@[k] < i,
                forall|k: int| pos <= k < order@.len() ==> path_less(ps[i as int], ps[order@[k] as int]),
            decreases pos,
        {
            pos = pos - 1;
        }
        proof {
            assert forall|k: int| 0 <= k < pos implies !path_less(ps[i as int], ps[order@[k] as int]) by {
                let e = components(ps[order@[k] as int]);
                let last = components(ps[order@[pos - 1] as int]);
                let me = components(ps[i as int]);
                assert(!components_less(me, last));
                if k < pos - 1 {
                    assert(path_before(ps, order@[k], order@[pos - 1]));
                    lemma_components_less_order(me, e, last);
                    lemma_components_less_order(e, last, me);
                    lemma_components_less_order(last, me, e);
                    lemma_components_less_order(me, last, e);
                    lemma_components_less_order(e, me, last);
                    lemma_components_less_order(last, e, me);
                }
            }
        }
        let ghost old_order = order@;
        order.insert(pos, i);
        proof {
            assert forall|a: int, b: int|
                0 <= a < b < order@.len() implies path_before(ps, #[trigger] order@[a], #[trigger] order@[b]) by {
                if b < pos {
                    assert(order@[a] == old_order[a] && order@[b] == old_order[b]);
                } else if b == pos {
                    assert(order@[a] == old_order[a]);
                } else if a < pos {
                    assert(order@[a] == old_order[a] && order@[b] == old_order[b - 1]);
                } else if a == pos {
                    assert(order@[b] == old_order[b - 1]);
                } else {
                    assert(order@[a] == old_order[a - 1] && order@[b] == old_order[b - 1]);
                }
            }
        }
        i = i + 1;
    }
    let mut sorted: Vec<String> = Vec::new();
    let mut m: usize = 0;
    while m < order.len()
        invariant
            m <= order@.len(),
            ps == path_texts(paths@),
            is_sorted_path_order(ps, order@),
            sorted@.len() == m,
            forall|k: int| 0 <= k < m ==> (#[trigger] sorted@[k])@ == paths@[order@[k] as int]@,
        decreases order@.len() - m,
    {
        let idx = order[m];
        sorted.push(paths[idx].clone());
        m = m + 1;
    }
    sorted
}

} // verus!
