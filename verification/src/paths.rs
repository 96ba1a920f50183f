//! File paths as text, read the way `std::path::Path` reads them on Unix.
use vstd::prelude::*;
use crate::text::{chars_of, copy_str, str_eq, string_of};

verus! {

/// A segment that names something: neither empty nor `.`.
pub open spec fn is_name_segment(seg: Seq<char>) -> bool {
    seg.len() > 0 && seg != "."@
}

/// The last naming segment of `s`, given the segment `cur` being read and the last one
/// `last` seen before it.
pub open spec fn last_segment_from(s: Seq<char>, cur: Seq<char>, last: Option<Seq<char>>) -> Option<
    Seq<char>,
>
    decreases s.len(),
{
    let closed = if is_name_segment(cur) {
        Some(cur)
    } else {
        last
    };
    if s.len() == 0 {
        closed
    } else if s[0] == '/' {
        last_segment_from(s.drop_first(), Seq::empty(), closed)
    } else {
        last_segment_from(s.drop_first(), cur.push(s[0]), last)
    }
}

/// The last component of a path, if it has one besides the root and `.`.
pub open spec fn last_component(path: Seq<char>) -> Option<Seq<char>> {
    last_segment_from(path, Seq::empty(), None)
}

/// `Path::file_name`: the last component, unless it is `..`.
pub open spec fn file_name(path: Seq<char>) -> Option<Seq<char>> {
    match last_component(path) {
        Some(n) => if n == ".."@ {
            None
        } else {
            Some(n)
        },
        None => None,
    }
}

/// Where the extension of a file name starts: after its last dot, when that dot is not
/// the first character.
pub open spec fn is_last_dot(name: Seq<char>, i: int) -> bool {
    0 < i < name.len() && name[i] == '.' && forall|j: int| i < j < name.len() ==> name[j] != '.'
}

/// `Path::file_stem` of a file name: the name up to its last dot, or the whole name.
pub open spec fn stem_of(name: Seq<char>) -> Seq<char> {
    if name == ".."@ {
        name
    } else if exists|i: int| is_last_dot(name, i) {
        name.take(choose|i: int| is_last_dot(name, i))
    } else {
        name
    }
}

/// `Path::extension` of a file name: what follows its last dot.
pub open spec fn extension_of(name: Seq<char>) -> Option<Seq<char>> {
    if name == ".."@ {
        None
    } else if exists|i: int| is_last_dot(name, i) {
        Some(name.skip((choose|i: int| is_last_dot(name, i)) + 1))
    } else {
        None
    }
}

pub open spec fn file_stem(path: Seq<char>) -> Option<Seq<char>> {
    match file_name(path) {
        Some(n) => Some(stem_of(n)),
        None => None,
    }
}

pub open spec fn extension(path: Seq<char>) -> Option<Seq<char>> {
    match file_name(path) {
        Some(n) => extension_of(n),
        None => None,
    }
}

proof fn lemma_last_dot_unique(name: Seq<char>, i: int, j: int)
    requires
        is_last_dot(name, i),
        is_last_dot(name, j),
    ensures
        i == j,
{
}

/// The file name of a path (`Path::file_name`).
pub fn path_file_name(path: &str) -> (r: Option<String>)
    ensures
        match r {
            Some(n) => file_name(path@) == Some(n@),
            None => file_name(path@) is None,
        },
{
    let mut cur: Vec<char> = Vec::new();
    let mut last: Option<Vec<char>> = None;
    let ghost s = path@;
    let mut i: usize = 0;
    let n = path.unicode_len();
    assert(s.skip(0) =~= s);
    assert(cur@ =~= Seq::<char>::empty());
    while i < n
        invariant
            s == path@,
            n == s.len(),
            i <= n,
            last_segment_from(s.skip(i as int), cur@, match last {
                Some(l) => Some(l@),
                None => None,
            }) == last_component(s),
        decreases n - i,
    {
        let c = path.get_char(i);
        let ghost t = s.skip(i as int);
        assert(t[0] == c);
        assert(t.drop_first() =~= s.skip(i + 1));
        if c == '/' {
            if cur.len() > 0 && !(cur.len() == 1 && cur[0] == '.') {
                proof {
                    assert(is_name_segment(cur@)) by {
                        if cur@ == "."@ {
                            reveal_strlit(".");
                            assert(cur@.len() == 1 && cur@[0] == '.');
                        }
                    }
                }
                last = Some(cur);
            } else {
                proof {
                    reveal_strlit(".");
                    if cur@.len() == 1 {
                        assert(cur@ =~= "."@);
                    }
                    assert(!is_name_segment(cur@));
                }
            }
            cur = Vec::new();
        } else {
            cur.push(c);
        }
        i = i + 1;
    }
    proof {
        assert(s.skip(i as int).len() == 0);
    }
    let closed = if cur.len() > 0 && !(cur.len() == 1 && cur[0] == '.') {
        proof {
            assert(is_name_segment(cur@)) by {
                if cur@ == "."@ {
                    reveal_strlit(".");
                    assert(cur@.len() == 1 && cur@[0] == '.');
                }
            }
        }
        Some(cur)
    } else {
        proof {
            reveal_strlit(".");
            if cur@.len() == 1 {
                assert(cur@ =~= "."@);
            }
            assert(!is_name_segment(cur@));
        }
        last
    };
    match closed {
        Some(name) => {
            let name_str = crate::text::string_of(name.as_slice());
            if str_eq(name_str.as_str(), "..") {
                None
            } else {
                Some(name_str)
            }
        },
        None => None,
    }
}

/// The characters `a..b` of a sequence, as a string.
pub fn substring(cs: &Vec<char>, a: usize, b: usize) -> (r: String)
    requires
        a <= b <= cs@.len(),
    ensures
        r@ == cs@.subrange(a as int, b as int),
{
    let mut out: Vec<char> = Vec::new();
    let mut i = a;
    while i < b
        invariant
            a <= i <= b <= cs@.len(),
            out@ == cs@.subrange(a as int, i as int),
        decreases b - i,
    {
        out.push(cs[i]);
        i = i + 1;
        assert(out@ =~= cs@.subrange(a as int, i as int));
    }
    string_of(out.as_slice())
}

/// Splits a file name into its stem and its extension (`Path::file_stem` and
/// `Path::extension` of a path that ends with this name).
pub fn split_file_name(name: &str) -> (r: (String, Option<String>))
    ensures
        r.0@ == stem_of(name@),
        match r.1 {
            Some(e) => extension_of(name@) == Some(e@),
            None => extension_of(name@) is None,
        },
{
    if str_eq(name, "..") {
        return (copy_str(name), None);
    }
    let cs = chars_of(name);
    let mut i = cs.len();
    while i > 0 && cs[i - 1] != '.'
        invariant
            cs@ == name@,
            i <= cs@.len(),
            forall|j: int| i <= j < cs@.len() ==> cs@[j] != '.',
        decreases i,
    {
        i = i - 1;
    }
    if i >= 2 {
        let dot = i - 1;
        proof {
            assert(is_last_dot(name@, dot as int));
            let k = choose|k: int| is_last_dot(name@, k);
            lemma_last_dot_unique(name@, k, dot as int);
        }
        let stem = substring(&cs, 0, dot);
        let ext = substring(&cs, dot + 1, cs.len());
        assert(cs@.subrange(0, dot as int) =~= name@.take(dot as int));
        assert(cs@.subrange(dot + 1, cs@.len() as int) =~= name@.skip(dot + 1));
        (stem, Some(ext))
    } else {
        proof {
            assert forall|k: int| !is_last_dot(name@, k) by {
                if is_last_dot(name@, k) {
                    if k >= i {
                        assert(cs@[k] != '.');
                    }
                }
            }
        }
        (copy_str(name), None)
    }
}

} // verus!
