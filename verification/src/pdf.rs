//! Ingesting a PDF: how its pages are rendered, which rendered files are pages and in
//! what order, and the text documents made of them.
use vstd::prelude::*;
use crate::number::{parse_usize, parse_usize_spec};
use crate::paths::{
    extension, file_name, file_stem, path_file_name, split_file_name, substring,
};
use crate::text::{
    chars_of, concat2, copy_str, decimal, decimal_string, eq_ignore_ascii_case,
    eq_ignore_ascii_case_str, trim, trim_str, zero_pad, zero_padded_decimal,
};

verus! {

/// The prompt that asks a model for the text of a page image.
pub const OCR_PROMPT: &'static str = "Extract all readable text from this page image. Preserve headings, paragraphs, lists, equations, and table text as plain text. Return only the extracted page text.";

/// What can go wrong while rendering a PDF.
pub enum PdfError {
    /// The first page asked for comes after the last.
    PageRange,
    /// `pdftoppm` ended with a failure.
    RenderFailed { status: String, stderr: String },
    /// `pdftoppm` wrote no JPEG page.
    NoPages { pdf: String },
}

pub open spec fn pdf_error_message(e: PdfError) -> Seq<char> {
    match e {
        PdfError::PageRange => "--first-page cannot be greater than --last-page"@,
        PdfError::RenderFailed { status, stderr } => "pdftoppm failed with status "@ + status@
            + ": "@ + trim(stderr@),
        PdfError::NoPages { pdf } => "pdftoppm did not produce any JPEG pages for "@ + pdf@,
    }
}

impl PdfError {
    pub fn message(&self) -> (r: String)
        ensures
            r@ == pdf_error_message(*self),
    {
        match self {
            PdfError::PageRange => copy_str("--first-page cannot be greater than --last-page"),
            PdfError::RenderFailed { status, stderr } => {
                let a = concat2("pdftoppm failed with status ", status.as_str());
                let b = concat2(a.as_str(), ": ");
                concat2(b.as_str(), trim_str(stderr.as_str()).as_str())
            },
            PdfError::NoPages { pdf } => concat2(
                "pdftoppm did not produce any JPEG pages for ",
                pdf.as_str(),
            ),
        }
    }
}

/// `dir.join(name)` for a relative `name`: a separator goes between them unless `dir` is
/// empty or already ends with one.
pub open spec fn path_join(dir: Seq<char>, name: Seq<char>) -> Seq<char> {
    if name.len() > 0 && name[0] == '/' {
        name
    } else if dir.len() > 0 && dir.last() != '/' {
        dir + "/"@ + name
    } else {
        dir + name
    }
}

pub fn join_path(dir: &str, name: &str) -> (r: String)
    ensures
        r@ == path_join(dir@, name@),
{
    let n = name.unicode_len();
    if n > 0 && name.get_char(0) == '/' {
        return copy_str(name);
    }
    let d = dir.unicode_len();
    if d > 0 && dir.get_char(d - 1) != '/' {
        let a = concat2(dir, "/");
        concat2(a.as_str(), name)
    } else {
        concat2(dir, name)
    }
}

/// How `pdftoppm` is run: its arguments and the prefix of the files it writes.
pub struct RenderPlan {
    pub args: Vec<String>,
    pub output_prefix: String,
}

/// The prefix of the rendered pages: `<stem>-page` in the directory, where the stem is
/// that of the PDF (`document` when it has none).
pub open spec fn output_prefix(pdf: Seq<char>, temp_dir: Seq<char>) -> Seq<char> {
    path_join(
        temp_dir,
        match file_stem(pdf) {
            Some(s) => s,
            None => "document"@,
        } + "-page"@,
    )
}

/// The arguments of `pdftoppm`: JPEG output at the resolution, the page range when
/// given, the PDF and the output prefix.
pub open spec fn render_args(
    pdf: Seq<char>,
    dpi: u16,
    first_page: Option<u16>,
    last_page: Option<u16>,
    prefix: Seq<char>,
) -> Seq<Seq<char>> {
    seq!["-jpeg"@, "-r"@, decimal(dpi as nat)] + match first_page {
        Some(f) => seq!["-f"@, decimal(f as nat)],
        None => Seq::empty(),
    } + match last_page {
        Some(l) => seq!["-l"@, decimal(l as nat)],
        None => Seq::empty(),
    } + seq![pdf, prefix]
}

/// Plans the rendering of a PDF into a temporary directory. A first page after the last
/// page is refused.
pub fn render_plan(
    pdf: &str,
    dpi: u16,
    first_page: Option<u16>,
    last_page: Option<u16>,
    temp_dir: &str,
) -> (r: Result<RenderPlan, PdfError>)
    ensures
        r is Err <==> (first_page is Some && last_page is Some && first_page->0 > last_page->0),
        match r {
            Ok(p) => {
                &&& p.output_prefix@ == output_prefix(pdf@, temp_dir@)
                &&& p.args@.map_values(|a: String| a@) == render_args(
                    pdf@,
                    dpi,
                    first_page,
                    last_page,
                    p.output_prefix@,
                )
            },
            Err(e) => e is PageRange,
        },
{
    if let (Some(f), Some(l)) = (first_page, last_page) {
        if f > l {
            return Err(PdfError::PageRange);
        }
    }
    let stem = match path_file_name(pdf) {
        Some(name) => split_file_name(name.as_str()).0,
        None => copy_str("document"),
    };
    let name = concat2(stem.as_str(), "-page");
    let output_prefix = join_path(temp_dir, name.as_str());
    let mut args: Vec<String> = Vec::new();
    args.push(copy_str("-jpeg"));
    args.push(copy_str("-r"));
    args.push(decimal_string(dpi as u128));
    let ghost a0 = args@.map_values(|a: String| a@);
    assert(a0 =~= seq!["-jpeg"@, "-r"@, decimal(dpi as nat)]);
    if let Some(f) = first_page {
        args.push(copy_str("-f"));
        args.push(decimal_string(f as u128));
    }
    let ghost a1 = args@.map_values(|a: String| a@);
    assert(a1 =~= a0 + match first_page {
        Some(f) => seq!["-f"@, decimal(f as nat)],
        None => Seq::<Seq<char>>::empty(),
    });
    if let Some(l) = last_page {
        args.push(copy_str("-l"));
        args.push(decimal_string(l as u128));
    }
    let ghost a2 = args@.map_values(|a: String| a@);
    assert(a2 =~= a1 + match last_page {
        Some(l) => seq!["-l"@, decimal(l as nat)],
        None => Seq::<Seq<char>>::empty(),
    });
    args.push(copy_str(pdf));
    args.push(output_prefix.clone());
    assert(args@.map_values(|a: String| a@) =~= a2 + seq![pdf@, output_prefix@]);
    Ok(RenderPlan { args, output_prefix })
}

// ---------------------------------------------------------------------------
// Rendered pages
// ---------------------------------------------------------------------------

/// A rendered page: a file whose extension is `jpg`, in any case.
pub open spec fn is_rendered_page(path: Seq<char>) -> bool {
    match extension(path) {
        Some(e) => eq_ignore_ascii_case(e, "jpg"@),
        None => false,
    }
}

pub fn is_rendered_jpeg(path: &str) -> (r: bool)
    ensures
        r == is_rendered_page(path@),
{
    match path_file_name(path) {
        Some(name) => match split_file_name(name.as_str()).1 {
            Some(e) => eq_ignore_ascii_case_str(e.as_str(), "jpg"),
            None => false,
        },
        None => false,
    }
}

/// Where the last `-` of a text is.
pub open spec fn is_last_dash(s: Seq<char>, i: int) -> bool {
    0 <= i < s.len() && s[i] == '-' && forall|j: int| i < j < s.len() ==> s[j] != '-'
}

/// What follows the last `-` of a text (`rsplit_once('-')`).
pub open spec fn after_last_dash(s: Seq<char>) -> Option<Seq<char>> {
    if exists|i: int| is_last_dash(s, i) {
        Some(s.skip((choose|i: int| is_last_dash(s, i)) + 1))
    } else {
        None
    }
}

/// The page number of a rendered page: the number after the last `-` of its stem.
pub open spec fn page_number(path: Seq<char>) -> Option<int> {
    match file_stem(path) {
        Some(stem) => match after_last_dash(stem) {
            Some(t) => match parse_usize_spec(t) {
                Ok(n) => Some(n),
                Err(_) => None,
            },
            None => None,
        },
        None => None,
    }
}

/// The number of the page a file was rendered from.
pub fn rendered_page_number(path: &str) -> (r: Option<usize>)
    ensures
        match r {
            Some(n) => page_number(path@) == Some(n as int),
            None => page_number(path@) is None,
        },
{
    let name = match path_file_name(path) {
        Some(n) => n,
        None => return None,
    };
    let stem = split_file_name(name.as_str()).0;
    let cs = chars_of(stem.as_str());
    let mut i = cs.len();
    while i > 0 && cs[i - 1] != '-'
        invariant
            cs@ == stem@,
            i <= cs@.len(),
            forall|j: int| i <= j < cs@.len() ==> cs@[j] != '-',
        decreases i,
    {
        i = i - 1;
    }
    if i == 0 {
        proof {
            assert forall|k: int| !is_last_dash(stem@, k) by {
                if is_last_dash(stem@, k) {
                    assert(cs@[k] != '-');
                }
            }
        }
        return None;
    }
    let dash = i - 1;
    proof {
        assert(is_last_dash(stem@, dash as int));
        let k = choose|k: int| is_last_dash(stem@, k);
        assert(k == dash as int) by {
            if k < dash {
                assert(stem@[dash as int] != '-');
            }
            if k > dash {
                assert(stem@[k] != '-');
            }
        }
    }
    let rest = substring(&cs, i, cs.len());
    assert(cs@.subrange(i as int, cs@.len() as int) =~= stem@.skip(dash + 1));
    match parse_usize(rest.as_str()) {
        Ok(n) => Some(n),
        Err(_) => None,
    }
}

/// The key pages are sorted by: their number, unnumbered pages last.
pub open spec fn page_key(path: Seq<char>) -> int {
    match page_number(path) {
        Some(n) => n,
        None => usize::MAX as int,
    }
}

/// Whether position `x` comes before position `y` when sorting stably by `keys`.
pub open spec fn key_before(keys: Seq<usize>, x: usize, y: usize) -> bool {
    keys[x as int] < keys[y as int] || (keys[x as int] == keys[y as int] && x < y)
}

/// `order` lists the positions of `keys` as a stable sort by key arranges them.
pub open spec fn is_stable_order(keys: Seq<usize>, order: Seq<usize>) -> bool {
    &&& order.len() == keys.len()
    &&& forall|k: int| 0 <= k < order.len() ==> order[k] < keys.len()
    &&& forall|a: int, b: int|
        0 <= a < b < order.len() ==> key_before(keys, #[trigger] order[a], #[trigger] order[b])
}

/// The positions of `keys` in the order of a stable sort by key.
pub fn stable_order(keys: &Vec<usize>) -> (r: Vec<usize>)
    ensures
        is_stable_order(keys@, r@),
{
    let mut order: Vec<usize> = Vec::new();
    let mut i: usize = 0;
    while i < keys.len()
        invariant
            i <= keys@.len(),
            order@.len() == i,
            forall|k: int| 0 <= k < order@.len() ==> order@[k] < i,
            forall|a: int, b: int|
                0 <= a < b < order@.len() ==> key_before(
                    keys@,
                    #[trigger] order@[a],
                    #[trigger] order@[b],
                ),
        decreases keys@.len() - i,
    {
        let key = keys[i];
        let mut pos = order.len();
        while pos > 0 && keys[order[pos - 1]] > key
            invariant
                pos <= order@.len(),
                order@.len() == i,
                i < keys@.len(),
                key == keys@[i as int],
                forall|k: int| 0 <= k < order@.len() ==> order@[k] < i,
                forall|k: int| pos <= k < order@.len() ==> keys@[order@[k] as int] > key,
            decreases pos,
        {
            pos = pos - 1;
        }
        proof {
            assert forall|k: int| 0 <= k < pos implies keys@[order@[k] as int] <= key by {
                if keys@[order@[k] as int] > key {
                    assert(key_before(keys@, order@[k], order@[pos - 1]) || k == pos - 1);
                }
            }
        }
        let ghost old_order = order@;
        order.insert(pos, i);
        proof {
            assert(order@ == old_order.insert(pos as int, i));
            assert forall|a: int, b: int|
                0 <= a < b < order@.len() implies key_before(
                keys@,
                #[trigger] order@[a],
                #[trigger] order@[b],
            ) by {
                if b < pos {
                    assert(order@[a] == old_order[a] && order@[b] == old_order[b]);
                } else if b == pos {
                    assert(order@[a] == old_order[a]);
                    assert(keys@[old_order[a] as int] <= key);
                } else if a < pos {
                    assert(order@[a] == old_order[a] && order@[b] == old_order[b - 1]);
                } else if a == pos {
                    assert(order@[b] == old_order[b - 1]);
                    assert(keys@[old_order[b - 1] as int] > key);
                } else {
                    assert(order@[a] == old_order[a - 1] && order@[b] == old_order[b - 1]);
                }
            }
        }
        i = i + 1;
    }
    order
}

/// The rendered pages among the files of a directory, in the order they were listed.
pub open spec fn rendered_files(entries: Seq<Seq<char>>) -> Seq<Seq<char>>
    decreases entries.len(),
{
    if entries.len() == 0 {
        Seq::empty()
    } else {
        rendered_files(entries.drop_last()) + if is_rendered_page(entries.last()) {
            seq![entries.last()]
        } else {
            Seq::empty()
        }
    }
}

/// The sort keys of a sequence of pages.
pub open spec fn page_keys(pages: Seq<Seq<char>>) -> Seq<usize> {
    pages.map_values(|p: Seq<char>| page_key(p) as usize)
}

fn page_sort_key(path: &str) -> (r: usize)
    ensures
        r as int == page_key(path@),
{
    match rendered_page_number(path) {
        Some(n) => n,
        None => usize::MAX,
    }
}

/// The rendered pages of a PDF among the files of its render directory: the `.jpg` files,
/// sorted stably by page number, unnumbered ones last. No page at all is an error.
pub fn rendered_pages(pdf: &str, entries: Vec<String>) -> (r: Result<Vec<String>, PdfError>)
    ensures
        match r {
            Ok(pages) => {
                let found = rendered_files(entries@.map_values(|e: String| e@));
                &&& found.len() > 0
                &&& pages@.len() == found.len()
                &&& exists|order: Seq<usize>|
                    {
                        &&& is_stable_order(page_keys(found), order)
                        &&& forall|k: int|
                            0 <= k < pages@.len() ==> (#[trigger] pages@[k])@ == found[order[k] as int]
                    }
            },
            Err(e) => {
                &&& rendered_files(entries@.map_values(|e: String| e@)).len() == 0
                &&& e matches PdfError::NoPages { pdf: p } && p@ == pdf@
            },
        },
{
    let ghost ev = entries@.map_values(|e: String| e@);
    let mut found: Vec<String> = Vec::new();
    let mut i: usize = 0;
    while i < entries.len()
        invariant
            i <= entries@.len(),
            ev == entries@.map_values(|e: String| e@),
            found@.map_values(|e: String| e@) == rendered_files(ev.take(i as int)),
        decreases entries@.len() - i,
    {
        let keep = is_rendered_jpeg(entries[i].as_str());
        proof {
            assert(ev.take(i + 1).drop_last() =~= ev.take(i as int));
            assert(ev.take(i + 1).last() == entries@[i as int]@);
        }
        if keep {
            let ghost before = found@.map_values(|e: String| e@);
            found.push(entries[i].clone());
            assert(found@.map_values(|e: String| e@) =~= before.push(entries@[i as int]@));
        } else {
            assert(rendered_files(ev.take(i + 1)) =~= rendered_files(ev.take(i as int)));
        }
        i = i + 1;
    }
    assert(ev.take(entries@.len() as int) =~= ev);
    let ghost fv = found@.map_values(|e: String| e@);
    if found.len() == 0 {
        return Err(PdfError::NoPages { pdf: copy_str(pdf) });
    }
    let mut keys: Vec<usize> = Vec::new();
    let mut j: usize = 0;
    while j < found.len()
        invariant
            j <= found@.len(),
            fv == found@.map_values(|e: String| e@),
            keys@ == page_keys(fv).take(j as int),
        decreases found@.len() - j,
    {
        let k = page_sort_key(found[j].as_str());
        keys.push(k);
        assert(keys@ =~= page_keys(fv).take(j + 1));
        j = j + 1;
    }
    assert(keys@ =~= page_keys(fv));
    let order = stable_order(&keys);
    let mut pages: Vec<String> = Vec::new();
    let mut m: usize = 0;
    while m < order.len()
        invariant
            m <= order@.len(),
            fv == found@.map_values(|e: String| e@),
            is_stable_order(page_keys(fv), order@),
            keys@.len() == fv.len(),
            pages@.len() == m,
            forall|k: int| 0 <= k < m ==> (#[trigger] pages@[k])@ == fv[order@[k] as int],
        decreases order@.len() - m,
    {
        let idx = order[m];
        pages.push(found[idx].clone());
        m = m + 1;
    }
    Ok(pages)
}

// ---------------------------------------------------------------------------
// Text documents made by OCR
// ---------------------------------------------------------------------------

/// The name of the text document of page `index` (from 0): `page-0001.txt` and so on.
pub open spec fn ocr_document_name_text(index: nat) -> Seq<char> {
    "page-"@ + zero_pad(decimal(index + 1), 4) + ".txt"@
}

/// The path of the text document of page `index` in the temporary directory.
pub fn ocr_document_path(temp_dir: &str, index: usize) -> (r: String)
    requires
        index < usize::MAX,
    ensures
        r@ == path_join(temp_dir@, ocr_document_name_text(index as nat)),
{
    let number = zero_padded_decimal((index + 1) as u128, 4);
    let a = concat2("page-", number.as_str());
    let name = concat2(a.as_str(), ".txt");
    join_path(temp_dir, name.as_str())
}

/// The text document of a page: the image it was read from, its number, and its text.
pub open spec fn ocr_document_text(page_path: Seq<char>, index: nat, text: Seq<char>) -> Seq<char> {
    "Source image: "@ + match file_name(page_path) {
        Some(n) => n,
        None => "rendered-page.jpg"@,
    } + "\nPage: "@ + decimal(index + 1) + "\n\n"@ + trim(text)
}

pub fn ocr_document_body(page_path: &str, index: usize, text: &str) -> (r: String)
    requires
        index < usize::MAX,
    ensures
        r@ == ocr_document_text(page_path@, index as nat, text@),
{
    let name = match path_file_name(page_path) {
        Some(n) => n,
        None => copy_str("rendered-page.jpg"),
    };
    let a = concat2("Source image: ", name.as_str());
    let b = concat2(a.as_str(), "\nPage: ");
    let c = concat2(b.as_str(), decimal_string((index + 1) as u128).as_str());
    let d = concat2(c.as_str(), "\n\n");
    concat2(d.as_str(), trim_str(text).as_str())
}

} // verus!
