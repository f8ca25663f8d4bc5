//! The checks an SVG image passes before a snapshot embeds it: no active or
//! remote content, no event-handler attributes, an `<svg>` root element first,
//! and the texts of the root's `width`, `height` and `viewBox` attributes, which
//! give the image's size.
use vstd::prelude::*;
use vstd::utf8::*;
use crate::encoding::string_from_utf8;
use crate::text::{
    ascii_lowercase, chars_of, find_at, find_from, has_prefix, is_ascii_alnum, is_ascii_alpha,
    is_ascii_space, lemma_find_from, matches_at, starts_with, string_from_chars, to_ascii_lowercase,
    trim_start, trimmed_start, contains, contains_seq, is_ascii_whitespace, push_str, trim, trimmed,
};
use crate::paths::{string_views, views};

verus! {

/// Character classes the SVG scanner skips over.
pub enum Run {
    /// ASCII whitespace.
    Space,
    /// Characters of an XML attribute name: ASCII letters and digits, `:`, `_`, `-`.
    Name,
    /// Anything up to the next ASCII whitespace or `>`.
    Word,
    /// ASCII letters.
    Alpha,
    /// The byte-order mark U+FEFF.
    Bom,
}

pub open spec fn in_run(c: char, run: Run) -> bool {
    match run {
        Run::Space => is_ascii_space(c),
        Run::Name => is_ascii_alnum(c) || c == ':' || c == '_' || c == '-',
        Run::Word => !is_ascii_space(c) && c != '>',
        Run::Alpha => is_ascii_alpha(c),
        Run::Bom => c == '\u{feff}',
    }
}

/// The first position at or after `i` whose character is not in `run`.
pub open spec fn skip_run(s: Seq<char>, i: int, run: Run) -> int
    decreases s.len() - i,
{
    if 0 <= i < s.len() && in_run(s[i], run) {
        skip_run(s, i + 1, run)
    } else {
        i
    }
}

/// What `skip_run` returns, stated by bounds and quantifiers.
pub proof fn lemma_skip_run(s: Seq<char>, i: int, run: Run)
    requires
        0 <= i,
    ensures
        i <= skip_run(s, i, run),
        i <= s.len() ==> skip_run(s, i, run) <= s.len(),
        i < s.len() && in_run(s[i], run) ==> skip_run(s, i, run) > i,
        forall|j: int| i <= j < skip_run(s, i, run) ==> in_run(#[trigger] s[j], run),
        skip_run(s, i, run) < s.len() ==> !in_run(s[skip_run(s, i, run)], run),
    decreases s.len() - i,
{
    if 0 <= i < s.len() && in_run(s[i], run) {
        lemma_skip_run(s, i + 1, run);
    }
}

fn in_run_exec(c: char, run: &Run) -> (r: bool)
    ensures
        r == in_run(c, *run),
{
    match run {
        Run::Space => is_ascii_whitespace(c),
        Run::Name => ('a' <= c && c <= 'z') || ('A' <= c && c <= 'Z') || ('0' <= c && c <= '9')
            || c == ':' || c == '_' || c == '-',
        Run::Word => !is_ascii_whitespace(c) && c != '>',
        Run::Alpha => ('a' <= c && c <= 'z') || ('A' <= c && c <= 'Z'),
        Run::Bom => c == '\u{feff}',
    }
}

/// The first position at or after `i` whose character is not in `run`.
pub fn skip_run_at(s: &[char], i: usize, run: Run) -> (r: usize)
    ensures
        r == skip_run(s@, i as int, run),
{
    let mut j = i;
    while j < s.len() && in_run_exec(s[j], &run)
        invariant
            i <= j,
            skip_run(s@, i as int, run) == skip_run(s@, j as int, run),
        decreases s@.len() - j,
    {
        j = j + 1;
    }
    j
}

/// The value of the attribute `name` in the start tag `tag`, scanning its
/// attributes from position `i`: whitespace separates attributes; `>` or `/`
/// ends the search; an attribute without `=` is skipped up to the next
/// whitespace or `>`; a value must be quoted with `'` or `"`, and an unquoted or
/// unterminated value ends the search.
pub open spec fn attr_scan(tag: Seq<char>, name: Seq<char>, i: int) -> Option<Seq<char>>
    decreases tag.len() - i,
{
    if i < 0 || i >= tag.len() {
        None
    } else {
        let j = skip_run(tag, i, Run::Space);
        if j < tag.len() && (tag[j] == '>' || tag[j] == '/') {
            None
        } else {
            let k = skip_run(tag, j, Run::Name);
            let m = skip_run(tag, k, Run::Space);
            if !(m < tag.len() && tag[m] == '=') {
                proof {
                    lemma_skip_run(tag, i, Run::Space);
                    lemma_skip_run(tag, j, Run::Name);
                    lemma_skip_run(tag, k, Run::Space);
                    lemma_skip_run(tag, m, Run::Word);
                }
                attr_scan(tag, name, skip_run(tag, m, Run::Word))
            } else {
                let v = skip_run(tag, m + 1, Run::Space);
                if v >= tag.len() {
                    None
                } else if tag[v] != '\'' && tag[v] != '"' {
                    None
                } else {
                    match find_from(tag, seq![tag[v]], v + 1) {
                        Some(p) => if tag.subrange(j, k) == name {
                            Some(tag.subrange(v + 1, p))
                        } else {
                            proof {
                                lemma_skip_run(tag, i, Run::Space);
                                lemma_skip_run(tag, j, Run::Name);
                                lemma_skip_run(tag, k, Run::Space);
                                lemma_skip_run(tag, m + 1, Run::Space);
                                lemma_find_from(tag, seq![tag[v]], v + 1);
                            }
                            attr_scan(tag, name, p + 1)
                        },
                        None => None,
                    }
                }
            }
        }
    }
}

/// The value of the attribute `name` in an SVG start tag (which begins `<svg`).
pub open spec fn svg_attr(tag: Seq<char>, name: Seq<char>) -> Option<Seq<char>> {
    attr_scan(tag, name, 4)
}

fn same_chars(a: &[char], lo: usize, hi: usize, b: &[char]) -> (r: bool)
    requires
        lo <= hi <= a@.len(),
    ensures
        r == (a@.subrange(lo as int, hi as int) == b@),
{
    if hi - lo != b.len() {
        return false;
    }
    let r = matches_at(a, lo, b);
    assert(r == (a@.subrange(lo as int, hi as int) == b@));
    r
}

/// The value of the attribute `expected` in the SVG start tag `tag`.
pub fn svg_attribute(tag: &[char], expected: &[char]) -> (r: Option<Vec<char>>)
    ensures
        r matches Some(v) ==> svg_attr(tag@, expected@) == Some(v@),
        r is None ==> svg_attr(tag@, expected@) is None,
{
    let mut index: usize = 4;
    while index < tag.len()
        invariant
            4 <= index,
            svg_attr(tag@, expected@) == attr_scan(tag@, expected@, index as int),
        decreases tag@.len() - index,
    {
        let ghost i = index as int;
        proof {
            lemma_skip_run(tag@, i, Run::Space);
        }
        let j = skip_run_at(tag, index, Run::Space);
        if j < tag.len() && (tag[j] == '>' || tag[j] == '/') {
            return None;
        }
        proof {
            lemma_skip_run(tag@, j as int, Run::Name);
        }
        let k = skip_run_at(tag, j, Run::Name);
        proof {
            lemma_skip_run(tag@, k as int, Run::Space);
        }
        let m = skip_run_at(tag, k, Run::Space);
        if !(m < tag.len() && tag[m] == '=') {
            proof {
                lemma_skip_run(tag@, m as int, Run::Word);
            }
            index = skip_run_at(tag, m, Run::Word);
            continue;
        }
        proof {
            lemma_skip_run(tag@, m + 1, Run::Space);
        }
        let v = skip_run_at(tag, m + 1, Run::Space);
        if v >= tag.len() {
            return None;
        }
        let quote = tag[v];
        if quote != '\'' && quote != '"' {
            return None;
        }
        let mut q: Vec<char> = Vec::new();
        q.push(quote);
        assert(q@ =~= seq![tag@[v as int]]);
        proof {
            lemma_find_from(tag@, q@, v + 1);
        }
        let p = match find_at(tag, q.as_slice(), v + 1) {
            Some(p) => p,
            None => {
                return None;
            },
        };
        if same_chars(tag, j, k, expected) {
            let value = vstd::slice::slice_to_vec(vstd::slice::slice_subrange(tag, v + 1, p));
            return Some(value);
        }
        index = p + 1;
    }
    None
}

/// An event-handler attribute (` on<letters> =`) starts at the whitespace at `i`
/// of the (lower-cased) SVG text `s`.
pub open spec fn event_attr_at(s: Seq<char>, i: int) -> bool {
    &&& 0 <= i
    &&& i + 3 <= s.len()
    &&& is_ascii_space(s[i])
    &&& s[i + 1] == 'o'
    &&& s[i + 2] == 'n'
    &&& skip_run(s, i + 3, Run::Alpha) > i + 3
    &&& skip_run(s, skip_run(s, i + 3, Run::Alpha), Run::Space) < s.len()
    &&& s[skip_run(s, skip_run(s, i + 3, Run::Alpha), Run::Space)] == '='
}

/// The text holds an event-handler attribute somewhere.
pub open spec fn has_event_attr(s: Seq<char>) -> bool {
    exists|i: int| event_attr_at(s, i)
}

/// Whether the (lower-cased) SVG text holds an event-handler attribute.
pub fn contains_svg_event_attribute(text: &[char]) -> (r: bool)
    ensures
        r == has_event_attr(text@),
{
    let mut index: usize = 0;
    while index < text.len()
        invariant
            index <= text@.len(),
            forall|j: int| 0 <= j < index ==> !event_attr_at(text@, j),
        decreases text@.len() - index,
    {
        if is_ascii_whitespace(text[index]) && text.len() - index >= 3 && text[index + 1] == 'o'
            && text[index + 2] == 'n' {
            proof {
                lemma_skip_run(text@, index + 3, Run::Alpha);
            }
            let k = skip_run_at(text, index + 3, Run::Alpha);
            if k > index + 3 {
                proof {
                    lemma_skip_run(text@, k as int, Run::Space);
                }
                let m = skip_run_at(text, k, Run::Space);
                if m < text.len() && text[m] == '=' {
                    assert(event_attr_at(text@, index as int));
                    return true;
                }
            }
        }
        index = index + 1;
    }
    assert forall|j: int| !event_attr_at(text@, j) by {
        if 0 <= j < text@.len() {
        } else {
        }
    }
    false
}

/// The `k`-th content pattern that an embedded SVG may not hold (in the
/// lower-cased text): document type and entity declarations, scripts, foreign
/// objects, remote references, style imports and `javascript:` URLs.
pub open spec fn forbidden_pattern(k: int) -> Seq<char> {
    if k == 0 {
        "<!doctype"@
    } else if k == 1 {
        "<!entity"@
    } else if k == 2 {
        "<script"@
    } else if k == 3 {
        "<foreignobject"@
    } else if k == 4 {
        "href=\"http"@
    } else if k == 5 {
        "href='http"@
    } else if k == 6 {
        "url(http"@
    } else if k == 7 {
        "@import"@
    } else {
        "javascript:"@
    }
}

/// How many forbidden patterns there are.
pub open spec fn forbidden_count() -> int {
    9
}

/// The first forbidden pattern, in list order, that occurs in `lower`.
pub open spec fn first_forbidden(lower: Seq<char>, from: int) -> Option<int>
    decreases forbidden_count() - from,
{
    if from < 0 || from >= forbidden_count() {
        None
    } else if contains(lower, forbidden_pattern(from)) {
        Some(from)
    } else {
        first_forbidden(lower, from + 1)
    }
}

fn forbidden_text(k: usize) -> (r: &'static str)
    requires
        k < 9,
    ensures
        r@ == forbidden_pattern(k as int),
{
    if k == 0 {
        "<!doctype"
    } else if k == 1 {
        "<!entity"
    } else if k == 2 {
        "<script"
    } else if k == 3 {
        "<foreignobject"
    } else if k == 4 {
        "href=\"http"
    } else if k == 5 {
        "href='http"
    } else if k == 6 {
        "url(http"
    } else if k == 7 {
        "@import"
    } else {
        "javascript:"
    }
}

/// The text after any leading byte-order marks and then leading whitespace.
pub open spec fn svg_start(text: Seq<char>) -> Seq<char> {
    trim_start(text.skip(skip_run(text, 0, Run::Bom)))
}

/// The SVG root start tag of `text`: after byte-order marks and whitespace, and
/// after an XML declaration (`<?xml ... ?>`) and the whitespace that follows
/// it, the text must begin with `<svg` and then whitespace or `>`; the tag runs
/// to the first `>`.
pub open spec fn svg_root_tag(text: Seq<char>) -> Result<Seq<char>, Seq<char>> {
    let r0 = svg_start(text);
    let declared = starts_with(r0, seq!['<', '?', 'x', 'm', 'l']);
    let end = find_from(r0, seq!['?', '>'], 0);
    if declared && end is None {
        Err("invalid SVG XML declaration"@)
    } else {
        let r = if declared {
            trim_start(r0.skip(end.unwrap() + 2))
        } else {
            r0
        };
        if !(starts_with(r, seq!['<', 's', 'v', 'g']) && r.len() > 4 && (is_ascii_space(r[4]) || r[4] == '>')) {
            Err("SVG root element must be first"@)
        } else {
            match find_from(r, seq!['>'], 0) {
                Some(t) => Ok(r.take(t + 1)),
                None => Err("unterminated SVG root element"@),
            }
        }
    }
}

/// The texts of the size attributes of an SVG root element.
pub struct SvgSize {
    pub width: Option<String>,
    pub height: Option<String>,
    pub view_box: Option<String>,
}

/// The views of the size attribute texts.
pub open spec fn svg_size_view(s: SvgSize) -> (Option<Seq<char>>, Option<Seq<char>>, Option<
    Seq<char>,
>) {
    (
        match s.width {
            Some(w) => Some(w@),
            None => None,
        },
        match s.height {
            Some(h) => Some(h@),
            None => None,
        },
        match s.view_box {
            Some(v) => Some(v@),
            None => None,
        },
    )
}

/// What the SVG checks make of a file's bytes: the text must be UTF-8, hold no
/// forbidden pattern and no event-handler attribute (both compared in ASCII
/// lower case), and have an `<svg>` root element first; the result is the texts
/// of the root's `width`, `height` and `viewBox` attributes.
pub open spec fn svg_check(bytes: Seq<u8>) -> Result<
    (Option<Seq<char>>, Option<Seq<char>>, Option<Seq<char>>),
    Seq<char>,
> {
    if !valid_utf8(bytes) {
        Err("SVG is not valid UTF-8"@)
    } else {
        let text = decode_utf8(bytes);
        let lower = ascii_lowercase(text);
        match first_forbidden(lower, 0) {
            Some(k) => Err("SVG contains forbidden content: "@ + forbidden_pattern(k)),
            None => if has_event_attr(lower) {
                Err("SVG contains an event-handler attribute"@)
            } else {
                match svg_root_tag(text) {
                    Ok(tag) => Ok(
                        (
                            svg_attr(tag, "width"@),
                            svg_attr(tag, "height"@),
                            svg_attr(tag, "viewBox"@),
                        ),
                    ),
                    Err(e) => Err(e),
                }
            },
        }
    }
}

fn owned_attr(tag: &[char], name: &str) -> (r: Option<String>)
    ensures
        r matches Some(v) ==> svg_attr(tag@, name@) == Some(v@),
        r is None ==> svg_attr(tag@, name@) is None,
{
    let n = chars_of(name);
    match svg_attribute(tag, n.as_slice()) {
        Some(v) => Some(string_from_chars(v.as_slice())),
        None => None,
    }
}

fn root_tag(text: &[char]) -> (r: Result<Vec<char>, String>)
    ensures
        r matches Ok(t) ==> svg_root_tag(text@) == Ok::<Seq<char>, Seq<char>>(t@),
        r matches Err(e) ==> svg_root_tag(text@) == Err::<Seq<char>, Seq<char>>(e@),
{
    let b = skip_run_at(text, 0, Run::Bom);
    proof {
        lemma_skip_run(text@, 0, Run::Bom);
    }
    let after_bom = vstd::slice::slice_subrange(text, b, text.len());
    let r0 = trimmed_start(after_bom);
    let xml = ['<', '?', 'x', 'm', 'l'];
    let close = ['?', '>'];
    assert(xml@ =~= seq!['<', '?', 'x', 'm', 'l']);
    assert(close@ =~= seq!['?', '>']);
    let declared = has_prefix(r0.as_slice(), xml.as_slice());
    let end = find_at(r0.as_slice(), close.as_slice(), 0);
    if declared && end.is_none() {
        return Err("invalid SVG XML declaration".to_owned());
    }
    let r = if declared {
        let e = end.unwrap();
        proof {
            lemma_find_from(r0@, close@, 0);
        }
        trimmed_start(vstd::slice::slice_subrange(r0.as_slice(), e + 2, r0.len()))
    } else {
        r0
    };
    let svg = ['<', 's', 'v', 'g'];
    assert(svg@ =~= seq!['<', 's', 'v', 'g']);
    if !(has_prefix(r.as_slice(), svg.as_slice()) && r.len() > 4 && (is_ascii_whitespace(r[4])
        || r[4] == '>')) {
        return Err("SVG root element must be first".to_owned());
    }
    let mut gt: Vec<char> = Vec::new();
    gt.push('>');
    assert(gt@ =~= seq!['>']);
    match find_at(r.as_slice(), gt.as_slice(), 0) {
        Some(t) => {
            proof {
                lemma_find_from(r@, gt@, 0);
            }
            Ok(vstd::slice::slice_to_vec(vstd::slice::slice_subrange(r.as_slice(), 0, t + 1)))
        },
        None => Err("unterminated SVG root element".to_owned()),
    }
}

/// Checks the content of an SVG file and reads the texts of its size attributes.
pub fn svg_size_attributes(bytes: &[u8]) -> (r: Result<SvgSize, String>)
    ensures
        r matches Ok(s) ==> svg_check(bytes@) == Ok::<
            (Option<Seq<char>>, Option<Seq<char>>, Option<Seq<char>>),
            Seq<char>,
        >(svg_size_view(s)),
        r matches Err(e) ==> svg_check(bytes@) == Err::<
            (Option<Seq<char>>, Option<Seq<char>>, Option<Seq<char>>),
            Seq<char>,
        >(e@),
{
    let text = match string_from_utf8(vstd::slice::slice_to_vec(bytes)) {
        Some(t) => t,
        None => {
            return Err("SVG is not valid UTF-8".to_owned());
        },
    };
    let chars = chars_of(text.as_str());
    let lower = to_ascii_lowercase(chars.as_slice());
    let mut k: usize = 0;
    while k < 9
        invariant
            k <= 9,
            lower@ == ascii_lowercase(chars@),
            valid_utf8(bytes@),
            chars@ == decode_utf8(bytes@),
            first_forbidden(lower@, 0) == first_forbidden(lower@, k as int),
        decreases 9 - k,
    {
        let pattern = forbidden_text(k);
        let p = chars_of(pattern);
        if contains_seq(lower.as_slice(), p.as_slice()) {
            let mut message: Vec<char> = Vec::new();
            push_str(&mut message, "SVG contains forbidden content: ");
            push_str(&mut message, pattern);
            assert(message@ =~= "SVG contains forbidden content: "@ + forbidden_pattern(k as int));
            assert(first_forbidden(lower@, k as int) == Some(k as int));
            return Err(string_from_chars(message.as_slice()));
        }
        k = k + 1;
    }
    if contains_svg_event_attribute(lower.as_slice()) {
        return Err("SVG contains an event-handler attribute".to_owned());
    }
    let tag = match root_tag(chars.as_slice()) {
        Ok(t) => t,
        Err(e) => {
            return Err(e);
        },
    };
    let width = owned_attr(tag.as_slice(), "width");
    let height = owned_attr(tag.as_slice(), "height");
    let view_box = owned_attr(tag.as_slice(), "viewBox");
    Ok(SvgSize { width, height, view_box })
}

/// The number text of an SVG length attribute: the value without surrounding
/// Unicode whitespace and without one trailing `px`.
pub open spec fn length_number(value: Seq<char>) -> Seq<char> {
    let t = trim(value);
    if t.len() >= 2 && t[t.len() - 2] == 'p' && t[t.len() - 1] == 'x' {
        t.take(t.len() - 2)
    } else {
        t
    }
}

/// The number text of an SVG length attribute.
pub fn svg_length_number(value: &str) -> (r: String)
    ensures
        r@ == length_number(value@),
{
    let v = chars_of(value);
    let t = trimmed(v.as_slice());
    let n = t.len();
    if n >= 2 && t[n - 2] == 'p' && t[n - 1] == 'x' {
        string_from_chars(vstd::slice::slice_subrange(t.as_slice(), 0, n - 2))
    } else {
        string_from_chars(t.as_slice())
    }
}

/// A character that separates the numbers of a `viewBox`: ASCII whitespace or
/// a comma.
pub open spec fn is_box_separator(c: char) -> bool {
    is_ascii_space(c) || c == ','
}

/// Scanning a `viewBox` value: the fields finished so far and the one being
/// read.
pub open spec fn box_scan(s: Seq<char>) -> (Seq<Seq<char>>, Seq<char>)
    decreases s.len(),
{
    if s.len() == 0 {
        (Seq::empty(), Seq::empty())
    } else {
        let (done, cur) = box_scan(s.drop_last());
        let c = s.last();
        if is_box_separator(c) {
            (
                if cur.len() > 0 {
                    done.push(cur)
                } else {
                    done
                },
                Seq::empty(),
            )
        } else {
            (done, cur.push(c))
        }
    }
}

/// The non-empty fields of a `viewBox` value between separators, in order.
pub open spec fn box_fields(s: Seq<char>) -> Seq<Seq<char>> {
    let (done, cur) = box_scan(s);
    if cur.len() > 0 {
        done.push(cur)
    } else {
        done
    }
}

/// The fields of a `viewBox` value.
pub fn view_box_fields(value: &str) -> (r: Vec<String>)
    ensures
        string_views(r@) == box_fields(value@),
{
    let s = chars_of(value);
    let mut done: Vec<Vec<char>> = Vec::new();
    let mut cur: Vec<char> = Vec::new();
    let mut i: usize = 0;
    assert(s@.take(0) =~= Seq::<char>::empty());
    while i < s.len()
        invariant
            i <= s@.len(),
            (views(done@), cur@) == box_scan(s@.take(i as int)),
        decreases s@.len() - i,
    {
        let c = s[i];
        assert(s@.take(i + 1).drop_last() =~= s@.take(i as int));
        if is_ascii_whitespace(c) || c == ',' {
            if cur.len() > 0 {
                let ghost before = views(done@);
                done.push(cur);
                assert(views(done@) =~= before.push(box_scan(s@.take(i as int)).1));
            }
            cur = Vec::new();
            assert(cur@ =~= Seq::<char>::empty());
        } else {
            cur.push(c);
        }
        i = i + 1;
    }
    assert(s@.take(i as int) =~= s@);
    if cur.len() > 0 {
        let ghost before = views(done@);
        done.push(cur);
        assert(views(done@) =~= before.push(box_scan(s@).1));
    }
    let mut out: Vec<String> = Vec::new();
    let mut k: usize = 0;
    while k < done.len()
        invariant
            k <= done@.len(),
            views(done@) == box_fields(s@),
            string_views(out@) == views(done@).take(k as int),
        decreases done@.len() - k,
    {
        let ghost before = string_views(out@);
        out.push(string_from_chars(done[k].as_slice()));
        assert(string_views(out@) =~= before.push(done@[k as int]@));
        k = k + 1;
        assert(views(done@).take(k as int) =~= views(done@).take(k - 1).push(done@[k - 1]@));
    }
    assert(views(done@).take(k as int) =~= views(done@));
    out
}

} // verus!
