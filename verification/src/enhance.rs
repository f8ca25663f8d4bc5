//! Progressive enhancement: which optional renderers (math, Mermaid diagrams) a
//! Markdown source needs, and the scripts that load them into a preview.
use vstd::prelude::*;
use vstd::string::StringExecFns;
use crate::encoding::{escape_js, js_escape};
use crate::paths::{split_char, split_on, views};
use crate::text::{
    chars_of, find_at, find_from, is_ascii_space, is_ascii_whitespace, is_white_space, is_whitespace,
    lemma_find_from, matches_at, occurs_at, starts_with, trim_start, trimmed_start, has_prefix,
};

verus! {

/// Which optional renderers a document needs.
#[derive(Copy, Clone, Debug, Default, PartialEq, Eq)]
pub struct EnhanceFlags {
    pub math: bool,
    pub mermaid: bool,
}

impl EnhanceFlags {
    /// Whether any optional renderer is needed.
    pub fn any(self) -> (r: bool)
        ensures
            r == (self.math || self.mermaid),
    {
        self.math || self.mermaid
    }
}

/// The colour scheme of a preview.
#[derive(Copy, Clone, Debug, PartialEq, Eq)]
pub enum PreviewTheme {
    Light,
    Dark,
}

impl PreviewTheme {
    /// The theme's name, as the page and the command line write it.
    pub open spec fn name(self) -> Seq<char> {
        match self {
            PreviewTheme::Light => "light"@,
            PreviewTheme::Dark => "dark"@,
        }
    }

    /// The theme's name.
    pub fn as_str(self) -> (r: &'static str)
        ensures
            r@ == self.name(),
    {
        match self {
            PreviewTheme::Light => "light",
            PreviewTheme::Dark => "dark",
        }
    }
}

/// The number of backslashes immediately before position `i` of `t`.
pub open spec fn backslashes_before(t: Seq<char>, i: int) -> nat
    decreases i,
{
    if 0 < i <= t.len() && t[i - 1] == '\\' {
        backslashes_before(t, i - 1) + 1
    } else {
        0
    }
}

/// `needle` occurs at `i` and is not escaped by an odd run of backslashes.
pub open spec fn unescaped_at(t: Seq<char>, i: int, needle: Seq<char>) -> bool {
    occurs_at(t, i, needle) && backslashes_before(t, i) % 2 == 0
}

/// Whether `needle` occurs unescaped at `index` of `text`.
pub fn has_unescaped_at(text: &[char], index: usize, needle: &[char]) -> (r: bool)
    ensures
        r == unescaped_at(text@, index as int, needle@),
{
    if !matches_at(text, index, needle) {
        return false;
    }
    let mut k: usize = index;
    let mut count: usize = 0;
    while k > 0 && text[k - 1] == '\\'
        invariant
            k <= index <= text@.len(),
            count == index - k,
            backslashes_before(text@, index as int) == count + backslashes_before(text@, k as int),
        decreases k,
    {
        k = k - 1;
        count = count + 1;
    }
    count % 2 == 0
}

/// Scanning `t` from `search` for unescaped `close`: occurrences are taken in
/// turn, each search resuming after the previous occurrence.
pub open spec fn close_scan(t: Seq<char>, close: Seq<char>, search: int) -> bool
    decreases t.len() + 1 - search,
{
    if close.len() == 0 || search < 0 {
        false
    } else {
        match find_from(t, close, search) {
            Some(c) => if unescaped_at(t, c, close) {
                true
            } else {
                proof {
                    lemma_find_from(t, close, search);
                }
                close_scan(t, close, c + close.len())
            },
            None => false,
        }
    }
}

/// Scanning `t` from `position` for an unescaped `open` that an unescaped
/// `close` follows: occurrences of `open` are taken in turn, each search
/// resuming after the previous occurrence.
pub open spec fn pair_scan(t: Seq<char>, open: Seq<char>, close: Seq<char>, position: int) -> bool
    decreases t.len() + 1 - position,
{
    if open.len() == 0 || position < 0 {
        false
    } else {
        match find_from(t, open, position) {
            Some(s) => if unescaped_at(t, s, open) && close_scan(t, close, s + open.len()) {
                true
            } else {
                proof {
                    lemma_find_from(t, open, position);
                }
                pair_scan(t, open, close, s + open.len())
            },
            None => false,
        }
    }
}

fn scan_close(text: &[char], close: &[char], start: usize) -> (r: bool)
    requires
        close@.len() > 0,
    ensures
        r == close_scan(text@, close@, start as int),
{
    let mut search = start;
    loop
        invariant
            close@.len() > 0,
            close_scan(text@, close@, start as int) == close_scan(text@, close@, search as int),
        decreases text@.len() + 1 - search,
    {
        proof {
            lemma_find_from(text@, close@, search as int);
        }
        match find_at(text, close, search) {
            Some(c) => {
                assert(occurs_at(text@, c as int, close@));
                assert(c + close@.len() <= text@.len());
                assert(text@.len() == text.len() && close@.len() == close.len());
                if has_unescaped_at(text, c, close) {
                    return true;
                }
                search = c + close.len();
            },
            None => {
                return false;
            },
        }
    }
}

/// Whether an unescaped `open` in `text` is followed by an unescaped `close`.
pub fn has_unescaped_pair(text: &[char], open: &[char], close: &[char]) -> (r: bool)
    requires
        open@.len() > 0,
        close@.len() > 0,
    ensures
        r == pair_scan(text@, open@, close@, 0),
{
    let mut position: usize = 0;
    loop
        invariant
            open@.len() > 0,
            close@.len() > 0,
            pair_scan(text@, open@, close@, 0) == pair_scan(text@, open@, close@, position as int),
        decreases text@.len() + 1 - position,
    {
        proof {
            lemma_find_from(text@, open@, position as int);
        }
        match find_at(text, open, position) {
            Some(s) => {
                assert(occurs_at(text@, s as int, open@));
                assert(s + open@.len() <= text@.len());
                assert(text@.len() == text.len() && open@.len() == open.len());
                if has_unescaped_at(text, s, open) && scan_close(text, close, s + open.len()) {
                    return true;
                }
                position = s + open.len();
            },
            None => {
                return false;
            },
        }
    }
}

/// An inline-math opening `$` at `i`: unescaped, followed by a character that
/// is neither `$` nor ASCII whitespace.
pub open spec fn dollar_open(t: Seq<char>, i: int) -> bool {
    &&& 0 <= i
    &&& i + 1 < t.len()
    &&& t[i] == '$'
    &&& unescaped_at(t, i, seq!['$'])
    &&& t[i + 1] != '$'
    &&& !is_ascii_space(t[i + 1])
}

/// An inline-math closing `$` at `c`: unescaped, after a character that is not
/// ASCII whitespace.
pub open spec fn dollar_close(t: Seq<char>, c: int) -> bool {
    &&& 1 <= c < t.len()
    &&& t[c] == '$'
    &&& unescaped_at(t, c, seq!['$'])
    &&& !is_ascii_space(t[c - 1])
}

/// The text holds an inline-math opening `$` with a closing `$` after it.
pub open spec fn has_dollar_math(t: Seq<char>) -> bool {
    exists|i: int, c: int| dollar_open(t, i) && i < c && dollar_close(t, c)
}

/// Whether the text holds `$...$` inline math.
pub fn has_inline_dollar_math(text: &[char]) -> (r: bool)
    ensures
        r == has_dollar_math(text@),
{
    let mut dollar: Vec<char> = Vec::new();
    dollar.push('$');
    assert(dollar@ =~= seq!['$']);
    let mut index: usize = 0;
    while index < text.len()
        invariant
            index <= text@.len(),
            dollar@ == seq!['$'],
            forall|j: int| 0 <= j < index ==> !dollar_open(text@, j),
        decreases text@.len() - index,
    {
        if text[index] == '$' && has_unescaped_at(text, index, dollar.as_slice())
            && index + 1 < text.len() && text[index + 1] != '$' && !is_ascii_whitespace(
            text[index + 1],
        ) {
            let mut closing: usize = index + 1;
            while closing < text.len()
                invariant
                    index < closing <= text@.len(),
                    dollar@ == seq!['$'],
                    dollar_open(text@, index as int),
                    forall|c: int| index < c < closing ==> !dollar_close(text@, c),
                decreases text@.len() - closing,
            {
                if text[closing] == '$' && has_unescaped_at(text, closing, dollar.as_slice())
                    && !is_ascii_whitespace(text[closing - 1]) {
                    assert(dollar_close(text@, closing as int));
                    return true;
                }
                closing = closing + 1;
            }
            assert forall|i: int, c: int|
                dollar_open(text@, i) && i < c implies !dollar_close(text@, c) by {
                if i >= index {
                }
            }
            return false;
        }
        index = index + 1;
    }
    false
}

/// A line that opens a Mermaid code fence: after leading whitespace, three
/// backticks or three tildes, optional whitespace, then `mermaid` alone or
/// followed by whitespace or `{`.
pub open spec fn mermaid_fence(line: Seq<char>) -> bool {
    let t = trim_start(line);
    let fenced = starts_with(t, seq!['`', '`', '`']) || starts_with(t, seq!['~', '~', '~']);
    let info = trim_start(t.skip(3));
    let word = seq!['m', 'e', 'r', 'm', 'a', 'i', 'd'];
    fenced && (info == word || (starts_with(info, word) && info.len() > 7 && (is_white_space(
        info[7],
    ) || info[7] == '{')))
}

/// Whether the line opens a Mermaid code fence.
pub fn starts_mermaid_fence(line: &[char]) -> (r: bool)
    ensures
        r == mermaid_fence(line@),
{
    let t = trimmed_start(line);
    let ticks = ['`', '`', '`'];
    let tildes = ['~', '~', '~'];
    let word = ['m', 'e', 'r', 'm', 'a', 'i', 'd'];
    assert(ticks@ =~= seq!['`', '`', '`']);
    assert(tildes@ =~= seq!['~', '~', '~']);
    assert(word@ =~= seq!['m', 'e', 'r', 'm', 'a', 'i', 'd']);
    if !(has_prefix(t.as_slice(), ticks.as_slice()) || has_prefix(t.as_slice(), tildes.as_slice())) {
        return false;
    }
    let info = trimmed_start(vstd::slice::slice_subrange(t.as_slice(), 3, t.len()));
    if info.len() == 7 && has_prefix(info.as_slice(), word.as_slice()) {
        assert(info@ =~= info@.subrange(0, 7));
        return true;
    }
    let r = has_prefix(info.as_slice(), word.as_slice()) && info.len() > 7 && (is_whitespace(info[7])
        || info[7] == '{');
    proof {
        if info@ == word@ {
            assert(info@.subrange(0, 7) =~= word@);
        }
    }
    r
}

/// A line of text without a trailing carriage return.
pub open spec fn strip_cr(p: Seq<char>) -> Seq<char> {
    if p.len() > 0 && p.last() == '\r' {
        p.drop_last()
    } else {
        p
    }
}

/// The lines of `md` as `str::lines` yields them: split at line feeds; a line
/// ended by a line feed loses a carriage return before it; an empty final
/// piece (after a final line feed, or of an empty text) is no line.
pub open spec fn md_lines(md: Seq<char>) -> Seq<Seq<char>> {
    let pieces = split_char(md, '\n');
    let n = pieces.len();
    let ended = Seq::new((n - 1) as nat, |k: int| strip_cr(pieces[k]));
    if n > 0 && pieces[n - 1].len() > 0 {
        ended.push(pieces[n - 1])
    } else {
        ended
    }
}

/// The optional renderers that the Markdown source `md` needs: math when it
/// holds an unescaped `$$`, `\[` or `\(` with its partner after it, or `$...$`
/// inline math; Mermaid when a line opens a Mermaid code fence.
pub open spec fn flags_for(md: Seq<char>) -> EnhanceFlags {
    EnhanceFlags {
        math: pair_scan(md, seq!['$', '$'], seq!['$', '$'], 0) || pair_scan(
            md,
            seq!['\\', '['],
            seq!['\\', ']'],
            0,
        ) || pair_scan(md, seq!['\\', '('], seq!['\\', ')'], 0) || has_dollar_math(md),
        mermaid: exists|k: int|
            0 <= k < md_lines(md).len() && mermaid_fence(#[trigger] md_lines(md)[k]),
    }
}

fn strip_line_cr(p: &Vec<char>) -> (r: Vec<char>)
    ensures
        r@ == strip_cr(p@),
{
    if p.len() > 0 && p[p.len() - 1] == '\r' {
        vstd::slice::slice_to_vec(vstd::slice::slice_subrange(p.as_slice(), 0, p.len() - 1))
    } else {
        vstd::slice::slice_to_vec(p.as_slice())
    }
}

fn has_mermaid_line(md: &[char]) -> (r: bool)
    ensures
        r == exists|k: int| 0 <= k < md_lines(md@).len() && mermaid_fence(#[trigger] md_lines(md@)[k]),
{
    let pieces = split_on(md, '\n');
    let ghost ps = views(pieces@);
    let ghost lines = md_lines(md@);
    let n = pieces.len();
    let mut k: usize = 0;
    while n > 0 && k < n - 1
        invariant
            ps == views(pieces@),
            ps == split_char(md@, '\n'),
            lines == md_lines(md@),
            n == pieces@.len(),
            k <= n,
            forall|j: int| 0 <= j < k ==> !mermaid_fence(#[trigger] lines[j]),
        decreases n - k,
    {
        let line = strip_line_cr(&pieces[k]);
        assert(lines[k as int] == strip_cr(ps[k as int]));
        if starts_mermaid_fence(line.as_slice()) {
            return true;
        }
        k = k + 1;
    }
    if n > 0 && pieces[n - 1].len() > 0 {
        assert(lines[(n - 1) as int] == ps[n - 1]);
        let r = starts_mermaid_fence(pieces[n - 1].as_slice());
        assert forall|j: int| 0 <= j < lines.len() && mermaid_fence(#[trigger] lines[j]) implies r by {
            if j < n - 1 {
                assert(j < k);
            }
        }
        return r;
    }
    assert forall|j: int| 0 <= j < lines.len() implies !mermaid_fence(#[trigger] lines[j]) by {
        assert(j < k);
    }
    false
}

/// The optional renderers that the Markdown source `md` needs.
pub fn enhance_flags_for(md: &str) -> (r: EnhanceFlags)
    ensures
        r == flags_for(md@),
{
    let text = chars_of(md);
    let dd = ['$', '$'];
    let ob = ['\\', '['];
    let cb = ['\\', ']'];
    let op = ['\\', '('];
    let cp = ['\\', ')'];
    assert(dd@ =~= seq!['$', '$']);
    assert(ob@ =~= seq!['\\', '[']);
    assert(cb@ =~= seq!['\\', ']']);
    assert(op@ =~= seq!['\\', '(']);
    assert(cp@ =~= seq!['\\', ')']);
    let math = has_unescaped_pair(text.as_slice(), dd.as_slice(), dd.as_slice())
        || has_unescaped_pair(text.as_slice(), ob.as_slice(), cb.as_slice()) || has_unescaped_pair(
        text.as_slice(),
        op.as_slice(),
        cp.as_slice(),
    ) || has_inline_dollar_math(text.as_slice());
    let mermaid = has_mermaid_line(text.as_slice());
    EnhanceFlags { math, mermaid }
}

} // verus!
