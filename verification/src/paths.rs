//! Local image references: which URLs name a file beside the Markdown source,
//! how such a URL becomes a path below the source directory, and the pieces of
//! Unix path syntax (components, file name, extension, prefix) that the image
//! checks read.
use vstd::prelude::*;
use crate::encoding::{percent_decode_path_segment, percent_decode_text};
use crate::text::{
    chars_of, find_at, find_from, lemma_find_from, lemma_find_shift, occurs_at, string_from_chars,
    trim, trimmed,
};

verus! {

/// The views of a sequence of character vectors.
pub open spec fn views(v: Seq<Vec<char>>) -> Seq<Seq<char>> {
    v.map_values(|x: Vec<char>| x@)
}

/// The views of a sequence of strings.
pub open spec fn string_views(v: Seq<String>) -> Seq<Seq<char>> {
    v.map_values(|x: String| x@)
}

/// The pieces of `s` between occurrences of `sep`, as `str::split(sep)` yields
/// them (empty pieces included; an empty `s` gives one empty piece).
pub open spec fn split_char(s: Seq<char>, sep: char) -> Seq<Seq<char>>
    decreases s.len(),
{
    match find_from(s, seq![sep], 0) {
        Some(k) => if 0 <= k < s.len() {
            seq![s.take(k)] + split_char(s.skip(k + 1), sep)
        } else {
            seq![s]
        },
        None => seq![s],
    }
}

/// The pieces of `s` between occurrences of `sep`.
pub fn split_on(s: &[char], sep: char) -> (r: Vec<Vec<char>>)
    ensures
        views(r@) == split_char(s@, sep),
{
    let mut pieces: Vec<Vec<char>> = Vec::new();
    let mut start: usize = 0;
    let mut sep_seq: Vec<char> = Vec::new();
    sep_seq.push(sep);
    assert(sep_seq@ =~= seq![sep]);
    assert(s@.skip(0) =~= s@);
    loop
        invariant
            start <= s@.len(),
            sep_seq@ == seq![sep],
            split_char(s@, sep) == views(pieces@) + split_char(s@.skip(start as int), sep),
        decreases s@.len() - start,
    {
        let ghost rest = s@.skip(start as int);
        proof {
            lemma_find_shift(s@, seq![sep], start as int, 0);
            lemma_find_from(s@, seq![sep], start as int);
        }
        match find_at(s, sep_seq.as_slice(), start) {
            Some(k) => {
                assert(occurs_at(s@, k as int, seq![sep]));
                assert(seq![sep].len() == 1);
                assert(k < s@.len());
                assert(s@.len() == s.len());
                let piece = vstd::slice::slice_to_vec(vstd::slice::slice_subrange(s, start, k));
                let ghost old_pieces = pieces@;
                pieces.push(piece);
                assert(rest.take(k - start) =~= s@.subrange(start as int, k as int));
                assert(rest.skip(k - start + 1) =~= s@.skip(k + 1));
                assert(views(pieces@) =~= views(old_pieces) + seq![piece@]);
                start = k + 1;
            },
            None => {
                let piece = vstd::slice::slice_to_vec(vstd::slice::slice_subrange(s, start, s.len()));
                let ghost old_pieces = pieces@;
                pieces.push(piece);
                assert(piece@ =~= rest);
                assert(views(pieces@) =~= views(old_pieces) + seq![rest]);
                return pieces;
            },
        }
    }
}

/// `url` up to (not including) its first `#` or `?`.
pub open spec fn before_query(url: Seq<char>) -> Seq<char>
    decreases url.len(),
{
    if url.len() == 0 {
        url
    } else if url[0] == '#' || url[0] == '?' {
        Seq::empty()
    } else {
        seq![url[0]] + before_query(url.drop_first())
    }
}

proof fn lemma_before_query_prefix(url: Seq<char>, i: int)
    requires
        0 <= i <= url.len(),
        forall|j: int| 0 <= j < i ==> url[j] != '#' && url[j] != '?',
    ensures
        before_query(url) == url.take(i) + before_query(url.skip(i)),
    decreases i,
{
    if i > 0 {
        lemma_before_query_prefix(url.drop_first(), i - 1);
        assert(url.drop_first().skip(i - 1) =~= url.skip(i));
        assert(seq![url[0]] + url.drop_first().take(i - 1) =~= url.take(i));
    } else {
        assert(url.skip(0) =~= url);
        assert(url.take(0) + before_query(url.skip(0)) =~= before_query(url));
    }
}

fn until_query(url: &[char]) -> (r: Vec<char>)
    ensures
        r@ == before_query(url@),
{
    let mut i: usize = 0;
    while i < url.len() && url[i] != '#' && url[i] != '?'
        invariant
            i <= url@.len(),
            forall|j: int| 0 <= j < i ==> url@[j] != '#' && url@[j] != '?',
        decreases url@.len() - i,
    {
        i = i + 1;
    }
    proof {
        lemma_before_query_prefix(url@, i as int);
        if i < url@.len() {
            assert(before_query(url@.skip(i as int)) =~= Seq::<char>::empty());
        } else {
            assert(url@.skip(i as int) =~= Seq::<char>::empty());
        }
        assert(url@.take(i as int) + before_query(url@.skip(i as int)) =~= url@.take(i as int));
    }
    vstd::slice::slice_to_vec(vstd::slice::slice_subrange(url, 0, i))
}

/// A URL that names a file relative to the Markdown source: not empty, not a
/// fragment, not rooted (`/`, `\`, `//`), and with no scheme or drive (`:`).
pub open spec fn local_relative(u: Seq<char>) -> bool {
    &&& u.len() > 0
    &&& u[0] != '#'
    &&& u[0] != '/'
    &&& u[0] != '\\'
    &&& !(u.len() >= 2 && u[0] == '/' && u[1] == '/')
    &&& forall|i: int| 0 <= i < u.len() ==> u[i] != ':'
}

fn is_local_relative(u: &[char]) -> (r: bool)
    ensures
        r == local_relative(u@),
{
    if u.len() == 0 || u[0] == '#' || u[0] == '/' || u[0] == '\\' {
        return false;
    }
    let mut i: usize = 0;
    while i < u.len()
        invariant
            i <= u@.len(),
            forall|j: int| 0 <= j < i ==> u@[j] != ':',
        decreases u@.len() - i,
    {
        if u[i] == ':' {
            return false;
        }
        i = i + 1;
    }
    true
}

/// Whether `url` names a file relative to the Markdown source.
pub fn is_local_relative_url(url: &str) -> (r: bool)
    ensures
        r == local_relative(url@),
{
    let u = chars_of(url);
    is_local_relative(u.as_slice())
}

/// Every component of the relative path `d` is a normal name under Unix path
/// rules (`Path::components`): it is not rooted, does not begin with a `.`
/// component, and no component is `..`.
pub open spec fn components_normal(d: Seq<char>) -> bool {
    let pieces = split_char(d, '/');
    &&& !(d.len() > 0 && d[0] == '/')
    &&& pieces[0] != seq!['.']
    &&& forall|k: int| 0 <= k < pieces.len() ==> pieces[k] != seq!['.', '.']
}

proof fn lemma_split_nonempty(s: Seq<char>, sep: char)
    ensures
        split_char(s, sep).len() >= 1,
    decreases s.len(),
{
    lemma_find_from(s, seq![sep], 0);
    match find_from(s, seq![sep], 0) {
        Some(k) => {
            if 0 <= k < s.len() {
                lemma_split_nonempty(s.skip(k + 1), sep);
            }
        },
        None => {},
    }
}

fn is_piece(p: &Vec<char>, a: char, n: usize) -> (r: bool)
    requires
        n == 1 || n == 2,
    ensures
        r == (p@ == (if n == 1 {
            seq![a]
        } else {
            seq![a, a]
        })),
{
    if p.len() != n {
        return false;
    }
    if n == 1 {
        let r = p[0] == a;
        if r {
            assert(p@ =~= seq![a]);
        }
        r
    } else {
        let r = p[0] == a && p[1] == a;
        if r {
            assert(p@ =~= seq![a, a]);
        }
        r
    }
}

fn are_components_normal(d: &[char]) -> (r: bool)
    ensures
        r == components_normal(d@),
{
    if d.len() > 0 && d[0] == '/' {
        return false;
    }
    let pieces = split_on(d, '/');
    proof {
        lemma_split_nonempty(d@, '/');
    }
    assert(pieces@[0]@ == split_char(d@, '/')[0]);
    if is_piece(&pieces[0], '.', 1) {
        return false;
    }
    let mut k: usize = 0;
    while k < pieces.len()
        invariant
            k <= pieces@.len(),
            views(pieces@) == split_char(d@, '/'),
            forall|m: int| 0 <= m < k ==> split_char(d@, '/')[m] != seq!['.', '.'],
        decreases pieces@.len() - k,
    {
        assert(pieces@[k as int]@ == split_char(d@, '/')[k as int]);
        if is_piece(&pieces[k], '.', 2) {
            return false;
        }
        k = k + 1;
    }
    true
}

/// The path segments, decoded, that the pieces of a local URL path contribute;
/// empty and `.` pieces contribute nothing. `None` when a piece does not
/// percent-decode or decodes to something other than normal path components.
pub open spec fn resolve_pieces(pieces: Seq<Seq<char>>) -> Option<Seq<Seq<char>>>
    decreases pieces.len(),
{
    if pieces.len() == 0 {
        Some(Seq::empty())
    } else {
        let p = pieces[0];
        if p.len() == 0 || p == seq!['.'] {
            resolve_pieces(pieces.drop_first())
        } else {
            match percent_decode_text(p) {
                Some(d) => if components_normal(d) {
                    match resolve_pieces(pieces.drop_first()) {
                        Some(rest) => Some(seq![d] + rest),
                        None => None,
                    }
                } else {
                    None
                },
                None => None,
            }
        }
    }
}

/// The path, below the Markdown directory, that an image URL names: the URL up
/// to its first `#` or `?`, trimmed, must be a local relative URL; its
/// `/`-separated pieces are decoded by `resolve_pieces`, and at least one
/// segment must remain.
pub open spec fn resolve_relative(url: Seq<char>) -> Option<Seq<Seq<char>>> {
    let path = trim(before_query(url));
    if !local_relative(path) {
        None
    } else {
        match resolve_pieces(split_char(path, '/')) {
            Some(segments) => if segments.len() > 0 {
                Some(segments)
            } else {
                None
            },
            None => None,
        }
    }
}

/// The decoded path segments, to be joined below the Markdown directory, that a
/// local relative image URL names; `None` for any other URL.
pub fn resolve_local_relative_image_path(url: &str) -> (r: Option<Vec<String>>)
    ensures
        r matches Some(v) ==> resolve_relative(url@) == Some(string_views(v@)),
        r is None ==> resolve_relative(url@) is None,
{
    let u = chars_of(url);
    let before = until_query(u.as_slice());
    let path = trimmed(before.as_slice());
    if !is_local_relative(path.as_slice()) {
        return None;
    }
    let pieces = split_on(path.as_slice(), '/');
    let ghost all = views(pieces@);
    let mut segments: Vec<String> = Vec::new();
    let mut k: usize = 0;
    assert(all.skip(0) =~= all);
    while k < pieces.len()
        invariant
            k <= pieces@.len(),
            all == views(pieces@),
            resolve_relative(url@) == (match resolve_pieces(all) {
                Some(segs) => if segs.len() > 0 {
                    Some(segs)
                } else {
                    None
                },
                None => None,
            }),
            resolve_pieces(all) == (match resolve_pieces(all.skip(k as int)) {
                Some(rest) => Some(string_views(segments@) + rest),
                None => None,
            }),
        decreases pieces@.len() - k,
    {
        let ghost tail = all.skip(k as int);
        assert(tail.drop_first() =~= all.skip(k + 1));
        assert(tail[0] == pieces@[k as int]@);
        let piece = &pieces[k];
        if piece.len() == 0 || is_piece(piece, '.', 1) {
            k = k + 1;
            continue;
        }
        let text = string_from_chars(piece.as_slice());
        let decoded = match percent_decode_path_segment(text.as_str()) {
            Some(d) => d,
            None => {
                assert(resolve_pieces(tail) is None);
                return None;
            },
        };
        let dchars = chars_of(decoded.as_str());
        if !are_components_normal(dchars.as_slice()) {
            assert(resolve_pieces(tail) is None);
            return None;
        }
        let ghost old_segments = segments@;
        segments.push(decoded);
        proof {
            assert(string_views(segments@) =~= string_views(old_segments).push(dchars@));
            if let Some(rest) = resolve_pieces(all.skip(k + 1)) {
                assert(string_views(old_segments) + (seq![dchars@] + rest) =~= string_views(
                    segments@,
                ) + rest);
            }
        }
        k = k + 1;
    }
    assert(all.skip(k as int) =~= Seq::<Seq<char>>::empty());
    assert(string_views(segments@) + Seq::<Seq<char>>::empty() =~= string_views(segments@));
    if segments.len() == 0 {
        return None;
    }
    Some(segments)
}

/// The segments of a resolved image path are made of normal components only: no
/// segment is rooted, begins with `.`, or holds `..`, so the joined path stays
/// below the Markdown directory.
pub proof fn lemma_resolved_segments_are_normal(url: Seq<char>)
    ensures
        resolve_relative(url) matches Some(segments) ==> forall|i: int|
            0 <= i < segments.len() ==> components_normal(#[trigger] segments[i]),
{
    lemma_resolve_pieces_normal(split_char(trim(before_query(url)), '/'));
}

proof fn lemma_resolve_pieces_normal(pieces: Seq<Seq<char>>)
    ensures
        resolve_pieces(pieces) matches Some(segments) ==> forall|i: int|
            0 <= i < segments.len() ==> components_normal(#[trigger] segments[i]),
    decreases pieces.len(),
{
    if pieces.len() > 0 {
        lemma_resolve_pieces_normal(pieces.drop_first());
        if let Some(segments) = resolve_pieces(pieces) {
            let p = pieces[0];
            if !(p.len() == 0 || p == seq!['.']) {
                let d = percent_decode_text(p).unwrap();
                let rest = resolve_pieces(pieces.drop_first()).unwrap();
                assert(segments == seq![d] + rest);
                assert forall|i: int| 0 <= i < segments.len() implies components_normal(
                    #[trigger] segments[i],
                ) by {
                    if i > 0 {
                        assert(segments[i] == rest[i - 1]);
                    }
                }
            }
        }
    }
}

/// The pieces of `pieces` that name a component: neither empty nor `.`.
pub open spec fn named_pieces(pieces: Seq<Seq<char>>) -> Seq<Seq<char>>
    decreases pieces.len(),
{
    if pieces.len() == 0 {
        Seq::empty()
    } else {
        let rest = named_pieces(pieces.drop_last());
        let x = pieces.last();
        if x.len() > 0 && x != seq!['.'] {
            rest.push(x)
        } else {
            rest
        }
    }
}

/// The components of a Unix path as `Path::components` yields them: a leading
/// `/` gives the root component (written `/`), a leading `.` piece the current
/// directory component (written `.`); after that every piece that is neither
/// empty nor `.` is one component (`..` included).
pub open spec fn path_components(p: Seq<char>) -> Seq<Seq<char>> {
    let pieces = split_char(p, '/');
    let rest = named_pieces(pieces);
    if p.len() > 0 && p[0] == '/' {
        seq![seq!['/']] + rest
    } else if pieces[0] == seq!['.'] {
        seq![seq!['.']] + rest
    } else {
        rest
    }
}

/// The last component of `p` when it is a normal name (`Path::file_name`).
pub open spec fn file_name(p: Seq<char>) -> Option<Seq<char>> {
    let c = path_components(p);
    if c.len() > 0 && c.last() != seq!['/'] && c.last() != seq!['.'] && c.last() != seq![
        '.',
        '.',
    ] {
        Some(c.last())
    } else {
        None
    }
}

/// The position of the last `.` in `s`, if any.
pub open spec fn last_dot(s: Seq<char>) -> Option<int>
    decreases s.len(),
{
    if s.len() == 0 {
        None
    } else if s.last() == '.' {
        Some(s.len() - 1)
    } else {
        last_dot(s.drop_last())
    }
}

/// The extension of a file name as `Path::extension` reports it: the text after
/// the last `.`, unless there is no `.` or the only `.` leads the name.
pub open spec fn name_extension(name: Seq<char>) -> Option<Seq<char>> {
    match last_dot(name) {
        Some(k) => if k == 0 {
            None
        } else {
            Some(name.skip(k + 1))
        },
        None => None,
    }
}

/// The extension of the path `p` (`Path::extension`).
pub open spec fn path_extension(p: Seq<char>) -> Option<Seq<char>> {
    match file_name(p) {
        Some(name) => name_extension(name),
        None => None,
    }
}

/// `base` is a whole-component prefix of `path` (`Path::starts_with`).
pub open spec fn path_has_prefix(path: Seq<char>, base: Seq<char>) -> bool {
    let a = path_components(path);
    let b = path_components(base);
    b.len() <= a.len() && a.take(b.len() as int) == b
}

fn named_components(pieces: &Vec<Vec<char>>) -> (r: Vec<Vec<char>>)
    ensures
        views(r@) == named_pieces(views(pieces@)),
{
    let mut r: Vec<Vec<char>> = Vec::new();
    let mut i: usize = 0;
    while i < pieces.len()
        invariant
            i <= pieces@.len(),
            views(r@) == named_pieces(views(pieces@).take(i as int)),
        decreases pieces@.len() - i,
    {
        let ghost before = views(pieces@).take(i as int);
        assert(views(pieces@).take(i + 1).drop_last() =~= before);
        assert(views(pieces@).take(i + 1).last() == pieces@[i as int]@);
        let x = &pieces[i];
        if x.len() > 0 && !is_piece(x, '.', 1) {
            let ghost old_r = r@;
            r.push(vstd::slice::slice_to_vec(x.as_slice()));
            assert(views(r@) =~= views(old_r).push(x@));
        }
        i = i + 1;
    }
    assert(views(pieces@).take(i as int) =~= views(pieces@));
    r
}

/// The components of the path `p`.
pub fn components_of(p: &[char]) -> (r: Vec<Vec<char>>)
    ensures
        views(r@) == path_components(p@),
{
    let pieces = split_on(p, '/');
    proof {
        lemma_split_nonempty(p@, '/');
    }
    assert(pieces@[0]@ == split_char(p@, '/')[0]);
    let rest = named_components(&pieces);
    if p.len() > 0 && p[0] == '/' {
        let mut r: Vec<Vec<char>> = Vec::new();
        let mut root: Vec<char> = Vec::new();
        root.push('/');
        r.push(root);
        let mut i: usize = 0;
        assert(views(r@) =~= seq![seq!['/']] + views(rest@).take(0));
        while i < rest.len()
            invariant
                i <= rest@.len(),
                views(r@) == seq![seq!['/']] + views(rest@).take(i as int),
            decreases rest@.len() - i,
        {
            let ghost old_r = r@;
            r.push(vstd::slice::slice_to_vec(rest[i].as_slice()));
            assert(views(r@) =~= views(old_r).push(rest@[i as int]@));
            i = i + 1;
            assert(views(rest@).take(i as int) =~= views(rest@).take(i - 1).push(rest@[i - 1]@));
        }
        assert(views(rest@).take(i as int) =~= views(rest@));
        r
    } else if is_piece(&pieces[0], '.', 1) {
        let mut r: Vec<Vec<char>> = Vec::new();
        let mut cur: Vec<char> = Vec::new();
        cur.push('.');
        r.push(cur);
        let mut i: usize = 0;
        assert(views(r@) =~= seq![seq!['.']] + views(rest@).take(0));
        while i < rest.len()
            invariant
                i <= rest@.len(),
                views(r@) == seq![seq!['.']] + views(rest@).take(i as int),
            decreases rest@.len() - i,
        {
            let ghost old_r = r@;
            r.push(vstd::slice::slice_to_vec(rest[i].as_slice()));
            assert(views(r@) =~= views(old_r).push(rest@[i as int]@));
            i = i + 1;
            assert(views(rest@).take(i as int) =~= views(rest@).take(i - 1).push(rest@[i - 1]@));
        }
        assert(views(rest@).take(i as int) =~= views(rest@));
        r
    } else {
        rest
    }
}

/// Whether two character sequences are equal.
pub fn eq_chars(a: &[char], b: &[char]) -> (r: bool)
    ensures
        r == (a@ == b@),
{
    if a.len() != b.len() {
        return false;
    }
    let mut i: usize = 0;
    while i < a.len()
        invariant
            i <= a@.len(),
            a@.len() == b@.len(),
            forall|j: int| 0 <= j < i ==> a@[j] == b@[j],
        decreases a@.len() - i,
    {
        if a[i] != b[i] {
            return false;
        }
        i = i + 1;
    }
    assert(a@ =~= b@);
    true
}

/// The file name of the path `p`.
pub fn file_name_of(p: &[char]) -> (r: Option<Vec<char>>)
    ensures
        r matches Some(v) ==> file_name(p@) == Some(v@),
        r is None ==> file_name(p@) is None,
{
    let c = components_of(p);
    if c.len() == 0 {
        return None;
    }
    let last = &c[c.len() - 1];
    assert(last@ == views(c@).last());
    if is_piece(last, '/', 1) || is_piece(last, '.', 1) || is_piece(last, '.', 2) {
        return None;
    }
    Some(vstd::slice::slice_to_vec(last.as_slice()))
}

/// The extension of the path `p`.
pub fn extension_of(p: &[char]) -> (r: Option<Vec<char>>)
    ensures
        r matches Some(v) ==> path_extension(p@) == Some(v@),
        r is None ==> path_extension(p@) is None,
{
    let name = match file_name_of(p) {
        Some(n) => n,
        None => {
            return None;
        },
    };
    let mut k: usize = name.len();
    assert(name@.take(k as int) =~= name@);
    while k > 0 && name[k - 1] != '.'
        invariant
            k <= name@.len(),
            last_dot(name@) == last_dot(name@.take(k as int)),
        decreases k,
    {
        assert(name@.take(k as int).drop_last() =~= name@.take(k - 1));
        k = k - 1;
    }
    if k == 0 {
        assert(name@.take(0) =~= Seq::<char>::empty());
        return None;
    }
    assert(last_dot(name@.take(k as int)) == Some(k - 1));
    if k == 1 {
        return None;
    }
    Some(vstd::slice::slice_to_vec(vstd::slice::slice_subrange(name.as_slice(), k, name.len())))
}

/// Whether `base` is a whole-component prefix of `path`.
pub fn path_starts_with(path: &[char], base: &[char]) -> (r: bool)
    ensures
        r == path_has_prefix(path@, base@),
{
    let a = components_of(path);
    let b = components_of(base);
    assert(views(a@).len() == a@.len() && views(b@).len() == b@.len());
    if b.len() > a.len() {
        return false;
    }
    let mut i: usize = 0;
    while i < b.len()
        invariant
            i <= b@.len(),
            b@.len() <= a@.len(),
            views(a@) == path_components(path@),
            views(b@) == path_components(base@),
            forall|j: int| 0 <= j < i ==> views(a@)[j] == views(b@)[j],
        decreases b@.len() - i,
    {
        if !eq_chars(a[i].as_slice(), b[i].as_slice()) {
            assert(views(a@).take(b@.len() as int)[i as int] != views(b@)[i as int]);
            return false;
        }
        i = i + 1;
    }
    assert(views(a@).take(b@.len() as int) =~= views(b@));
    true
}

} // verus!
