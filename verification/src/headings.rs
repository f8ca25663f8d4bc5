//! Heading anchors: every heading without an explicit id gets one made from its
//! text (a slug), numbered when the same id was used before.
use vstd::prelude::*;
use crate::document::{nodes_view, Node, NodeView};
use crate::numbers::{decimal, decimal_chars};
use crate::text::{
    ascii_lower, chars_of, is_ascii_alnum, is_white_space, is_whitespace, push_chars,
    string_from_chars, trim, trim_end, trim_start, trimmed,
};

verus! {

/// The lower-case mapping of `c` in Unicode (`char::to_lowercase`).
pub uninterp spec fn lowercase_of(c: char) -> Seq<char>;

/// The Unicode `Alphabetic` or `Numeric` property of `c`
/// (`char::is_alphanumeric`).
pub uninterp spec fn unicode_alphanumeric(c: char) -> bool;

/// The lower-case mapping of `c` (`char::to_lowercase`): one or more characters,
/// `c` itself when it has no lower-case form; an ASCII character maps to its
/// ASCII lower case.
#[verifier::external_body]
fn lowercase_chars(c: char) -> (r: Vec<char>)
    ensures
        r@ == lowercase_of(c),
        r@.len() >= 1,
        (c as u32) < 128 ==> r@ == seq![ascii_lower(c)],
{
    c.to_lowercase().collect()
}

/// Whether `c` is alphabetic or numeric in Unicode (`char::is_alphanumeric`); an
/// ASCII character is so exactly when it is an ASCII letter or digit.
#[verifier::external_body]
fn is_alphanumeric(c: char) -> (r: bool)
    ensures
        r == unicode_alphanumeric(c),
        (c as u32) < 128 ==> r == is_ascii_alnum(c),
{
    c.is_alphanumeric()
}

/// `s` with every character replaced by its Unicode lower-case mapping.
pub open spec fn lowered(s: Seq<char>) -> Seq<char>
    decreases s.len(),
{
    if s.len() == 0 {
        Seq::empty()
    } else {
        lowered(s.drop_last()) + lowercase_of(s.last())
    }
}

/// The slug built from `s` and whether it ends in a dash that whitespace put
/// there: letters, digits, `_` and `-` are kept; a run of whitespace after some
/// kept character becomes one `-`; everything else is dropped.
pub open spec fn slug_run(s: Seq<char>) -> (Seq<char>, bool)
    decreases s.len(),
{
    if s.len() == 0 {
        (Seq::empty(), false)
    } else {
        let (acc, dash) = slug_run(s.drop_last());
        let c = s.last();
        if unicode_alphanumeric(c) || c == '_' || c == '-' {
            (acc.push(c), false)
        } else if is_white_space(c) && acc.len() > 0 && !dash {
            (acc.push('-'), true)
        } else {
            (acc, dash)
        }
    }
}

/// `s` without trailing dashes.
pub open spec fn strip_dashes(s: Seq<char>) -> Seq<char>
    decreases s.len(),
{
    if s.len() > 0 && s.last() == '-' {
        strip_dashes(s.drop_last())
    } else {
        s
    }
}

/// The anchor slug of a heading's text: the trimmed text in lower case, reduced
/// by `slug_run`, without trailing dashes; `section` when nothing remains.
pub open spec fn slug(text: Seq<char>) -> Seq<char> {
    let s = strip_dashes(slug_run(lowered(trim(text))).0);
    if s.len() == 0 {
        "section"@
    } else {
        s
    }
}

/// The anchor slug of a heading's text.
pub fn heading_slug(text: &[char]) -> (r: String)
    ensures
        r@ == slug(text@),
{
    let t = trimmed(text);
    let mut low: Vec<char> = Vec::new();
    let mut i: usize = 0;
    while i < t.len()
        invariant
            i <= t@.len(),
            low@ == lowered(t@.take(i as int)),
        decreases t@.len() - i,
    {
        let l = lowercase_chars(t[i]);
        assert(t@.take(i + 1).drop_last() =~= t@.take(i as int));
        push_chars(&mut low, l.as_slice());
        i = i + 1;
    }
    assert(t@.take(i as int) =~= t@);
    let mut slug_chars: Vec<char> = Vec::new();
    let mut last_dash = false;
    let mut j: usize = 0;
    while j < low.len()
        invariant
            j <= low@.len(),
            slug_run(low@.take(j as int)) == (slug_chars@, last_dash),
        decreases low@.len() - j,
    {
        let c = low[j];
        assert(low@.take(j + 1).drop_last() =~= low@.take(j as int));
        if is_alphanumeric(c) || c == '_' || c == '-' {
            slug_chars.push(c);
            last_dash = false;
        } else if is_whitespace(c) && slug_chars.len() > 0 && !last_dash {
            slug_chars.push('-');
            last_dash = true;
        }
        j = j + 1;
    }
    assert(low@.take(j as int) =~= low@);
    let mut end = slug_chars.len();
    assert(slug_chars@.take(end as int) =~= slug_chars@);
    while end > 0 && slug_chars[end - 1] == '-'
        invariant
            end <= slug_chars@.len(),
            strip_dashes(slug_chars@) == strip_dashes(slug_chars@.take(end as int)),
        decreases end,
    {
        assert(slug_chars@.take(end as int).drop_last() =~= slug_chars@.take(end - 1));
        end = end - 1;
    }
    if end == 0 {
        "section".to_owned()
    } else {
        string_from_chars(vstd::slice::slice_subrange(slug_chars.as_slice(), 0, end))
    }
}

proof fn lemma_strip_dashes(s: Seq<char>)
    ensures
        strip_dashes(s).len() > 0 ==> strip_dashes(s).last() != '-',
    decreases s.len(),
{
    if s.len() > 0 && s.last() == '-' {
        lemma_strip_dashes(s.drop_last());
    }
}

/// A heading slug is never empty and never ends in a dash.
pub proof fn lemma_slug_shape(text: Seq<char>)
    ensures
        slug(text).len() > 0,
        slug(text).last() != '-',
{
    lemma_strip_dashes(slug_run(lowered(trim(text))).0);
    reveal_strlit("section");
}

/// A character that a slug keeps: a letter or digit, `_` or `-`.
pub open spec fn slug_char(c: char) -> bool {
    unicode_alphanumeric(c) || c == '_' || c == '-'
}

proof fn lemma_slug_run_chars(s: Seq<char>)
    ensures
        forall|i: int|
            0 <= i < slug_run(s).0.len() ==> slug_char(#[trigger] slug_run(s).0[i]),
    decreases s.len(),
{
    if s.len() > 0 {
        lemma_slug_run_chars(s.drop_last());
        let acc = slug_run(s.drop_last()).0;
        assert forall|i: int| 0 <= i < slug_run(s).0.len() implies slug_char(
            #[trigger] slug_run(s).0[i],
        ) by {
            if i < acc.len() {
                assert(slug_run(s).0[i] == acc[i]);
            }
        }
    }
}

proof fn lemma_strip_dashes_prefix(s: Seq<char>)
    ensures
        strip_dashes(s).len() <= s.len(),
        forall|i: int| 0 <= i < strip_dashes(s).len() ==> #[trigger] strip_dashes(s)[i] == s[i],
    decreases s.len(),
{
    if s.len() > 0 && s.last() == '-' {
        lemma_strip_dashes_prefix(s.drop_last());
    }
}

/// A heading slug is made of letters, digits, `_` and `-`, unless it is the
/// fallback `section`.
pub proof fn lemma_slug_characters(text: Seq<char>)
    ensures
        slug(text) == "section"@ || forall|i: int|
            0 <= i < slug(text).len() ==> slug_char(#[trigger] slug(text)[i]),
{
    let run = slug_run(lowered(trim(text))).0;
    lemma_slug_run_chars(lowered(trim(text)));
    lemma_strip_dashes_prefix(run);
    let st = strip_dashes(run);
    if st.len() > 0 {
        assert forall|i: int| 0 <= i < st.len() implies slug_char(#[trigger] st[i]) by {
            assert(st[i] == run[i]);
        }
    }
}

proof fn lemma_lowered_fixed(s: Seq<char>)
    requires
        forall|i: int| 0 <= i < s.len() ==> lowercase_of(#[trigger] s[i]) == seq![s[i]],
    ensures
        lowered(s) == s,
    decreases s.len(),
{
    if s.len() > 0 {
        lemma_lowered_fixed(s.drop_last());
        assert(lowercase_of(s[s.len() - 1]) == seq![s.last()]);
        assert(s.drop_last() + seq![s.last()] =~= s);
    }
}

proof fn lemma_slug_run_fixed(s: Seq<char>)
    requires
        forall|i: int| 0 <= i < s.len() ==> slug_char(#[trigger] s[i]),
    ensures
        slug_run(s) == (s, false),
    decreases s.len(),
{
    if s.len() > 0 {
        lemma_slug_run_fixed(s.drop_last());
        assert(slug_char(s[s.len() - 1]));
        assert(s.drop_last().push(s.last()) =~= s);
    }
}

/// Slugging a slug gives it back, where each of its characters is its own
/// lower case, a character that slugs keep, and not whitespace (which Unicode
/// gives letters and digits, but which is not stated of `char::to_lowercase`
/// and `char::is_alphanumeric` here).
pub proof fn lemma_slug_idempotent(text: Seq<char>)
    requires
        forall|i: int|
            0 <= i < slug(text).len() ==> {
                &&& lowercase_of(#[trigger] slug(text)[i]) == seq![slug(text)[i]]
                &&& slug_char(slug(text)[i])
                &&& !is_white_space(slug(text)[i])
            },
    ensures
        slug(slug(text)) == slug(text),
{
    let s = slug(text);
    lemma_slug_shape(text);
    assert(!is_white_space(s[0]));
    assert(!is_white_space(s[s.len() - 1]));
    assert(trim_start(s) == s);
    assert(trim_end(s) == s);
    assert(trim(s) == s);
    lemma_lowered_fixed(s);
    lemma_slug_run_fixed(s);
    assert(strip_dashes(s) == s);
}

/// The ids already given out while numbering the headings of one document,
/// each with the number of times it was used.
pub struct HeadingIds {
    entries: Vec<(String, usize)>,
}

impl HeadingIds {
    /// No two entries are for the same id.
    pub closed spec fn wf(&self) -> bool {
        forall|i: int, j: int|
            0 <= i < self.entries@.len() && 0 <= j < self.entries@.len() && i != j
                ==> self.entries@[i].0@ != self.entries@[j].0@
    }

    /// How many times `id` was used.
    pub closed spec fn count(&self, id: Seq<char>) -> nat {
        if exists|i: int| 0 <= i < self.entries@.len() && self.entries@[i].0@ == id {
            self.entries@[choose|i: int|
                0 <= i < self.entries@.len() && self.entries@[i].0@ == id].1 as nat
        } else {
            0
        }
    }

    /// The largest use count of any id.
    pub closed spec fn bounded_by(&self, n: nat) -> bool {
        forall|i: int| 0 <= i < self.entries@.len() ==> self.entries@[i].1 <= n
    }

    proof fn lemma_count_at(&self, i: int)
        requires
            self.wf(),
            0 <= i < self.entries@.len(),
        ensures
            self.count(self.entries@[i].0@) == self.entries@[i].1,
    {
        let id = self.entries@[i].0@;
        let j = choose|j: int| 0 <= j < self.entries@.len() && self.entries@[j].0@ == id;
        assert(j == i);
    }

    /// No id has been used yet.
    pub fn new() -> (r: HeadingIds)
        ensures
            r.wf(),
            r.bounded_by(0),
            forall|id: Seq<char>| r.count(id) == 0,
    {
        HeadingIds { entries: Vec::new() }
    }

    fn find(&self, id: &[char]) -> (r: Option<usize>)
        requires
            self.wf(),
        ensures
            r matches Some(i) ==> i < self.entries@.len() && self.entries@[i as int].0@ == id@,
            r is None ==> self.count(id@) == 0 && forall|i: int|
                0 <= i < self.entries@.len() ==> self.entries@[i].0@ != id@,
    {
        let mut i: usize = 0;
        while i < self.entries.len()
            invariant
                i <= self.entries@.len(),
                forall|j: int| 0 <= j < i ==> self.entries@[j].0@ != id@,
            decreases self.entries@.len() - i,
        {
            let key = chars_of(self.entries[i].0.as_str());
            if crate::text::has_prefix(key.as_slice(), id) && key.len() == id.len() {
                assert(key@ =~= id@);
                return Some(i);
            }
            proof {
                if key@ == id@ {
                    assert(key@.subrange(0, id@.len() as int) =~= id@);
                }
            }
            i = i + 1;
        }
        None
    }

    /// Adds one use of `id`.
    fn bump(&mut self, id: &[char], bound: Ghost<nat>)
        requires
            old(self).wf(),
            old(self).bounded_by(bound@),
            bound@ < usize::MAX,
        ensures
            final(self).wf(),
            final(self).bounded_by(bound@ + 1),
            final(self).count(id@) == old(self).count(id@) + 1,
            forall|x: Seq<char>| x != id@ ==> final(self).count(x) == old(self).count(x),
    {
        match self.find(id) {
            Some(i) => {
                proof {
                    self.lemma_count_at(i as int);
                }
                let n = self.entries[i].1;
                let key = string_from_chars(id);
                let ghost before = *self;
                self.entries.set(i, (key, n + 1));
                proof {
                    assert(self.wf());
                    self.lemma_count_at(i as int);
                    assert forall|x: Seq<char>| x != id@ implies self.count(x) == before.count(
                        x,
                    ) by {
                        if exists|k: int| 0 <= k < self.entries@.len() && self.entries@[k].0@ == x {
                            let k = choose|k: int|
                                0 <= k < self.entries@.len() && self.entries@[k].0@ == x;
                            self.lemma_count_at(k);
                            before.lemma_count_at(k);
                        } else {
                            assert forall|k: int|
                                0 <= k < before.entries@.len() implies before.entries@[k].0@
                                != x by {
                                if k != i {
                                    assert(self.entries@[k] == before.entries@[k]);
                                }
                            }
                        }
                    }
                }
            },
            None => {
                let key = string_from_chars(id);
                let ghost before = *self;
                self.entries.push((key, 1));
                proof {
                    assert(self.wf());
                    let last = (self.entries@.len() - 1) as int;
                    self.lemma_count_at(last);
                    assert forall|x: Seq<char>| x != id@ implies self.count(x) == before.count(
                        x,
                    ) by {
                        if exists|k: int| 0 <= k < self.entries@.len() && self.entries@[k].0@ == x {
                            let k = choose|k: int|
                                0 <= k < self.entries@.len() && self.entries@[k].0@ == x;
                            self.lemma_count_at(k);
                            before.lemma_count_at(k);
                        } else {
                            assert forall|k: int|
                                0 <= k < before.entries@.len() implies before.entries@[k].0@
                                != x by {
                                assert(self.entries@[k] == before.entries@[k]);
                            }
                        }
                    }
                }
            },
        }
    }

    /// The number of uses of `id`.
    fn count_of(&self, id: &[char]) -> (r: usize)
        requires
            self.wf(),
        ensures
            r == self.count(id@),
    {
        match self.find(id) {
            Some(i) => {
                proof {
                    self.lemma_count_at(i as int);
                }
                self.entries[i].1
            },
            None => 0,
        }
    }
}

/// The id a heading gets when its slug is `base` and `base` was used `count`
/// times before: `base` itself the first time, then `base-1`, `base-2`, ...
pub open spec fn numbered_id(base: Seq<char>, count: nat) -> Seq<char> {
    if count == 0 {
        base
    } else {
        base + seq!['-'] + decimal(count)
    }
}

/// Records an explicit heading id (an empty id is not recorded).
pub fn register_heading_id(id: &str, seen: &mut HeadingIds, bound: Ghost<nat>)
    requires
        old(seen).wf(),
        old(seen).bounded_by(bound@),
        bound@ < usize::MAX,
    ensures
        final(seen).wf(),
        final(seen).bounded_by(bound@ + 1),
        forall|x: Seq<char>|
            #![trigger final(seen).count(x)]
            final(seen).count(x) == if x == id@ && id@.len() > 0 {
                old(seen).count(x) + 1
            } else {
                old(seen).count(x)
            },
{
    let chars = chars_of(id);
    if chars.len() > 0 {
        seen.bump(chars.as_slice(), bound);
    } else {
        assert(seen.bounded_by(bound@ + 1));
    }
}

/// The id for a heading whose slug is `base`, numbered after the uses of `base`
/// so far; records one more use of `base`.
pub fn unique_heading_id(base: String, seen: &mut HeadingIds, bound: Ghost<nat>) -> (r: String)
    requires
        old(seen).wf(),
        old(seen).bounded_by(bound@),
        bound@ < usize::MAX,
    ensures
        final(seen).wf(),
        final(seen).bounded_by(bound@ + 1),
        r@ == numbered_id(base@, old(seen).count(base@)),
        forall|x: Seq<char>|
            #![trigger final(seen).count(x)]
            final(seen).count(x) == if x == base@ {
                old(seen).count(x) + 1
            } else {
                old(seen).count(x)
            },
{
    let chars = chars_of(base.as_str());
    let count = seen.count_of(chars.as_slice());
    seen.bump(chars.as_slice(), bound);
    if count == 0 {
        base
    } else {
        let mut id: Vec<char> = Vec::new();
        push_chars(&mut id, chars.as_slice());
        id.push('-');
        let digits = decimal_chars(count as u64);
        push_chars(&mut id, digits.as_slice());
        assert(id@ =~= base@ + seq!['-'] + decimal(count as nat));
        string_from_chars(id.as_slice())
    }
}

/// The text of the heading whose start is followed by `nodes[j..]`: text, code
/// and math contents, with a space for each line break, up to the first heading
/// end.
pub open spec fn collect_text(nodes: Seq<NodeView>, j: int) -> Seq<char>
    decreases nodes.len() - j,
{
    if j < 0 || j >= nodes.len() {
        Seq::empty()
    } else {
        match nodes[j] {
            NodeView::HeadingEnd { .. } => Seq::empty(),
            NodeView::Text(t) => t + collect_text(nodes, j + 1),
            NodeView::Code(t) => t + collect_text(nodes, j + 1),
            NodeView::InlineMath(t) => t + collect_text(nodes, j + 1),
            NodeView::DisplayMath(t) => t + collect_text(nodes, j + 1),
            NodeView::SoftBreak => seq![' '] + collect_text(nodes, j + 1),
            NodeView::HardBreak => seq![' '] + collect_text(nodes, j + 1),
            _ => collect_text(nodes, j + 1),
        }
    }
}

proof fn lemma_collect_text_suffix(a: Seq<NodeView>, b: Seq<NodeView>, k: int, j: int)
    requires
        0 <= k <= j,
        k <= a.len(),
        a.len() == b.len(),
        a.skip(k) == b.skip(k),
    ensures
        collect_text(a, j) == collect_text(b, j),
    decreases a.len() - j,
{
    if j < a.len() {
        assert(a[j] == a.skip(k)[j - k]);
        assert(b[j] == b.skip(k)[j - k]);
        lemma_collect_text_suffix(a, b, k, j + 1);
    }
}

/// The text of the heading that starts at `nodes[start]`.
pub fn collect_heading_text(nodes: &Vec<Node>, start: usize) -> (r: Vec<char>)
    requires
        start < nodes.len(),
    ensures
        r@ == collect_text(nodes_view(nodes@), start + 1),
{
    let ghost v = nodes_view(nodes@);
    let mut text: Vec<char> = Vec::new();
    let mut j: usize = start + 1;
    while j < nodes.len()
        invariant
            start < j <= nodes@.len(),
            v == nodes_view(nodes@),
            collect_text(v, start + 1) == text@ + collect_text(v, j as int),
        decreases nodes@.len() - j,
    {
        assert(v[j as int] == nodes@[j as int]@);
        let ghost before = text@;
        match &nodes[j] {
            Node::HeadingEnd { .. } => {
                assert(text@ + Seq::<char>::empty() =~= text@);
                return text;
            },
            Node::Text(t) | Node::Code(t) | Node::InlineMath(t) | Node::DisplayMath(t) => {
                let cs = chars_of(t.as_str());
                push_chars(&mut text, cs.as_slice());
                assert(before + (t@ + collect_text(v, j + 1)) =~= text@ + collect_text(v, j + 1));
            },
            Node::SoftBreak | Node::HardBreak => {
                text.push(' ');
                assert(before + (seq![' '] + collect_text(v, j + 1)) =~= text@ + collect_text(
                    v,
                    j + 1,
                ));
            },
            _ => {},
        }
        j = j + 1;
    }
    assert(text@ + Seq::<char>::empty() =~= text@);
    text
}

/// The use counts after an explicit id `x` is recorded.
pub open spec fn registered(seen: spec_fn(Seq<char>) -> nat, x: Seq<char>) -> spec_fn(
    Seq<char>,
) -> nat {
    |y: Seq<char>|
        if y == x && x.len() > 0 {
            seen(y) + 1
        } else {
            seen(y)
        }
}

/// The use counts after one more use of `x`.
pub open spec fn bumped(seen: spec_fn(Seq<char>) -> nat, x: Seq<char>) -> spec_fn(
    Seq<char>,
) -> nat {
    |y: Seq<char>|
        if y == x {
            seen(y) + 1
        } else {
            seen(y)
        }
}

/// The nodes from position `i` on once headings have ids, given the use counts
/// `seen` of the ids before `i`: a heading with an explicit id keeps it (and
/// records it); a heading without one gets `numbered_id` of the slug of its
/// text; every other node stays.
pub open spec fn assign_ids(nodes: Seq<NodeView>, i: int, seen: spec_fn(Seq<char>) -> nat) -> Seq<
    NodeView,
>
    decreases nodes.len() - i,
{
    if i < 0 || i >= nodes.len() {
        Seq::empty()
    } else {
        match nodes[i] {
            NodeView::HeadingStart { id: Some(x), source } => seq![nodes[i]] + assign_ids(
                nodes,
                i + 1,
                registered(seen, x),
            ),
            NodeView::HeadingStart { id: None, source } => {
                let base = slug(collect_text(nodes, i + 1));
                seq![
                    NodeView::HeadingStart {
                        id: Some(numbered_id(base, seen(base))),
                        source,
                    },
                ] + assign_ids(nodes, i + 1, bumped(seen, base))
            },
            _ => seq![nodes[i]] + assign_ids(nodes, i + 1, seen),
        }
    }
}

/// The nodes once every heading has an id.
pub open spec fn with_heading_ids(nodes: Seq<NodeView>) -> Seq<NodeView> {
    assign_ids(nodes, 0, |x: Seq<char>| 0nat)
}

/// Gives every heading without an explicit id one made from its text.
pub fn add_heading_ids(nodes: Vec<Node>) -> (r: Vec<Node>)
    ensures
        nodes_view(r@) == with_heading_ids(nodes_view(nodes@)),
{
    let ghost orig = nodes_view(nodes@);
    let mut nodes = nodes;
    let mut seen = HeadingIds::new();
    let ghost mut model: spec_fn(Seq<char>) -> nat = |x: Seq<char>| 0nat;
    let mut index: usize = 0;
    assert(orig.skip(0) =~= nodes_view(nodes@).skip(0));
    assert(with_heading_ids(orig) =~= nodes_view(nodes@).take(0) + assign_ids(orig, 0, model));
    while index < nodes.len()
        invariant
            index <= nodes@.len(),
            nodes@.len() == orig.len(),
            nodes_view(nodes@).skip(index as int) == orig.skip(index as int),
            with_heading_ids(orig) == nodes_view(nodes@).take(index as int) + assign_ids(
                orig,
                index as int,
                model,
            ),
            seen.wf(),
            seen.bounded_by(index as nat),
            forall|x: Seq<char>| #[trigger] seen.count(x) == model(x),
        decreases nodes@.len() - index,
    {
        let ghost cur = nodes_view(nodes@);
        assert(orig[index as int] == orig.skip(index as int)[0]);
        assert(cur[index as int] == cur.skip(index as int)[0]);
        assert(cur[index as int] == nodes@[index as int]@);
        let mut generated: Option<String> = None;
        let mut source: usize = 0;
        match &nodes[index] {
            Node::HeadingStart { id: Some(id), .. } => {
                register_heading_id(id.as_str(), &mut seen, Ghost(index as nat));
                proof {
                    model = registered(model, id@);
                }
            },
            Node::HeadingStart { id: None, source: s } => {
                source = *s;
                let text = collect_heading_text(&nodes, index);
                proof {
                    lemma_collect_text_suffix(cur, orig, index as int, index + 1);
                }
                let base = heading_slug(text.as_slice());
                let ghost b = base@;
                let id = unique_heading_id(base, &mut seen, Ghost(index as nat));
                proof {
                    model = bumped(model, b);
                }
                generated = Some(id);
            },
            _ => {},
        }
        let ghost old_nodes = nodes@;
        match generated {
            Some(id) => {
                nodes.set(index, Node::HeadingStart { id: Some(id), source });
            },
            None => {},
        }
        proof {
            let now = nodes_view(nodes@);
            assert(now.skip(index + 1) =~= orig.skip(index + 1)) by {
                assert forall|k: int| 0 <= k < now.skip(index + 1).len() implies #[trigger] now.skip(
                    index + 1,
                )[k] == orig.skip(index + 1)[k] by {
                    assert(now[index + 1 + k] == cur[index + 1 + k]);
                    assert(cur[index + 1 + k] == cur.skip(index as int)[k + 1]);
                }
            }
            assert(now.take(index + 1) =~= cur.take(index as int).push(now[index as int]));
            assert forall|x: Seq<char>| #[trigger] seen.count(x) == model(x) by {}
        }
        index = index + 1;
    }
    assert(nodes_view(nodes@).take(index as int) =~= nodes_view(nodes@));
    assert(assign_ids(orig, index as int, model) =~= Seq::<NodeView>::empty());
    nodes
}

/// A heading's generated id is made from all of its text: for a first heading
/// without an id whose content is text `a`, inline code `b`, a soft line break,
/// inline math `c`, a hard line break, display math `d` and some other inline
/// element, the id is the slug of `a + b + " " + c + " " + d`, whatever follows
/// the heading.
pub proof fn lemma_heading_id_uses_all_text(
    a: Seq<char>,
    b: Seq<char>,
    c: Seq<char>,
    d: Seq<char>,
    start: nat,
    other: nat,
    end: nat,
    rest: Seq<NodeView>,
)
    ensures
        with_heading_ids(
            seq![
                NodeView::HeadingStart { id: None, source: start },
                NodeView::Text(a),
                NodeView::Code(b),
                NodeView::SoftBreak,
                NodeView::InlineMath(c),
                NodeView::HardBreak,
                NodeView::DisplayMath(d),
                NodeView::Other { source: other },
                NodeView::HeadingEnd { source: end },
            ] + rest,
        )[0] == (NodeView::HeadingStart {
            id: Some(slug(a + b + seq![' '] + c + seq![' '] + d)),
            source: start,
        }),
{
    let nodes = seq![
        NodeView::HeadingStart { id: None, source: start },
        NodeView::Text(a),
        NodeView::Code(b),
        NodeView::SoftBreak,
        NodeView::InlineMath(c),
        NodeView::HardBreak,
        NodeView::DisplayMath(d),
        NodeView::Other { source: other },
        NodeView::HeadingEnd { source: end },
    ] + rest;
    assert(nodes[0] == NodeView::HeadingStart { id: None, source: start });
    assert(nodes[1] == NodeView::Text(a));
    assert(nodes[2] == NodeView::Code(b));
    assert(nodes[3] == NodeView::SoftBreak);
    assert(nodes[4] == NodeView::InlineMath(c));
    assert(nodes[5] == NodeView::HardBreak);
    assert(nodes[6] == NodeView::DisplayMath(d));
    assert(nodes[7] == NodeView::Other { source: other });
    assert(nodes[8] == NodeView::HeadingEnd { source: end });
    assert(collect_text(nodes, 8) == Seq::<char>::empty());
    assert(collect_text(nodes, 7) == Seq::<char>::empty());
    assert(collect_text(nodes, 6) == d);
    assert(collect_text(nodes, 5) == seq![' '] + d);
    assert(collect_text(nodes, 4) == c + (seq![' '] + d));
    assert(collect_text(nodes, 3) == seq![' '] + (c + (seq![' '] + d)));
    assert(collect_text(nodes, 2) == b + (seq![' '] + (c + (seq![' '] + d))));
    assert(collect_text(nodes, 1) == a + (b + (seq![' '] + (c + (seq![' '] + d)))));
    assert(collect_text(nodes, 1) =~= a + b + seq![' '] + c + seq![' '] + d);
}

} // verus!
