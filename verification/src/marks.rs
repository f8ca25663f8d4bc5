//! Highlight marks: `==text==` inside a text node becomes a `<mark>` element.
use vstd::prelude::*;
use crate::document::{nodes_view, push_node, Node, NodeView};
use crate::text::{
    contains, contains_seq, find_at, find_from, lemma_find_from, lemma_find_from_skip,
    lemma_find_shift, occurs_at, string_from_chars, trim, trimmed,
};

verus! {

/// The markup that opens a highlight.
pub open spec fn mark_open() -> Seq<char> {
    "<mark class=\"mdp-mark\">"@
}

/// The markup that closes a highlight.
pub open spec fn mark_close() -> Seq<char> {
    "</mark>"@
}

/// The delimiter of a highlight.
pub open spec fn mark_delim() -> Seq<char> {
    seq!['=', '=']
}

/// The text node for what remains of `t` from `start` on, if anything does.
pub open spec fn mark_tail(t: Seq<char>, start: int) -> Seq<NodeView> {
    if 0 <= start < t.len() {
        seq![NodeView::Text(t.skip(start))]
    } else {
        Seq::empty()
    }
}

/// The nodes that the text `t` becomes from position `start` on: each `==`
/// followed later by another `==`, with non-blank text between them, becomes
/// the text before it, the opening markup, the text between, and the closing
/// markup; scanning stops at the first `==` that has no partner or encloses
/// only whitespace, and what remains is one text node.
pub open spec fn mark_from(t: Seq<char>, start: int) -> Seq<NodeView>
    decreases t.len() - start,
{
    if start < 0 || start > t.len() {
        Seq::empty()
    } else {
        match find_from(t, mark_delim(), start) {
            None => mark_tail(t, start),
            Some(open) => match find_from(t, mark_delim(), open + 2) {
                None => mark_tail(t, start),
                Some(close) => {
                    let body = t.subrange(open + 2, close);
                    if trim(body).len() == 0 {
                        mark_tail(t, start)
                    } else {
                        proof {
                            lemma_find_from(t, mark_delim(), start);
                            lemma_find_from(t, mark_delim(), open + 2);
                        }
                        (if open > start {
                            seq![NodeView::Text(t.subrange(start, open))]
                        } else {
                            Seq::empty()
                        }) + seq![
                            NodeView::Html(mark_open()),
                            NodeView::Text(body),
                            NodeView::Html(mark_close()),
                        ] + mark_from(t, close + 2)
                    }
                },
            },
        }
    }
}

/// The nodes a text node `t` becomes.
pub open spec fn mark_text_nodes(t: Seq<char>) -> Seq<NodeView> {
    mark_from(t, 0)
}

fn text_node(chars: &[char]) -> (r: Node)
    ensures
        r@ == NodeView::Text(chars@),
{
    Node::Text(string_from_chars(chars))
}

/// Appends to `output` the nodes that the text `text` becomes once its
/// `==highlights==` are marked.
pub fn push_mark_highlight_events(text: &[char], output: &mut Vec<Node>)
    ensures
        nodes_view(final(output)@) == nodes_view(old(output)@) + mark_text_nodes(text@),
{
    let mut delim: Vec<char> = Vec::new();
    delim.push('=');
    delim.push('=');
    assert(delim@ =~= mark_delim());
    let ghost t = text@;
    let ghost base = nodes_view(output@);
    let mut start: usize = 0;
    loop
        invariant
            start <= t.len(),
            t == text@,
            t.len() == text.len(),
            delim@ == mark_delim(),
            base + mark_from(t, 0) == nodes_view(output@) + mark_from(t, start as int),
        ensures
            start <= t.len(),
            base + mark_from(t, 0) == nodes_view(output@) + mark_tail(t, start as int),
        decreases t.len() - start,
    {
        proof {
            lemma_find_from(t, mark_delim(), start as int);
        }
        let open = match find_at(text, delim.as_slice(), start) {
            Some(o) => o,
            None => {
                assert(mark_from(t, start as int) == mark_tail(t, start as int));
                break;
            },
        };
        assert(occurs_at(t, open as int, mark_delim()));
        assert(open + 2 <= t.len());
        proof {
            lemma_find_from(t, mark_delim(), open + 2);
        }
        let close = match find_at(text, delim.as_slice(), open + 2) {
            Some(c) => c,
            None => {
                assert(mark_from(t, start as int) == mark_tail(t, start as int));
                break;
            },
        };
        assert(occurs_at(t, close as int, mark_delim()));
        let body = vstd::slice::slice_subrange(text, open + 2, close);
        let trimmed_body = trimmed(body);
        if trimmed_body.len() == 0 {
            assert(mark_from(t, start as int) == mark_tail(t, start as int));
            break;
        }
        let ghost old_out = nodes_view(output@);
        if open > start {
            push_node(output, text_node(vstd::slice::slice_subrange(text, start, open)));
        }
        push_node(output, Node::Html("<mark class=\"mdp-mark\">".to_owned()));
        push_node(output, text_node(body));
        push_node(output, Node::Html("</mark>".to_owned()));
        assert(nodes_view(output@) =~= old_out + (if open > start {
            seq![NodeView::Text(t.subrange(start as int, open as int))]
        } else {
            Seq::empty()
        }) + seq![
            NodeView::Html(mark_open()),
            NodeView::Text(t.subrange(open + 2, close as int)),
            NodeView::Html(mark_close()),
        ]);
        start = close + 2;
    }
    let ghost old_out = nodes_view(output@);
    if start < text.len() {
        push_node(output, text_node(vstd::slice::slice_subrange(text, start, text.len())));
        assert(text@.subrange(start as int, text@.len() as int) =~= t.skip(start as int));
    }
    assert(nodes_view(output@) =~= old_out + mark_tail(t, start as int));
}

/// The nodes after highlight marks are added: each text node that holds `==`
/// becomes `mark_text_nodes` of its text; every other node stays.
pub open spec fn with_marks(nodes: Seq<NodeView>) -> Seq<NodeView>
    decreases nodes.len(),
{
    if nodes.len() == 0 {
        Seq::empty()
    } else {
        let rest = with_marks(nodes.drop_last());
        match nodes.last() {
            NodeView::Text(t) => if contains(t, mark_delim()) {
                rest + mark_text_nodes(t)
            } else {
                rest.push(nodes.last())
            },
            _ => rest.push(nodes.last()),
        }
    }
}

/// Adds highlight marks to every text node that holds `==`.
pub fn add_mark_highlights(nodes: &Vec<Node>) -> (r: Vec<Node>)
    ensures
        nodes_view(r@) == with_marks(nodes_view(nodes@)),
{
    let mut output: Vec<Node> = Vec::new();
    let mut delim: Vec<char> = Vec::new();
    delim.push('=');
    delim.push('=');
    assert(delim@ =~= mark_delim());
    let mut i: usize = 0;
    while i < nodes.len()
        invariant
            i <= nodes@.len(),
            delim@ == mark_delim(),
            nodes_view(output@) == with_marks(nodes_view(nodes@).take(i as int)),
        decreases nodes@.len() - i,
    {
        let ghost prefix = nodes_view(nodes@).take(i + 1);
        assert(prefix.drop_last() =~= nodes_view(nodes@).take(i as int));
        assert(prefix.last() == nodes@[i as int]@);
        match &nodes[i] {
            Node::Text(t) => {
                let chars = crate::text::chars_of(t.as_str());
                if contains_seq(chars.as_slice(), delim.as_slice()) {
                    push_mark_highlight_events(chars.as_slice(), &mut output);
                } else {
                    push_node(&mut output, nodes[i].duplicate());
                }
            },
            _ => {
                push_node(&mut output, nodes[i].duplicate());
            },
        }
        i = i + 1;
    }
    assert(nodes_view(nodes@).take(i as int) =~= nodes_view(nodes@));
    output
}

/// What a node contributes to the source text of a marked text: its text, or
/// the `==` delimiter that the markup stands for.
pub open spec fn marked_source(nodes: Seq<NodeView>) -> Seq<char>
    decreases nodes.len(),
{
    if nodes.len() == 0 {
        Seq::empty()
    } else {
        (match nodes[0] {
            NodeView::Text(s) => s,
            _ => mark_delim(),
        }) + marked_source(nodes.drop_first())
    }
}

proof fn lemma_marked_source_concat(a: Seq<NodeView>, b: Seq<NodeView>)
    ensures
        marked_source(a + b) == marked_source(a) + marked_source(b),
    decreases a.len(),
{
    if a.len() == 0 {
        assert(a + b =~= b);
    } else {
        lemma_marked_source_concat(a.drop_first(), b);
        assert((a + b).drop_first() =~= a.drop_first() + b);
    }
}

/// Highlighting loses no text: writing every highlight back as `==text==` gives
/// the original text.
pub proof fn lemma_marks_keep_text(t: Seq<char>)
    ensures
        marked_source(mark_text_nodes(t)) == t,
{
    lemma_mark_from_source(t, 0);
    assert(t.skip(0) =~= t);
}

proof fn lemma_mark_from_source(t: Seq<char>, start: int)
    requires
        0 <= start <= t.len(),
    ensures
        marked_source(mark_from(t, start)) == t.skip(start),
    decreases t.len() - start,
{
    lemma_find_from(t, mark_delim(), start);
    let tail = mark_tail(t, start);
    if start < t.len() {
        assert(marked_source(tail) =~= t.skip(start)) by {
            assert(marked_source(tail.drop_first()) == Seq::<char>::empty());
        }
    } else {
        assert(t.skip(start) =~= Seq::<char>::empty());
    }
    match find_from(t, mark_delim(), start) {
        None => {},
        Some(open) => {
            lemma_find_from(t, mark_delim(), open + 2);
            match find_from(t, mark_delim(), open + 2) {
                None => {},
                Some(close) => {
                    let body = t.subrange(open + 2, close);
                    if trim(body).len() != 0 {
                        lemma_mark_from_source(t, close + 2);
                        let pre: Seq<NodeView> = if open > start {
                            seq![NodeView::Text(t.subrange(start, open))]
                        } else {
                            Seq::empty()
                        };
                        let mid = seq![
                            NodeView::Html(mark_open()),
                            NodeView::Text(body),
                            NodeView::Html(mark_close()),
                        ];
                        let rest = mark_from(t, close + 2);
                        lemma_marked_source_concat(pre + mid, rest);
                        lemma_marked_source_concat(pre, mid);
                        assert(marked_source(pre) =~= t.subrange(start, open)) by {
                            if open > start {
                                assert(marked_source(pre.drop_first()) == Seq::<char>::empty());
                            }
                        }
                        assert(marked_source(mid) =~= mark_delim() + body + mark_delim()) by {
                            let m1 = mid.drop_first();
                            let m2 = m1.drop_first();
                            let m3 = m2.drop_first();
                            assert(m3 =~= Seq::<NodeView>::empty());
                            assert(marked_source(m2) =~= mark_delim() + marked_source(m3));
                            assert(marked_source(m1) =~= body + marked_source(m2));
                            assert(marked_source(mid) =~= mark_delim() + marked_source(m1));
                        }
                        assert(t.subrange(open, open + 2) =~= mark_delim());
                        assert(t.subrange(close, close + 2) =~= mark_delim());
                        assert(t.skip(start) =~= t.subrange(start, open) + mark_delim() + body
                            + mark_delim() + t.skip(close + 2));
                    }
                },
            }
        },
    }
}

/// Marking does not depend on what stands before the scan position: the text
/// `q + s` marked from `q.len() + k` on is `s` marked from `k` on.
proof fn lemma_mark_from_shift(q: Seq<char>, s: Seq<char>, k: int)
    requires
        0 <= k <= s.len(),
    ensures
        mark_from(q + s, q.len() + k) == mark_from(s, k),
    decreases s.len() - k,
{
    let t = q + s;
    let n = q.len() as int;
    let pat = mark_delim();
    assert(t.skip(n) =~= s);
    assert(t.skip(n + k) =~= s.skip(k));
    lemma_find_shift(t, pat, n, k);
    lemma_find_from(s, pat, k);
    match find_from(s, pat, k) {
        None => {},
        Some(open) => {
            lemma_find_shift(t, pat, n, open + 2);
            lemma_find_from(s, pat, open + 2);
            match find_from(s, pat, open + 2) {
                None => {},
                Some(close) => {
                    assert(t.subrange(n + open + 2, n + close) =~= s.subrange(open + 2, close));
                    assert(t.subrange(n + k, n + open) =~= s.subrange(k, open));
                    lemma_mark_from_shift(q, s, close + 2);
                },
            }
        },
    }
}

/// In `u + "==" + w`, where `u` does not end in `=` and holds no `==`, the
/// first `==` is the one after `u`.
proof fn lemma_first_delim(u: Seq<char>, w: Seq<char>)
    requires
        !contains(u + seq!['='], mark_delim()),
    ensures
        find_from(u + mark_delim() + w, mark_delim(), 0) == Some(u.len() as int),
{
    let pat = mark_delim();
    let t = u + pat + w;
    let v = u + seq!['='];
    lemma_find_from(v, pat, 0);
    assert forall|j: int| 0 <= j < u.len() implies !occurs_at(t, j, pat) by {
        if occurs_at(t, j, pat) {
            assert(t.subrange(j, j + 2)[0] == t[j]);
            assert(t.subrange(j, j + 2)[1] == t[j + 1]);
            assert(v.subrange(j, j + 2) =~= t.subrange(j, j + 2));
            assert(occurs_at(v, j, pat));
        }
    }
    lemma_find_from_skip(t, pat, 0, u.len() as int);
    assert(t.subrange(u.len() as int, u.len() + 2 as int) =~= pat);
}

/// Every highlight is marked, one after another: where `p` does not end in `=`
/// and holds no `==`, and `x` is not blank, does not end in `=` and holds no
/// `==`, the text `p + "==" + x + "==" + s` becomes `p` (if not empty), the
/// opening markup, `x`, the closing markup, and then what `s` alone becomes.
pub proof fn lemma_highlights_in_sequence(p: Seq<char>, x: Seq<char>, s: Seq<char>)
    requires
        !contains(p + seq!['='], seq!['=', '=']),
        !contains(x + seq!['='], seq!['=', '=']),
        trim(x).len() != 0,
    ensures
        mark_text_nodes(p + seq!['=', '='] + x + seq!['=', '='] + s) == (if p.len() > 0 {
            seq![NodeView::Text(p)]
        } else {
            Seq::empty()
        }) + seq![
            NodeView::Html("<mark class=\"mdp-mark\">"@),
            NodeView::Text(x),
            NodeView::Html("</mark>"@),
        ] + mark_text_nodes(s),
{
    let pat = mark_delim();
    let q = p + pat + x + pat;
    let t = q + s;
    assert(p + seq!['=', '='] + x + seq!['=', '='] + s =~= t);
    let open = p.len() as int;
    let a = open + 2;
    let close = a + x.len();
    assert(t =~= p + pat + (x + pat + s));
    lemma_first_delim(p, x + pat + s);
    assert(t.skip(a) =~= x + pat + s);
    lemma_first_delim(x, s);
    lemma_find_shift(t, pat, a, 0);
    assert(find_from(t, pat, a) == Some(close));
    assert(t.subrange(a, close) =~= x);
    assert(t.subrange(0, open) =~= p);
    assert(q.len() == close + 2);
    lemma_mark_from_shift(q, s, 0);
}

} // verus!
