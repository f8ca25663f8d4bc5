//! Markdown to HTML: the parser and HTML writer of `pulldown_cmark`, and the
//! conversion between its events and the library's `Node` model, on which the
//! heading, highlight and image transformations work.
use vstd::prelude::*;
use pulldown_cmark::{html, CowStr, Event, Options, Parser, Tag, TagEnd};
use crate::document::{nodes_view, push_node, Node, NodeView};
use crate::headings::{add_heading_ids, with_heading_ids, assign_ids, registered, bumped};
use crate::marks::{add_mark_highlights, with_marks, mark_from, mark_tail, mark_text_nodes, mark_open, mark_close};

verus! {

/// A parser event (`pulldown_cmark::Event`); the library reads it only through
/// the functions below.
#[verifier::external_type_specification]
#[verifier::external_body]
pub struct ExEvent<'a>(Event<'a>);

/// The events that `pulldown_cmark` produces for the Markdown text `md`, with
/// tables, strikethrough, task lists, heading attributes, math and GitHub
/// extensions enabled.
pub uninterp spec fn markdown_parse(md: Seq<char>) -> Seq<Event<'static>>;

/// The `Node` that a text-like parser event becomes; `None` for any other event.
pub uninterp spec fn text_event_node(event: Event<'static>) -> Option<NodeView>;

/// The `Node` that a parser event other than a text-like one becomes, kept by its
/// position `source`.
pub uninterp spec fn tag_event_node(event: Event<'static>, source: nat) -> NodeView;

/// The parser event that a text-like `Node` stands for.
pub uninterp spec fn node_event(node: NodeView) -> Event<'static>;

/// The parser event `event`, copied, with the heading id `id` where `event`
/// starts a heading.
pub uninterp spec fn heading_with_id(event: Event<'static>, id: Option<Seq<char>>) -> Event<'static>;

/// The parser event `event`, copied, with the image destination `url` where
/// `event` starts an image.
pub uninterp spec fn image_with_url(event: Event<'static>, url: Seq<char>) -> Event<'static>;

/// A copy of the parser event `event`, as `Event::clone` makes it.
pub uninterp spec fn cloned_event(event: Event<'static>) -> Event<'static>;

/// The HTML that `pulldown_cmark::html::push_html` writes for `events`.
pub uninterp spec fn html_of(events: Seq<Event<'static>>) -> Seq<char>;

/// A node that stands for a text-like parser event.
pub open spec fn is_text_like(n: NodeView) -> bool {
    match n {
        NodeView::Text(_) | NodeView::Code(_) | NodeView::InlineMath(_) | NodeView::DisplayMath(_)
        | NodeView::Html(_) | NodeView::InlineHtml(_) | NodeView::SoftBreak
        | NodeView::HardBreak => true,
        _ => false,
    }
}

/// The parser position that a node refers to, if it refers to one.
pub open spec fn source_of(n: NodeView) -> Option<nat> {
    match n {
        NodeView::HeadingStart { source, .. } => Some(source),
        NodeView::HeadingEnd { source } => Some(source),
        NodeView::ImageStart { source, .. } => Some(source),
        NodeView::Other { source } => Some(source),
        _ => None,
    }
}

/// Every node refers to a parser position below `n`.
pub open spec fn sources_within(nodes: Seq<NodeView>, n: nat) -> bool {
    forall|i: int|
        0 <= i < nodes.len() ==> (#[trigger] source_of(nodes[i]) matches Some(s) ==> s < n)
}

/// The events of the Markdown text `md` (`Parser::new_ext`).
#[verifier::external_body]
fn parse_events(md: &str) -> (r: Vec<Event<'static>>)
    ensures
        r@ == markdown_parse(md@),
{
    let options = Options::ENABLE_TABLES | Options::ENABLE_STRIKETHROUGH
        | Options::ENABLE_TASKLISTS | Options::ENABLE_HEADING_ATTRIBUTES | Options::ENABLE_MATH
        | Options::ENABLE_GFM;
    Parser::new_ext(md, options).map(Event::into_static).collect()
}

/// The text-like node that a parser event holds, if it is one.
#[verifier::external_body]
fn text_node_of(event: &Event<'static>) -> (r: Option<Node>)
    ensures
        r matches Some(n) ==> text_event_node(*event) == Some(n@) && is_text_like(n@),
        r is None ==> text_event_node(*event) is None,
{
    match event {
        Event::Text(t) => Some(Node::Text(t.to_string())),
        Event::Code(t) => Some(Node::Code(t.to_string())),
        Event::InlineMath(t) => Some(Node::InlineMath(t.to_string())),
        Event::DisplayMath(t) => Some(Node::DisplayMath(t.to_string())),
        Event::Html(t) => Some(Node::Html(t.to_string())),
        Event::InlineHtml(t) => Some(Node::InlineHtml(t.to_string())),
        Event::SoftBreak => Some(Node::SoftBreak),
        Event::HardBreak => Some(Node::HardBreak),
        _ => None,
    }
}

/// The node for a parser event that is not text-like: a heading start (with its
/// id), a heading end, an image start (with its destination) or any other event,
/// kept by its position `source`.
#[verifier::external_body]
fn tag_node_of(event: &Event<'static>, source: usize) -> (r: Node)
    ensures
        r@ == tag_event_node(*event, source as nat),
        source_of(r@) == Some(source as nat),
{
    match event {
        Event::Start(Tag::Heading { id, .. }) => Node::HeadingStart {
            id: id.as_ref().map(|s| s.to_string()),
            source,
        },
        Event::End(TagEnd::Heading(_)) => Node::HeadingEnd { source },
        Event::Start(Tag::Image { dest_url, .. }) => Node::ImageStart {
            url: dest_url.to_string(),
            source,
        },
        _ => Node::Other { source },
    }
}

/// The parser event for a text-like node.
#[verifier::external_body]
fn event_of_text(node: &Node) -> (r: Event<'static>)
    requires
        is_text_like(node@),
    ensures
        r == node_event(node@),
{
    match node {
        Node::Text(t) => Event::Text(t.clone().into()),
        Node::Code(t) => Event::Code(t.clone().into()),
        Node::InlineMath(t) => Event::InlineMath(t.clone().into()),
        Node::DisplayMath(t) => Event::DisplayMath(t.clone().into()),
        Node::Html(t) => Event::Html(t.clone().into()),
        Node::InlineHtml(t) => Event::InlineHtml(t.clone().into()),
        Node::HardBreak => Event::HardBreak,
        _ => Event::SoftBreak,
    }
}

/// A copy of a heading start event with the id `id` (other events are copied
/// unchanged).
#[verifier::external_body]
fn heading_event(event: &Event<'static>, id: &Option<String>) -> (r: Event<'static>)
    ensures
        r == heading_with_id(*event, match id {
            Some(s) => Some(s@),
            None => None,
        }),
{
    match event.clone() {
        Event::Start(Tag::Heading { level, classes, attrs, .. }) => Event::Start(Tag::Heading {
            level,
            id: id.clone().map(CowStr::from),
            classes,
            attrs,
        }),
        other => other,
    }
}

/// A copy of an image start event with the destination `url` (other events are
/// copied unchanged).
#[verifier::external_body]
fn image_event(event: &Event<'static>, url: &String) -> (r: Event<'static>)
    ensures
        r == image_with_url(*event, url@),
{
    match event.clone() {
        Event::Start(Tag::Image { link_type, title, id, .. }) => Event::Start(Tag::Image {
            link_type,
            dest_url: CowStr::from(url.clone()),
            title,
            id,
        }),
        other => other,
    }
}

/// A copy of a parser event (`Event: Clone`, derived). The copy reads as the
/// original, but its strings may change representation (a short boxed string
/// comes back inlined), so it is named rather than equated with the original.
#[verifier::external_body]
fn clone_event(event: &Event<'static>) -> (r: Event<'static>)
    ensures
        r == cloned_event(*event),
{
    event.clone()
}

/// The HTML for a sequence of parser events (`html::push_html`).
#[verifier::external_body]
fn render_events(events: Vec<Event<'static>>) -> (r: String)
    ensures
        r@ == html_of(events@),
{
    let mut output = String::new();
    html::push_html(&mut output, events.into_iter());
    output
}

/// The node for the parser event at position `i` of `events`.
pub open spec fn event_to_node(events: Seq<Event<'static>>, i: int) -> NodeView {
    match text_event_node(events[i]) {
        Some(n) => n,
        None => tag_event_node(events[i], i as nat),
    }
}

/// The nodes for a sequence of parser events.
pub open spec fn to_nodes(events: Seq<Event<'static>>) -> Seq<NodeView> {
    Seq::new(events.len(), |i: int| event_to_node(events, i))
}

/// The nodes of a parsed document, with the facts that hold of them.
pub open spec fn nodes_of_events(events: Seq<Event<'static>>, nodes: Seq<NodeView>) -> bool {
    &&& nodes == to_nodes(events)
    &&& sources_within(nodes, events.len())
    &&& forall|i: int| 0 <= i < nodes.len() ==> (#[trigger] source_of(nodes[i]) is None
        ==> is_text_like(nodes[i]))
}

/// Converts parser events to nodes.
fn events_to_nodes(events: &Vec<Event<'static>>) -> (r: Vec<Node>)
    ensures
        nodes_of_events(events@, nodes_view(r@)),
{
    let mut nodes: Vec<Node> = Vec::new();
    let mut i: usize = 0;
    while i < events.len()
        invariant
            i <= events@.len(),
            nodes@.len() == i,
            forall|j: int| 0 <= j < i ==> nodes_view(nodes@)[j] == event_to_node(events@, j),
            sources_within(nodes_view(nodes@), events@.len()),
            forall|j: int| 0 <= j < i ==> (#[trigger] source_of(nodes_view(nodes@)[j]) is None
                ==> is_text_like(nodes_view(nodes@)[j])),
        decreases events@.len() - i,
    {
        let node = match text_node_of(&events[i]) {
            Some(n) => n,
            None => tag_node_of(&events[i], i),
        };
        push_node(&mut nodes, node);
        i = i + 1;
    }
    assert(nodes_view(nodes@) =~= to_nodes(events@));
    nodes
}

/// The parser event that a node stands for, given the parser's events.
pub open spec fn node_to_event(events: Seq<Event<'static>>, n: NodeView) -> Event<'static> {
    match n {
        NodeView::HeadingStart { id, source } => heading_with_id(events[source as int], id),
        NodeView::HeadingEnd { source } => cloned_event(events[source as int]),
        NodeView::ImageStart { url, source } => image_with_url(events[source as int], url),
        NodeView::Other { source } => cloned_event(events[source as int]),
        _ => node_event(n),
    }
}

/// The parser events that a sequence of nodes stands for.
pub open spec fn rebuild(events: Seq<Event<'static>>, nodes: Seq<NodeView>) -> Seq<Event<'static>> {
    nodes.map_values(|n: NodeView| node_to_event(events, n))
}

/// Every node either refers to a parser position or is text-like.
pub open spec fn well_formed_nodes(nodes: Seq<NodeView>, n: nat) -> bool {
    &&& sources_within(nodes, n)
    &&& forall|i: int| 0 <= i < nodes.len() ==> (#[trigger] source_of(nodes[i]) is None
        ==> is_text_like(nodes[i]))
}

/// Converts nodes back to parser events.
fn nodes_to_events(events: &Vec<Event<'static>>, nodes: &Vec<Node>) -> (r: Vec<Event<'static>>)
    requires
        well_formed_nodes(nodes_view(nodes@), events@.len()),
    ensures
        r@ == rebuild(events@, nodes_view(nodes@)),
{
    let mut out: Vec<Event<'static>> = Vec::new();
    let mut i: usize = 0;
    while i < nodes.len()
        invariant
            i <= nodes@.len(),
            well_formed_nodes(nodes_view(nodes@), events@.len()),
            out@ == rebuild(events@, nodes_view(nodes@).take(i as int)),
        decreases nodes@.len() - i,
    {
        let ghost n = nodes_view(nodes@)[i as int];
        assert(n == nodes@[i as int]@);
        assert(source_of(n) matches Some(s) ==> s < events@.len());
        let e = match &nodes[i] {
            Node::HeadingStart { id, source } => heading_event(&events[*source], id),
            Node::HeadingEnd { source } => clone_event(&events[*source]),
            Node::ImageStart { url, source } => image_event(&events[*source], url),
            Node::Other { source } => clone_event(&events[*source]),
            _ => event_of_text(&nodes[i]),
        };
        out.push(e);
        assert(nodes_view(nodes@).take(i + 1) =~= nodes_view(nodes@).take(i as int).push(n));
        assert(rebuild(events@, nodes_view(nodes@).take(i + 1)) =~= rebuild(
            events@,
            nodes_view(nodes@).take(i as int),
        ).push(node_to_event(events@, n)));
        i = i + 1;
    }
    assert(nodes_view(nodes@).take(i as int) =~= nodes_view(nodes@));
    out
}

/// Heading ids keep nodes well formed.
pub proof fn lemma_heading_ids_well_formed(nodes: Seq<NodeView>, n: nat)
    requires
        well_formed_nodes(nodes, n),
    ensures
        well_formed_nodes(with_heading_ids(nodes), n),
{
    lemma_assign_ids_well_formed(nodes, 0, |x: Seq<char>| 0nat, n);
}

proof fn lemma_assign_ids_well_formed(
    nodes: Seq<NodeView>,
    i: int,
    seen: spec_fn(Seq<char>) -> nat,
    n: nat,
)
    requires
        well_formed_nodes(nodes, n),
        0 <= i,
    ensures
        well_formed_nodes(assign_ids(nodes, i, seen), n),
    decreases nodes.len() - i,
{
    if i < nodes.len() {
        assert(source_of(nodes[i]) matches Some(s) ==> s < n);
        let head = assign_ids(nodes, i, seen)[0];
        match nodes[i] {
            NodeView::HeadingStart { id: Some(x), source } => {
                lemma_assign_ids_well_formed(nodes, i + 1, registered(seen, x), n);
            },
            NodeView::HeadingStart { id: None, source } => {
                let base = crate::headings::slug(crate::headings::collect_text(nodes, i + 1));
                lemma_assign_ids_well_formed(nodes, i + 1, bumped(seen, base), n);
            },
            _ => {
                lemma_assign_ids_well_formed(nodes, i + 1, seen, n);
            },
        }
        let all = assign_ids(nodes, i, seen);
        assert forall|k: int| 0 <= k < all.len() implies (#[trigger] source_of(all[k]) matches Some(
            s,
        ) ==> s < n) && (source_of(all[k]) is None ==> is_text_like(all[k])) by {
            if k > 0 {
                match nodes[i] {
                    NodeView::HeadingStart { id: Some(x), source } => {
                        assert(all[k] == assign_ids(nodes, i + 1, registered(seen, x))[k - 1]);
                    },
                    NodeView::HeadingStart { id: None, source } => {
                        let base = crate::headings::slug(
                            crate::headings::collect_text(nodes, i + 1),
                        );
                        assert(all[k] == assign_ids(nodes, i + 1, bumped(seen, base))[k - 1]);
                    },
                    _ => {
                        assert(all[k] == assign_ids(nodes, i + 1, seen)[k - 1]);
                    },
                }
            }
        }
    } else {
        assert(assign_ids(nodes, i, seen) =~= Seq::<NodeView>::empty());
    }
}

/// Highlight marks keep nodes well formed.
pub proof fn lemma_marks_well_formed(nodes: Seq<NodeView>, n: nat)
    requires
        well_formed_nodes(nodes, n),
    ensures
        well_formed_nodes(with_marks(nodes), n),
    decreases nodes.len(),
{
    if nodes.len() > 0 {
        let init = nodes.drop_last();
        assert forall|i: int| 0 <= i < init.len() implies (#[trigger] source_of(init[i]) matches Some(
            s,
        ) ==> s < n) && (source_of(init[i]) is None ==> is_text_like(init[i])) by {
            assert(init[i] == nodes[i]);
        }
        lemma_marks_well_formed(init, n);
        let rest = with_marks(init);
        let last = nodes.last();
        assert(source_of(nodes[nodes.len() - 1]) matches Some(s) ==> s < n);
        match last {
            NodeView::Text(t) => {
                if crate::text::contains(t, crate::marks::mark_delim()) {
                    lemma_mark_nodes_text_like(t, 0);
                    let added = mark_text_nodes(t);
                    let all = rest + added;
                    assert forall|k: int| 0 <= k < all.len() implies (#[trigger] source_of(
                        all[k],
                    ) matches Some(s) ==> s < n) && (source_of(all[k]) is None ==> is_text_like(
                        all[k],
                    )) by {
                        if k >= rest.len() {
                            assert(all[k] == added[k - rest.len()]);
                        }
                    }
                } else {
                    let all = rest.push(last);
                    assert forall|k: int| 0 <= k < all.len() implies (#[trigger] source_of(
                        all[k],
                    ) matches Some(s) ==> s < n) && (source_of(all[k]) is None ==> is_text_like(
                        all[k],
                    )) by {
                        if k < rest.len() {
                            assert(all[k] == rest[k]);
                        }
                    }
                }
            },
            _ => {
                let all = rest.push(last);
                assert forall|k: int| 0 <= k < all.len() implies (#[trigger] source_of(
                    all[k],
                ) matches Some(s) ==> s < n) && (source_of(all[k]) is None ==> is_text_like(
                    all[k],
                )) by {
                    if k < rest.len() {
                        assert(all[k] == rest[k]);
                    }
                }
            },
        }
    }
}

proof fn lemma_mark_nodes_text_like(t: Seq<char>, start: int)
    ensures
        forall|k: int|
            0 <= k < mark_from(t, start).len() ==> is_text_like(#[trigger] mark_from(t, start)[k])
                && source_of(mark_from(t, start)[k]) is None,
    decreases t.len() - start,
{
    if 0 <= start <= t.len() {
        crate::text::lemma_find_from(t, crate::marks::mark_delim(), start);
        match crate::text::find_from(t, crate::marks::mark_delim(), start) {
            Some(open) => {
                crate::text::lemma_find_from(t, crate::marks::mark_delim(), open + 2);
                match crate::text::find_from(t, crate::marks::mark_delim(), open + 2) {
                    Some(close) => {
                        lemma_mark_nodes_text_like(t, close + 2);
                    },
                    None => {},
                }
            },
            None => {},
        }
    }
}

/// The nodes of the Markdown text `md` once headings have ids and highlights
/// are marked (the document before images are embedded).
pub open spec fn prepared_nodes(md: Seq<char>) -> Seq<NodeView> {
    with_marks(with_heading_ids(to_nodes(markdown_parse(md))))
}

/// The HTML of the Markdown text `md` in the preview, images left as written.
pub open spec fn preview_html(md: Seq<char>) -> Seq<char> {
    html_of(rebuild(markdown_parse(md), prepared_nodes(md)))
}

/// A parsed document: the parser's events and the nodes that stand for them.
pub struct Document {
    events: Vec<Event<'static>>,
    nodes: Vec<Node>,
}

impl Document {
    /// The parser's events.
    pub closed spec fn events(&self) -> Seq<Event<'static>> {
        self.events@
    }

    /// The nodes of the document.
    pub closed spec fn nodes(&self) -> Seq<NodeView> {
        nodes_view(self.nodes@)
    }

    /// Every node either refers to one of the parser's events or is text-like.
    pub closed spec fn wf(&self) -> bool {
        well_formed_nodes(self.nodes(), self.events().len())
    }

    /// The HTML the document renders to.
    pub open spec fn html(&self) -> Seq<char> {
        html_of(rebuild(self.events(), self.nodes()))
    }

    /// Parses `md` into events and nodes, without further changes.
    pub fn parse(md: &str) -> (r: Document)
        ensures
            r.wf(),
            r.events() == markdown_parse(md@),
            r.nodes() == to_nodes(markdown_parse(md@)),
    {
        let events = parse_events(md);
        let nodes = events_to_nodes(&events);
        Document { events, nodes }
    }

    /// Gives headings ids and marks highlights.
    pub fn transform(self) -> (r: Document)
        requires
            self.wf(),
        ensures
            r.wf(),
            r.events() == self.events(),
            r.nodes() == with_marks(with_heading_ids(self.nodes())),
    {
        let Document { events, nodes } = self;
        let ghost before = nodes_view(nodes@);
        let with_ids = add_heading_ids(nodes);
        proof {
            lemma_heading_ids_well_formed(before, events@.len());
        }
        let marked = add_mark_highlights(&with_ids);
        proof {
            lemma_marks_well_formed(nodes_view(with_ids@), events@.len());
        }
        Document { events, nodes: marked }
    }

    /// Parses `md`, gives headings ids and marks highlights.
    pub fn prepare(md: &str) -> (r: Document)
        ensures
            r.wf(),
            r.events() == markdown_parse(md@),
            r.nodes() == prepared_nodes(md@),
    {
        Document::parse(md).transform()
    }

    /// Replaces the destination of the image that starts at node `index`.
    pub fn set_image_url(&mut self, index: usize, url: String)
        requires
            old(self).wf(),
            index < old(self).nodes().len(),
            old(self).nodes()[index as int] is ImageStart,
        ensures
            final(self).wf(),
            final(self).events() == old(self).events(),
            final(self).nodes() == old(self).nodes().update(
                index as int,
                NodeView::ImageStart {
                    url: url@,
                    source: old(self).nodes()[index as int]->ImageStart_source,
                },
            ),
    {
        let ghost before = nodes_view(self.nodes@);
        let source = match &self.nodes[index] {
            Node::ImageStart { source, .. } => *source,
            _ => 0,
        };
        assert(before[index as int] == self.nodes@[index as int]@);
        assert(source_of(before[index as int]) == Some(source as nat));
        assert(source_of(before[index as int]) matches Some(s) ==> s < self.events@.len());
        assert(source < self.events@.len());
        self.nodes.set(index, Node::ImageStart { url, source });
        proof {
            let now = nodes_view(self.nodes@);
            assert(now =~= before.update(
                index as int,
                NodeView::ImageStart { url: url@, source: source as nat },
            ));
            assert forall|i: int| 0 <= i < now.len() implies (#[trigger] source_of(now[i]) matches Some(
                s,
            ) ==> s < self.events@.len()) && (source_of(now[i]) is None ==> is_text_like(now[i])) by {
                if i != index {
                    assert(now[i] == before[i]);
                }
            }
        }
    }

    /// The nodes, for reading.
    pub fn node_list(&self) -> (r: &Vec<Node>)
        ensures
            nodes_view(r@) == self.nodes(),
    {
        &self.nodes
    }

    /// Renders the document to HTML.
    pub fn render(&self) -> (r: String)
        requires
            self.wf(),
        ensures
            r@ == self.html(),
    {
        let events = nodes_to_events(&self.events, &self.nodes);
        render_events(events)
    }
}

/// The HTML preview of a Markdown text, images left as written.
pub fn md_to_html(md: &str) -> (r: String)
    ensures
        r@ == preview_html(md@),
{
    let doc = Document::prepare(md);
    doc.render()
}

} // verus!
