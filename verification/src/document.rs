//! The library's model of a parsed Markdown document: the sequence of events
//! that the Markdown parser produces, holding as plain values what the
//! document transformations read and change. Events that the transformations
//! only carry through are kept by their position in the parser's output.
use vstd::prelude::*;

verus! {

/// One event of a parsed Markdown document.
pub enum Node {
    /// A text node.
    Text(String),
    /// An inline code span.
    Code(String),
    /// An inline math span.
    InlineMath(String),
    /// A display math block.
    DisplayMath(String),
    /// A block of raw HTML (or markup the library inserts).
    Html(String),
    /// An inline raw HTML tag.
    InlineHtml(String),
    /// A soft line break.
    SoftBreak,
    /// A hard line break.
    HardBreak,
    /// The start of a heading, with its id attribute; `source` is the position of
    /// the parser's event, which keeps the level, classes and other attributes.
    HeadingStart { id: Option<String>, source: usize },
    /// The end of a heading (the parser's event at `source`).
    HeadingEnd { source: usize },
    /// The start of an image, with its destination URL; `source` is the position
    /// of the parser's event, which keeps the link type, title and label.
    ImageStart { url: String, source: usize },
    /// Any other event, kept as the parser's event at `source`.
    Other { source: usize },
}

/// The mathematical value of a `Node`.
pub enum NodeView {
    Text(Seq<char>),
    Code(Seq<char>),
    InlineMath(Seq<char>),
    DisplayMath(Seq<char>),
    Html(Seq<char>),
    InlineHtml(Seq<char>),
    SoftBreak,
    HardBreak,
    HeadingStart { id: Option<Seq<char>>, source: nat },
    HeadingEnd { source: nat },
    ImageStart { url: Seq<char>, source: nat },
    Other { source: nat },
}

impl View for Node {
    type V = NodeView;

    open spec fn view(&self) -> NodeView {
        match self {
            Node::Text(t) => NodeView::Text(t@),
            Node::Code(t) => NodeView::Code(t@),
            Node::InlineMath(t) => NodeView::InlineMath(t@),
            Node::DisplayMath(t) => NodeView::DisplayMath(t@),
            Node::Html(t) => NodeView::Html(t@),
            Node::InlineHtml(t) => NodeView::InlineHtml(t@),
            Node::SoftBreak => NodeView::SoftBreak,
            Node::HardBreak => NodeView::HardBreak,
            Node::HeadingStart { id, source } => NodeView::HeadingStart {
                id: match id {
                    Some(s) => Some(s@),
                    None => None,
                },
                source: *source as nat,
            },
            Node::HeadingEnd { source } => NodeView::HeadingEnd { source: *source as nat },
            Node::ImageStart { url, source } => NodeView::ImageStart {
                url: url@,
                source: *source as nat,
            },
            Node::Other { source } => NodeView::Other { source: *source as nat },
        }
    }
}

/// The views of a sequence of nodes.
pub open spec fn nodes_view(nodes: Seq<Node>) -> Seq<NodeView> {
    nodes.map_values(|n: Node| n@)
}

fn copy_string(s: &String) -> (r: String)
    ensures
        r@ == s@,
{
    s.clone()
}

impl Node {
    /// A copy of the node.
    pub fn duplicate(&self) -> (r: Node)
        ensures
            r@ == self@,
    {
        match self {
            Node::Text(t) => Node::Text(copy_string(t)),
            Node::Code(t) => Node::Code(copy_string(t)),
            Node::InlineMath(t) => Node::InlineMath(copy_string(t)),
            Node::DisplayMath(t) => Node::DisplayMath(copy_string(t)),
            Node::Html(t) => Node::Html(copy_string(t)),
            Node::InlineHtml(t) => Node::InlineHtml(copy_string(t)),
            Node::SoftBreak => Node::SoftBreak,
            Node::HardBreak => Node::HardBreak,
            Node::HeadingStart { id, source } => Node::HeadingStart {
                id: match id {
                    Some(s) => Some(copy_string(s)),
                    None => None,
                },
                source: *source,
            },
            Node::HeadingEnd { source } => Node::HeadingEnd { source: *source },
            Node::ImageStart { url, source } => Node::ImageStart {
                url: copy_string(url),
                source: *source,
            },
            Node::Other { source } => Node::Other { source: *source },
        }
    }
}

/// Appends `node` to `out`.
pub fn push_node(out: &mut Vec<Node>, node: Node)
    ensures
        nodes_view(final(out)@) == nodes_view(old(out)@).push(node@),
        final(out)@.len() == old(out)@.len() + 1,
{
    let ghost before = out@;
    out.push(node);
    assert(nodes_view(out@) =~= nodes_view(before).push(node@));
}

} // verus!
