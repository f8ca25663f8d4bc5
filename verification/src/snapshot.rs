//! Snapshot rendering of a Markdown document: raw HTML is refused, and every
//! image must be a contained local PNG, JPEG or SVG file within the size limits,
//! which is then embedded as a data URL. The file system work (resolving paths,
//! reading metadata and bytes) and the floating-point size check of SVG images
//! are the caller's part: `SnapshotRender` asks for each in turn and decides on
//! what comes back.
use vstd::prelude::*;
use vstd::string::StringExecFns;
use crate::desktop::{data_url, data_url_for};
use crate::document::{nodes_view, Node, NodeView};
use crate::enhance::{enhance_flags_for, flags_for, EnhanceFlags};
use crate::headings::{assign_ids, bumped, registered, with_heading_ids};
use crate::images::{
    jpeg_dimensions, jpeg_size, path_snapshot_format, png_dimensions, png_size, raster_size_check,
    snapshot_image_mime_type, validate_raster_size, ImageFormat,
};
use crate::markdown::{markdown_parse, to_nodes, Document};
use crate::marks::{mark_close, mark_from, mark_open, mark_text_nodes, with_marks};
use crate::paths::{path_has_prefix, path_starts_with, resolve_local_relative_image_path, resolve_relative, string_views};
use crate::svg::{svg_check, svg_size_attributes, svg_size_view, SvgSize};
use crate::text::{chars_of, is_control, is_control_char, starts_with, string_from_chars, trim, trimmed};
use crate::{MAX_EMBEDDED_IMAGES, MAX_EMBEDDED_IMAGE_BYTES, MAX_IMAGE_BYTES};

verus! {

/// Why a Markdown document cannot be rendered as a snapshot.
#[derive(Debug, PartialEq, Eq)]
pub enum SnapshotInputError {
    /// The document holds raw HTML (the fragment, shortened).
    RawHtml(String),
    /// An image cannot be embedded.
    UnsafeImage { url: String, reason: String },
    /// The document has more images than a snapshot embeds.
    TooManyImages,
    /// The document's images are larger in total than a snapshot embeds.
    ImageBytesExceeded,
}

/// The mathematical value of a `SnapshotInputError`.
pub enum SnapshotErrorView {
    RawHtml(Seq<char>),
    UnsafeImage { url: Seq<char>, reason: Seq<char> },
    TooManyImages,
    ImageBytesExceeded,
}

impl View for SnapshotInputError {
    type V = SnapshotErrorView;

    open spec fn view(&self) -> SnapshotErrorView {
        match self {
            SnapshotInputError::RawHtml(f) => SnapshotErrorView::RawHtml(f@),
            SnapshotInputError::UnsafeImage { url, reason } => SnapshotErrorView::UnsafeImage {
                url: url@,
                reason: reason@,
            },
            SnapshotInputError::TooManyImages => SnapshotErrorView::TooManyImages,
            SnapshotInputError::ImageBytesExceeded => SnapshotErrorView::ImageBytesExceeded,
        }
    }
}

/// The text of `s` as `Debug` writes a string: quoted, with escapes.
pub uninterp spec fn debug_text(s: Seq<char>) -> Seq<char>;

/// The `Debug` rendering of a string (`format!("{:?}", s)`).
#[verifier::external_body]
fn debug_quoted(s: &str) -> (r: String)
    ensures
        r@ == debug_text(s@),
{
    format!("{:?}", s)
}

/// The message that describes a snapshot error.
pub open spec fn error_message(e: SnapshotErrorView) -> Seq<char> {
    match e {
        SnapshotErrorView::RawHtml(f) => "raw HTML is not allowed in snapshot mode: "@ + f,
        SnapshotErrorView::UnsafeImage { url, reason } => "unsafe image "@ + debug_text(url)
            + ": "@ + reason,
        SnapshotErrorView::TooManyImages => "document exceeds the embedded image count limit"@,
        SnapshotErrorView::ImageBytesExceeded => "document exceeds the embedded image byte limit"@,
    }
}

impl SnapshotInputError {
    /// The message that describes the error.
    pub fn message(&self) -> (r: String)
        ensures
            r@ == error_message(self@),
    {
        match self {
            SnapshotInputError::RawHtml(fragment) => {
                let mut m = "raw HTML is not allowed in snapshot mode: ".to_owned();
                m.append(fragment.as_str());
                m
            },
            SnapshotInputError::UnsafeImage { url, reason } => {
                let mut m = "unsafe image ".to_owned();
                let quoted = debug_quoted(url.as_str());
                m.append(quoted.as_str());
                m.append(": ");
                m.append(reason.as_str());
                m
            },
            SnapshotInputError::TooManyImages => "document exceeds the embedded image count limit".to_owned(),
            SnapshotInputError::ImageBytesExceeded => "document exceeds the embedded image byte limit".to_owned(),
        }
    }
}

/// A Markdown document rendered for a snapshot: its HTML and the optional
/// renderers it needs.
#[derive(Debug)]
pub struct RenderedMarkdown {
    pub html: String,
    pub flags: EnhanceFlags,
}

/// The raw HTML fragment of a node, if it holds one.
pub open spec fn raw_fragment(n: NodeView) -> Option<Seq<char>> {
    match n {
        NodeView::Html(f) => Some(f),
        NodeView::InlineHtml(f) => Some(f),
        _ => None,
    }
}

/// The first raw HTML fragment among `nodes[i..]`.
pub open spec fn first_raw_html(nodes: Seq<NodeView>, i: int) -> Option<Seq<char>>
    decreases nodes.len() - i,
{
    if i < 0 || i >= nodes.len() {
        None
    } else {
        match raw_fragment(nodes[i]) {
            Some(f) => Some(f),
            None => first_raw_html(nodes, i + 1),
        }
    }
}

/// How a raw HTML fragment is quoted in the error: trimmed, cut to its first 80
/// characters with control characters replaced by U+FFFD, and followed by `…`
/// when it was longer.
pub open spec fn snippet(fragment: Seq<char>) -> Seq<char> {
    let t = trim(fragment);
    let n = if t.len() < 80 {
        t.len()
    } else {
        80
    };
    let head = t.take(n as int).map_values(
        |c: char|
            if is_control_char(c) {
                '\u{fffd}'
            } else {
                c
            },
    );
    if t.len() > 80 {
        head.push('\u{2026}')
    } else {
        head
    }
}

fn snippet_of(fragment: &String) -> (r: String)
    ensures
        r@ == snippet(fragment@),
{
    let chars = chars_of(fragment.as_str());
    let t = trimmed(chars.as_slice());
    let n: usize = if t.len() < 80 {
        t.len()
    } else {
        80
    };
    let mut out: Vec<char> = Vec::new();
    let mut i: usize = 0;
    while i < n
        invariant
            i <= n <= t@.len(),
            out@ == t@.take(i as int).map_values(
                |c: char|
                    if is_control_char(c) {
                        '\u{fffd}'
                    } else {
                        c
                    },
            ),
        decreases n - i,
    {
        let c = t[i];
        out.push(
            if is_control(c) {
                '\u{fffd}'
            } else {
                c
            },
        );
        i = i + 1;
        assert(out@ =~= t@.take(i as int).map_values(
            |c: char|
                if is_control_char(c) {
                    '\u{fffd}'
                } else {
                    c
                },
        ));
    }
    if t.len() > 80 {
        out.push('\u{2026}');
    }
    string_from_chars(out.as_slice())
}

/// Refuses a document that holds raw HTML: the first raw HTML fragment is
/// reported, shortened.
pub fn reject_raw_html(nodes: &Vec<Node>) -> (r: Result<(), SnapshotInputError>)
    ensures
        match first_raw_html(nodes_view(nodes@), 0) {
            Some(f) => r matches Err(e) && e@ == SnapshotErrorView::RawHtml(snippet(f)),
            None => r is Ok,
        },
{
    let ghost v = nodes_view(nodes@);
    let mut i: usize = 0;
    while i < nodes.len()
        invariant
            i <= nodes@.len(),
            v == nodes_view(nodes@),
            first_raw_html(v, 0) == first_raw_html(v, i as int),
        decreases nodes@.len() - i,
    {
        assert(v[i as int] == nodes@[i as int]@);
        match &nodes[i] {
            Node::Html(f) | Node::InlineHtml(f) => {
                return Err(SnapshotInputError::RawHtml(snippet_of(f)));
            },
            _ => {},
        }
        i = i + 1;
    }
    Ok(())
}

/// Every HTML node is the markup of a highlight, and no node is inline HTML:
/// the document holds no raw HTML of its own.
pub open spec fn markup_only(nodes: Seq<NodeView>) -> bool {
    forall|i: int|
        0 <= i < nodes.len() ==> match #[trigger] nodes[i] {
            NodeView::Html(h) => h == mark_open() || h == mark_close(),
            NodeView::InlineHtml(_) => false,
            _ => true,
        }
}

proof fn lemma_no_raw_html(nodes: Seq<NodeView>, i: int)
    requires
        0 <= i,
        first_raw_html(nodes, i) is None,
    ensures
        forall|k: int| i <= k < nodes.len() ==> raw_fragment(#[trigger] nodes[k]) is None,
    decreases nodes.len() - i,
{
    if i < nodes.len() {
        lemma_no_raw_html(nodes, i + 1);
    }
}

proof fn lemma_assign_ids_markup(nodes: Seq<NodeView>, i: int, seen: spec_fn(Seq<char>) -> nat)
    requires
        markup_only(nodes),
        0 <= i,
    ensures
        markup_only(assign_ids(nodes, i, seen)),
    decreases nodes.len() - i,
{
    if i < nodes.len() {
        let all = assign_ids(nodes, i, seen);
        match nodes[i] {
            NodeView::HeadingStart { id: Some(x), source } => {
                let rest = assign_ids(nodes, i + 1, registered(seen, x));
                lemma_assign_ids_markup(nodes, i + 1, registered(seen, x));
                assert forall|k: int| 0 <= k < all.len() implies match #[trigger] all[k] {
                    NodeView::Html(h) => h == mark_open() || h == mark_close(),
                    NodeView::InlineHtml(_) => false,
                    _ => true,
                } by {
                    if k > 0 {
                        assert(all[k] == rest[k - 1]);
                    }
                }
            },
            NodeView::HeadingStart { id: None, source } => {
                let base = crate::headings::slug(crate::headings::collect_text(nodes, i + 1));
                let rest = assign_ids(nodes, i + 1, bumped(seen, base));
                lemma_assign_ids_markup(nodes, i + 1, bumped(seen, base));
                assert forall|k: int| 0 <= k < all.len() implies match #[trigger] all[k] {
                    NodeView::Html(h) => h == mark_open() || h == mark_close(),
                    NodeView::InlineHtml(_) => false,
                    _ => true,
                } by {
                    if k > 0 {
                        assert(all[k] == rest[k - 1]);
                    }
                }
            },
            _ => {
                let rest = assign_ids(nodes, i + 1, seen);
                lemma_assign_ids_markup(nodes, i + 1, seen);
                assert forall|k: int| 0 <= k < all.len() implies match #[trigger] all[k] {
                    NodeView::Html(h) => h == mark_open() || h == mark_close(),
                    NodeView::InlineHtml(_) => false,
                    _ => true,
                } by {
                    if k > 0 {
                        assert(all[k] == rest[k - 1]);
                    } else {
                        assert(all[0] == nodes[i]);
                    }
                }
            },
        }
    } else {
        assert(assign_ids(nodes, i, seen) =~= Seq::<NodeView>::empty());
    }
}

proof fn lemma_mark_from_markup(t: Seq<char>, start: int)
    ensures
        markup_only(mark_from(t, start)),
    decreases t.len() - start,
{
    if 0 <= start <= t.len() {
        crate::text::lemma_find_from(t, crate::marks::mark_delim(), start);
        match crate::text::find_from(t, crate::marks::mark_delim(), start) {
            Some(open) => {
                crate::text::lemma_find_from(t, crate::marks::mark_delim(), open + 2);
                match crate::text::find_from(t, crate::marks::mark_delim(), open + 2) {
                    Some(close) => {
                        lemma_mark_from_markup(t, close + 2);
                    },
                    None => {},
                }
            },
            None => {},
        }
    }
}

proof fn lemma_marks_markup(nodes: Seq<NodeView>)
    requires
        markup_only(nodes),
    ensures
        markup_only(with_marks(nodes)),
    decreases nodes.len(),
{
    if nodes.len() > 0 {
        let init = nodes.drop_last();
        assert forall|k: int| 0 <= k < init.len() implies match #[trigger] init[k] {
            NodeView::Html(h) => h == mark_open() || h == mark_close(),
            NodeView::InlineHtml(_) => false,
            _ => true,
        } by {
            assert(init[k] == nodes[k]);
        }
        lemma_marks_markup(init);
        let rest = with_marks(init);
        let last = nodes.last();
        assert(last == nodes[nodes.len() - 1]);
        let added: Seq<NodeView> = match last {
            NodeView::Text(t) => if crate::text::contains(t, crate::marks::mark_delim()) {
                mark_text_nodes(t)
            } else {
                seq![last]
            },
            _ => seq![last],
        };
        if let NodeView::Text(t) = last {
            lemma_mark_from_markup(t, 0);
        }
        assert(with_marks(nodes) =~= rest + added);
        let all = rest + added;
        assert forall|k: int| 0 <= k < all.len() implies match #[trigger] all[k] {
            NodeView::Html(h) => h == mark_open() || h == mark_close(),
            NodeView::InlineHtml(_) => false,
            _ => true,
        } by {
            if k < rest.len() {
                assert(all[k] == rest[k]);
            } else {
                assert(all[k] == added[k - rest.len()]);
            }
        }
    }
}

/// A document without raw HTML keeps none once headings have ids and highlights
/// are marked: the only HTML nodes are highlight markup.
pub proof fn lemma_snapshot_has_no_raw_html(nodes: Seq<NodeView>)
    requires
        first_raw_html(nodes, 0) is None,
    ensures
        markup_only(with_marks(with_heading_ids(nodes))),
{
    lemma_no_raw_html(nodes, 0);
    assert forall|k: int| 0 <= k < nodes.len() implies match #[trigger] nodes[k] {
        NodeView::Html(h) => h == mark_open() || h == mark_close(),
        NodeView::InlineHtml(_) => false,
        _ => true,
    } by {
        assert(raw_fragment(nodes[k]) is None);
    }
    lemma_assign_ids_markup(nodes, 0, |x: Seq<char>| 0nat);
    lemma_marks_markup(with_heading_ids(nodes));
}

/// The step of a snapshot render, which says what the caller provides next.
#[derive(Clone, Copy, Debug, PartialEq, Eq)]
pub enum SnapshotPhase {
    /// The canonical path of the Markdown directory is needed (`set_base`).
    NeedBase,
    /// The next image is to be found (`next_image`).
    Scanning,
    /// The canonical path of the current image is needed (`image_located`).
    NeedCanonical,
    /// The metadata of the current image's file is needed (`image_metadata`).
    NeedMetadata,
    /// The bytes of the current image's file are needed (`image_read`).
    NeedBytes,
    /// The outcome of the size check of the current SVG image is needed
    /// (`image_svg_checked`).
    NeedSvgCheck,
    /// Every image is embedded (`finish`).
    Done,
}

/// Why the bytes of an image file could not be read.
pub enum ReadFailure {
    /// The file could not be opened (the error's text).
    Open(String),
    /// The file could not be read (the error's text).
    Read(String),
}

/// An image URL that a snapshot has embedded.
pub open spec fn embedded_url(url: Seq<char>) -> bool {
    starts_with(url, seq!['d', 'a', 't', 'a', ':'])
}

/// The image at `j` (if the node is one) is embedded.
pub open spec fn image_embedded(nodes: Seq<NodeView>, j: int) -> bool {
    nodes[j] matches NodeView::ImageStart { url, .. } ==> embedded_url(url)
}

/// A snapshot render in progress.
pub struct SnapshotRender {
    doc: Document,
    flags: EnhanceFlags,
    base: Vec<char>,
    next: usize,
    count: usize,
    total: u64,
    url: String,
    path: Vec<char>,
    format: ImageFormat,
    bytes: Vec<u8>,
    phase: SnapshotPhase,
    located: Ghost<Map<int, Seq<char>>>,
}

impl SnapshotRender {
    pub closed spec fn nodes(&self) -> Seq<NodeView> {
        self.doc.nodes()
    }

    pub closed spec fn html(&self) -> Seq<char> {
        self.doc.html()
    }

    pub closed spec fn phase_of(&self) -> SnapshotPhase {
        self.phase
    }

    /// The position of the current image, or of the next node to look at.
    pub closed spec fn position(&self) -> nat {
        self.next as nat
    }

    /// The number of images met so far.
    pub closed spec fn image_count(&self) -> nat {
        self.count as nat
    }

    /// The total size of the images embedded so far.
    pub closed spec fn total_bytes(&self) -> nat {
        self.total as nat
    }

    /// The canonical path of the Markdown directory.
    pub closed spec fn base(&self) -> Seq<char> {
        self.base@
    }

    /// The URL of the current image.
    pub closed spec fn current_url(&self) -> Seq<char> {
        self.url@
    }

    /// The canonical path of the current image.
    pub closed spec fn current_path(&self) -> Seq<char> {
        self.path@
    }

    /// The format of the current image.
    pub closed spec fn current_format(&self) -> ImageFormat {
        self.format
    }

    /// The bytes of the current SVG image.
    pub closed spec fn pending_bytes(&self) -> Seq<u8> {
        self.bytes@
    }

    /// The canonical path that the image at node `j` was located at, for every
    /// image embedded so far.
    pub closed spec fn image_path(&self, j: int) -> Seq<char> {
        self.located@[j]
    }

    /// The optional renderers the document needs.
    pub closed spec fn flags_of(&self) -> EnhanceFlags {
        self.flags
    }

    /// The state is consistent: the current image (in the image steps) is an
    /// image node with the current URL; the limits hold; every image before the
    /// position is embedded; the document holds no raw HTML.
    pub closed spec fn wf(&self) -> bool {
        &&& self.doc.wf()
        &&& self.next <= self.doc.nodes().len()
        &&& self.count <= MAX_EMBEDDED_IMAGES
        &&& self.total <= MAX_EMBEDDED_IMAGE_BYTES
        &&& markup_only(self.doc.nodes())
        &&& forall|j: int| 0 <= j < self.next ==> image_embedded(self.doc.nodes(), j)
        &&& (match self.phase {
            SnapshotPhase::NeedCanonical | SnapshotPhase::NeedMetadata | SnapshotPhase::NeedBytes
            | SnapshotPhase::NeedSvgCheck => {
                &&& self.next < self.doc.nodes().len()
                &&& self.doc.nodes()[self.next as int] matches NodeView::ImageStart { url, .. }
                &&& url == self.url@
            },
            SnapshotPhase::Done => self.next == self.doc.nodes().len(),
            _ => true,
        })
        &&& self.phase == SnapshotPhase::NeedSvgCheck ==> self.format == ImageFormat::Svg
        &&& self.phase == SnapshotPhase::NeedBase ==> self.next == 0
        &&& forall|j: int|
            0 <= j < self.next && (#[trigger] self.doc.nodes()[j]) is ImageStart ==> {
                &&& self.located@.dom().contains(j)
                &&& path_has_prefix(self.located@[j], self.base@)
            }
        &&& (self.phase == SnapshotPhase::NeedMetadata || self.phase == SnapshotPhase::NeedBytes
            || self.phase == SnapshotPhase::NeedSvgCheck) ==> path_has_prefix(
            self.path@,
            self.base@,
        )
    }

    /// The current step.
    pub fn phase(&self) -> (r: SnapshotPhase)
        ensures
            r == self.phase_of(),
    {
        self.phase
    }

    /// Parses `md`, refuses raw HTML, gives headings ids and marks highlights.
    pub fn new(md: &str) -> (r: Result<SnapshotRender, SnapshotInputError>)
        ensures
            match first_raw_html(to_nodes(markdown_parse(md@)), 0) {
                Some(f) => r matches Err(e) && e@ == SnapshotErrorView::RawHtml(snippet(f)),
                None => r matches Ok(s) && {
                    &&& s.wf()
                    &&& s.phase_of() == SnapshotPhase::NeedBase
                    &&& s.nodes() == crate::markdown::prepared_nodes(md@)
                    &&& s.position() == 0
                    &&& s.image_count() == 0
                    &&& s.total_bytes() == 0
                    &&& s.flags_of() == flags_for(md@)
                },
            },
    {
        let doc = Document::parse(md);
        match reject_raw_html(doc.node_list()) {
            Ok(()) => {},
            Err(e) => {
                return Err(e);
            },
        }
        proof {
            lemma_snapshot_has_no_raw_html(doc.nodes());
        }
        let doc = doc.transform();
        let flags = enhance_flags_for(md);
        Ok(
            SnapshotRender {
                doc,
                flags,
                base: Vec::new(),
                next: 0,
                count: 0,
                total: 0,
                url: String::new(),
                path: Vec::new(),
                format: ImageFormat::Png,
                bytes: Vec::new(),
                phase: SnapshotPhase::NeedBase,
                located: Ghost(Map::empty()),
            },
        )
    }

    /// Takes the canonical path of the Markdown directory (`canonical`), or the
    /// text of the error that resolving it gave; `display` is the directory as
    /// the error names it.
    pub fn set_base(&mut self, canonical: Result<String, String>, display: &str) -> (r: Result<
        (),
        SnapshotInputError,
    >)
        requires
            old(self).wf(),
            old(self).phase_of() == SnapshotPhase::NeedBase,
        ensures
            final(self).wf(),
            match canonical {
                Err(e) => r matches Err(err) && err@ == SnapshotErrorView::UnsafeImage {
                    url: display@,
                    reason: "cannot canonicalize source directory: "@ + e@,
                },
                Ok(p) => r is Ok && final(self).phase_of() == SnapshotPhase::Scanning && final(self).base() == p@ && final(self).nodes() == old(self).nodes() && final(self).position() == old(self).position() && final(self).image_count() == old(self).image_count() && final(self).total_bytes() == old(self).total_bytes(),
            },
    {
        match canonical {
            Err(e) => {
                let mut reason = "cannot canonicalize source directory: ".to_owned();
                reason.append(e.as_str());
                Err(SnapshotInputError::UnsafeImage { url: display.to_owned(), reason })
            },
            Ok(p) => {
                self.base = chars_of(p.as_str());
                self.phase = SnapshotPhase::Scanning;
                Ok(())
            },
        }
    }

    /// Moves to the next image. With none left, the render is done (`None`).
    /// Otherwise the image is counted, refused when it is one too many or its
    /// URL does not name a contained local file, and the path segments to
    /// resolve below the Markdown directory are returned.
    pub fn next_image(&mut self) -> (r: Result<Option<Vec<String>>, SnapshotInputError>)
        requires
            old(self).wf(),
            old(self).phase_of() == SnapshotPhase::Scanning,
        ensures
            final(self).wf(),
            final(self).base() == old(self).base(),
            final(self).nodes() == old(self).nodes(),
            old(self).position() <= final(self).position(),
            forall|j: int|
                old(self).position() <= j < final(self).position() ==> !(old(self).nodes()[j] is ImageStart),
            match r {
                Ok(None) => final(self).phase_of() == SnapshotPhase::Done,
                Ok(Some(segments)) => {
                    &&& final(self).phase_of() == SnapshotPhase::NeedCanonical
                    &&& final(self).image_count() == old(self).image_count() + 1
                    &&& final(self).total_bytes() == old(self).total_bytes()
                    &&& final(self).base() == old(self).base()
                    &&& resolve_relative(final(self).current_url()) == Some(
                        string_views(segments@),
                    )
                },
                Err(e) => {
                    &&& final(self).position() < old(self).nodes().len()
                    &&& old(self).nodes()[final(self).position() as int] is ImageStart
                    &&& if old(self).image_count() + 1 > MAX_EMBEDDED_IMAGES {
                        e@ == SnapshotErrorView::TooManyImages
                    } else {
                        resolve_relative(final(self).current_url()) is None && e@
                            == SnapshotErrorView::UnsafeImage {
                            url: final(self).current_url(),
                            reason: "only contained local relative images are allowed"@,
                        }
                    }
                },
            },
            (r matches Ok(Some(_)) || r is Err) ==> (old(self).nodes()[final(self).position() as int] matches NodeView::ImageStart { url, .. } && url == final(self).current_url()),
    {
        let ghost start = self.next;
        while self.next < self.doc.node_list().len()
            invariant
                self.doc.wf(),
                self.doc.nodes() == old(self).nodes(),
                self.doc.events() == old(self).doc.events(),
                start == old(self).position(),
                start <= self.next <= self.doc.nodes().len(),
                self.count == old(self).count,
                self.total == old(self).total,
                self.base == old(self).base,
                self.phase == SnapshotPhase::Scanning,
                self.count <= MAX_EMBEDDED_IMAGES,
                self.total <= MAX_EMBEDDED_IMAGE_BYTES,
                markup_only(self.doc.nodes()),
                forall|j: int| 0 <= j < start ==> image_embedded(self.doc.nodes(), j),
                forall|j: int| start <= j < self.next ==> !(self.doc.nodes()[j] is ImageStart),
                self.located == old(self).located,
                forall|j: int|
                    0 <= j < start && (#[trigger] self.doc.nodes()[j]) is ImageStart ==> {
                        &&& self.located@.dom().contains(j)
                        &&& path_has_prefix(self.located@[j], self.base@)
                    },
            decreases self.doc.nodes().len() - self.next,
        {
            let nodes = self.doc.node_list();
            let i = self.next;
            assert(self.doc.nodes()[i as int] == nodes@[i as int]@);
            match &nodes[i] {
                Node::ImageStart { url, .. } => {
                    let url = url.clone();
                    self.url = url;
                    if self.count >= MAX_EMBEDDED_IMAGES {
                        return Err(SnapshotInputError::TooManyImages);
                    }
                    self.count = self.count + 1;
                    match resolve_local_relative_image_path(self.url.as_str()) {
                        Some(segments) => {
                            self.phase = SnapshotPhase::NeedCanonical;
                            return Ok(Some(segments));
                        },
                        None => {
                            let copy = self.url.clone();
                            return Err(
                                SnapshotInputError::UnsafeImage {
                                    url: copy,
                                    reason: "only contained local relative images are allowed".to_owned(),
                                },
                            );
                        },
                    }
                },
                _ => {},
            }
            self.next = self.next + 1;
        }
        self.phase = SnapshotPhase::Done;
        Ok(None)
    }

    /// Takes the canonical path of the current image (`canonical`), or the text
    /// of the error that resolving it gave; the path must lie below the Markdown
    /// directory.
    pub fn image_located(&mut self, canonical: Result<String, String>) -> (r: Result<
        (),
        SnapshotInputError,
    >)
        requires
            old(self).wf(),
            old(self).phase_of() == SnapshotPhase::NeedCanonical,
        ensures
            final(self).wf(),
            final(self).base() == old(self).base(),
            final(self).nodes() == old(self).nodes(),
            final(self).position() == old(self).position(),
            final(self).current_url() == old(self).current_url(),
            match canonical {
                Err(e) => r matches Err(err) && err@ == SnapshotErrorView::UnsafeImage {
                    url: old(self).current_url(),
                    reason: "cannot canonicalize image: "@ + e@,
                },
                Ok(p) => if path_has_prefix(p@, old(self).base()) {
                    r is Ok && final(self).phase_of() == SnapshotPhase::NeedMetadata && final(self).current_path() == p@ && final(self).image_count() == old(self).image_count()
                        && final(self).total_bytes() == old(self).total_bytes()
                } else {
                    r matches Err(err) && err@ == SnapshotErrorView::UnsafeImage {
                        url: old(self).current_url(),
                        reason: "image resolves outside the Markdown directory"@,
                    }
                },
            },
    {
        match canonical {
            Err(e) => {
                let mut reason = "cannot canonicalize image: ".to_owned();
                reason.append(e.as_str());
                Err(SnapshotInputError::UnsafeImage { url: self.url.clone(), reason })
            },
            Ok(p) => {
                let path = chars_of(p.as_str());
                if !path_starts_with(path.as_slice(), self.base.as_slice()) {
                    return Err(
                        SnapshotInputError::UnsafeImage {
                            url: self.url.clone(),
                            reason: "image resolves outside the Markdown directory".to_owned(),
                        },
                    );
                }
                self.path = path;
                self.phase = SnapshotPhase::NeedMetadata;
                Ok(())
            },
        }
    }

    /// Takes the metadata of the current image's file (whether it is a regular
    /// file, and its length), or the text of the error that reading it gave. The
    /// file must be a regular file within the per-file limit, and its extension
    /// must name PNG, JPEG or SVG.
    pub fn image_metadata(&mut self, metadata: Result<(bool, u64), String>) -> (r: Result<
        (),
        SnapshotInputError,
    >)
        requires
            old(self).wf(),
            old(self).phase_of() == SnapshotPhase::NeedMetadata,
        ensures
            final(self).wf(),
            final(self).base() == old(self).base(),
            final(self).current_path() == old(self).current_path(),
            final(self).nodes() == old(self).nodes(),
            final(self).position() == old(self).position(),
            final(self).current_url() == old(self).current_url(),
            match metadata {
                Err(e) => r matches Err(err) && err@ == SnapshotErrorView::UnsafeImage {
                    url: old(self).current_url(),
                    reason: "cannot read image metadata: "@ + e@,
                },
                Ok((is_file, len)) => if !is_file {
                    r matches Err(err) && err@ == SnapshotErrorView::UnsafeImage {
                        url: old(self).current_url(),
                        reason: "image path is not a regular file"@,
                    }
                } else if len > MAX_IMAGE_BYTES {
                    r matches Err(err) && err@ == SnapshotErrorView::UnsafeImage {
                        url: old(self).current_url(),
                        reason: "image exceeds the per-file byte limit"@,
                    }
                } else {
                    match path_snapshot_format(old(self).current_path()) {
                        None => r matches Err(err) && err@ == SnapshotErrorView::UnsafeImage {
                            url: old(self).current_url(),
                            reason: "snapshot mode supports PNG, JPEG, and SVG images"@,
                        },
                        Some(format) => r is Ok && final(self).phase_of()
                            == SnapshotPhase::NeedBytes && final(self).current_format() == format
                            && final(self).image_count() == old(self).image_count() && final(self).total_bytes() == old(self).total_bytes(),
                    }
                },
            },
    {
        match metadata {
            Err(e) => {
                let mut reason = "cannot read image metadata: ".to_owned();
                reason.append(e.as_str());
                Err(SnapshotInputError::UnsafeImage { url: self.url.clone(), reason })
            },
            Ok((is_file, len)) => {
                if !is_file {
                    return Err(
                        SnapshotInputError::UnsafeImage {
                            url: self.url.clone(),
                            reason: "image path is not a regular file".to_owned(),
                        },
                    );
                }
                if len > MAX_IMAGE_BYTES {
                    return Err(
                        SnapshotInputError::UnsafeImage {
                            url: self.url.clone(),
                            reason: "image exceeds the per-file byte limit".to_owned(),
                        },
                    );
                }
                let path = string_from_chars(self.path.as_slice());
                match snapshot_image_mime_type(path.as_str()) {
                    Some(format) => {
                        self.format = format;
                        self.phase = SnapshotPhase::NeedBytes;
                        Ok(())
                    },
                    None => Err(
                        SnapshotInputError::UnsafeImage {
                            url: self.url.clone(),
                            reason: "snapshot mode supports PNG, JPEG, and SVG images".to_owned(),
                        },
                    ),
                }
            },
        }
    }

    /// Embeds the current image: its bytes count towards the total limit, and
    /// its URL becomes a `data:` URL.
    fn embed(&mut self, bytes: &[u8]) -> (r: Result<(), SnapshotInputError>)
        requires
            old(self).wf(),
            old(self).phase_of() == SnapshotPhase::NeedBytes || old(self).phase_of()
                == SnapshotPhase::NeedSvgCheck,
        ensures
            final(self).wf(),
            final(self).base() == old(self).base(),
            final(self).current_path() == old(self).current_path(),
            final(self).position() == old(self).position() + 1 ==> final(self).image_path(
                old(self).position() as int,
            ) == old(self).current_path(),
            final(self).image_count() == old(self).image_count(),
            if old(self).total_bytes() + bytes@.len() > MAX_EMBEDDED_IMAGE_BYTES {
                r matches Err(e) && e@ == SnapshotErrorView::ImageBytesExceeded
            } else {
                &&& r is Ok
                &&& final(self).phase_of() == SnapshotPhase::Scanning
                &&& final(self).position() == old(self).position() + 1
                &&& final(self).total_bytes() == old(self).total_bytes() + bytes@.len()
                &&& final(self).base() == old(self).base()
                &&& final(self).nodes() == old(self).nodes().update(
                    old(self).position() as int,
                    NodeView::ImageStart {
                        url: data_url(old(self).current_format(), bytes@),
                        source: old(self).nodes()[old(self).position() as int]->ImageStart_source,
                    },
                )
            },
    {
        let len = bytes.len() as u64;
        let total = match self.total.checked_add(len) {
            Some(t) => t,
            None => {
                return Err(SnapshotInputError::ImageBytesExceeded);
            },
        };
        if total > MAX_EMBEDDED_IMAGE_BYTES {
            return Err(SnapshotInputError::ImageBytesExceeded);
        }
        let url = data_url_for(self.format, bytes);
        let ghost uv = url@;
        let ghost before = self.doc.nodes();
        assert(forall|j: int| 0 <= j < self.next ==> image_embedded(before, j));
        let ghost next = self.next;
        let count = self.doc.node_list().len();
        assert(self.next < count);
        proof {
            assert(embedded_url(url@)) by {
                assert(url@.subrange(0, 5) =~= seq!['d', 'a', 't', 'a', ':']);
            }
        }
        self.doc.set_image_url(self.next, url);
        proof {
            let now = self.doc.nodes();
            assert forall|k: int| 0 <= k < now.len() implies match #[trigger] now[k] {
                NodeView::Html(h) => h == mark_open() || h == mark_close(),
                NodeView::InlineHtml(_) => false,
                _ => true,
            } by {
                if k != next {
                    assert(now[k] == before[k]);
                }
            }
            assert(now[next as int] matches NodeView::ImageStart { url, .. } && url == uv);
            assert(image_embedded(now, next as int));
            assert forall|j: int| 0 <= j < next + 1 implies image_embedded(now, j) by {
                if j != next {
                    assert(image_embedded(before, j));
                    assert(now[j] == before[j]);
                }
            }
        }
        self.located = Ghost(self.located@.insert(next as int, self.path@));
        self.total = total;
        self.next = self.next + 1;
        self.phase = SnapshotPhase::Scanning;
        Ok(())
    }

    /// Takes the bytes of the current image's file, or why they could not be
    /// read. The bytes must be within the per-file limit; a PNG or JPEG must
    /// state a size within the snapshot limits and is then embedded; an SVG must
    /// pass the content checks, and the texts of its size attributes are
    /// returned for the size check.
    pub fn image_read(&mut self, read: Result<Vec<u8>, ReadFailure>) -> (r: Result<
        Option<SvgSize>,
        SnapshotInputError,
    >)
        requires
            old(self).wf(),
            old(self).phase_of() == SnapshotPhase::NeedBytes,
        ensures
            final(self).wf(),
            final(self).base() == old(self).base(),
            final(self).current_path() == old(self).current_path(),
            final(self).position() == old(self).position() + 1 ==> final(self).image_path(
                old(self).position() as int,
            ) == old(self).current_path(),
            final(self).image_count() == old(self).image_count(),
            match read {
                Err(ReadFailure::Open(e)) => r matches Err(err) && err@
                    == SnapshotErrorView::UnsafeImage {
                    url: old(self).current_url(),
                    reason: "cannot open image: "@ + e@,
                },
                Err(ReadFailure::Read(e)) => r matches Err(err) && err@
                    == SnapshotErrorView::UnsafeImage {
                    url: old(self).current_url(),
                    reason: "cannot read image: "@ + e@,
                },
                Ok(bytes) => if bytes@.len() > MAX_IMAGE_BYTES {
                    r matches Err(err) && err@ == SnapshotErrorView::UnsafeImage {
                        url: old(self).current_url(),
                        reason: "image exceeds the per-file byte limit"@,
                    }
                } else {
                    match old(self).current_format() {
                        ImageFormat::Svg => match svg_check(bytes@) {
                            Err(reason) => r matches Err(err) && err@
                                == SnapshotErrorView::UnsafeImage {
                                url: old(self).current_url(),
                                reason,
                            },
                            Ok(size) => r matches Ok(Some(s)) && svg_size_view(s) == size && final(self).phase_of() == SnapshotPhase::NeedSvgCheck && final(self).pending_bytes() == bytes@ && final(self).nodes() == old(self).nodes()
                                && final(self).position() == old(self).position() && final(self).current_url() == old(self).current_url() && final(self).current_format() == old(self).current_format() && final(self).total_bytes() == old(self).total_bytes(),
                        },
                        _ => match raster_check(old(self).current_format(), bytes@) {
                            Err(reason) => r matches Err(err) && err@
                                == SnapshotErrorView::UnsafeImage {
                                url: old(self).current_url(),
                                reason,
                            },
                            Ok(()) => if old(self).total_bytes() + bytes@.len()
                                > MAX_EMBEDDED_IMAGE_BYTES {
                                r matches Err(e) && e@ == SnapshotErrorView::ImageBytesExceeded
                            } else {
                                &&& r matches Ok(None)
                                &&& final(self).phase_of() == SnapshotPhase::Scanning
                                &&& final(self).position() == old(self).position() + 1
                                &&& final(self).total_bytes() == old(self).total_bytes()
                                    + bytes@.len()
                                &&& final(self).base() == old(self).base()
                                &&& final(self).nodes() == old(self).nodes().update(
                                    old(self).position() as int,
                                    NodeView::ImageStart {
                                        url: data_url(old(self).current_format(), bytes@),
                                        source: old(self).nodes()[old(self).position() as int]->ImageStart_source,
                                    },
                                )
                            },
                        },
                    }
                },
            },
    {
        let bytes = match read {
            Err(ReadFailure::Open(e)) => {
                let mut reason = "cannot open image: ".to_owned();
                reason.append(e.as_str());
                return Err(SnapshotInputError::UnsafeImage { url: self.url.clone(), reason });
            },
            Err(ReadFailure::Read(e)) => {
                let mut reason = "cannot read image: ".to_owned();
                reason.append(e.as_str());
                return Err(SnapshotInputError::UnsafeImage { url: self.url.clone(), reason });
            },
            Ok(b) => b,
        };
        if bytes.len() as u64 > MAX_IMAGE_BYTES {
            return Err(
                SnapshotInputError::UnsafeImage {
                    url: self.url.clone(),
                    reason: "image exceeds the per-file byte limit".to_owned(),
                },
            );
        }
        match self.format {
            ImageFormat::Svg => {
                match svg_size_attributes(bytes.as_slice()) {
                    Err(reason) => {
                        return Err(SnapshotInputError::UnsafeImage { url: self.url.clone(), reason });
                    },
                    Ok(size) => {
                        self.bytes = bytes;
                        self.phase = SnapshotPhase::NeedSvgCheck;
                        return Ok(Some(size));
                    },
                }
            },
            _ => {},
        }
        match check_raster(self.format, bytes.as_slice()) {
            Err(reason) => Err(SnapshotInputError::UnsafeImage { url: self.url.clone(), reason }),
            Ok(()) => match self.embed(bytes.as_slice()) {
                Ok(()) => Ok(None),
                Err(e) => Err(e),
            },
        }
    }

    /// Takes the outcome of the size check of the current SVG image, and embeds
    /// the image when it passed.
    pub fn image_svg_checked(&mut self, check: Result<(), String>) -> (r: Result<
        (),
        SnapshotInputError,
    >)
        requires
            old(self).wf(),
            old(self).phase_of() == SnapshotPhase::NeedSvgCheck,
        ensures
            final(self).wf(),
            final(self).base() == old(self).base(),
            final(self).position() == old(self).position() + 1 ==> final(self).image_path(
                old(self).position() as int,
            ) == old(self).current_path(),
            final(self).image_count() == old(self).image_count(),
            match check {
                Err(reason) => r matches Err(err) && err@ == SnapshotErrorView::UnsafeImage {
                    url: old(self).current_url(),
                    reason: reason@,
                },
                Ok(()) => if old(self).total_bytes() + old(self).pending_bytes().len()
                    > MAX_EMBEDDED_IMAGE_BYTES {
                    r matches Err(e) && e@ == SnapshotErrorView::ImageBytesExceeded
                } else {
                    &&& r is Ok
                    &&& final(self).phase_of() == SnapshotPhase::Scanning
                    &&& final(self).position() == old(self).position() + 1
                    &&& final(self).base() == old(self).base()
                    &&& final(self).total_bytes() == old(self).total_bytes() + old(self).pending_bytes().len()
                    &&& final(self).nodes() == old(self).nodes().update(
                        old(self).position() as int,
                        NodeView::ImageStart {
                            url: data_url(ImageFormat::Svg, old(self).pending_bytes()),
                            source: old(self).nodes()[old(self).position() as int]->ImageStart_source,
                        },
                    )
                },
            },
    {
        match check {
            Err(reason) => Err(SnapshotInputError::UnsafeImage { url: self.url.clone(), reason }),
            Ok(()) => {
                let bytes = vstd::slice::slice_to_vec(self.bytes.as_slice());
                self.embed(bytes.as_slice())
            },
        }
    }

    /// The rendered document, once every image is embedded. Every image of the
    /// document was embedded from a canonical path below the Markdown directory
    /// (`base`, which only `set_base` sets and every other step keeps).
    pub fn finish(&self) -> (r: RenderedMarkdown)
        requires
            self.wf(),
            self.phase_of() == SnapshotPhase::Done,
        ensures
            r.html@ == self.html(),
            r.flags == self.flags_of(),
            markup_only(self.nodes()),
            forall|j: int| 0 <= j < self.nodes().len() ==> image_embedded(self.nodes(), j),
            forall|j: int|
                0 <= j < self.nodes().len() && (#[trigger] self.nodes()[j]) is ImageStart
                    ==> path_has_prefix(self.image_path(j), self.base()),
            self.image_count() <= MAX_EMBEDDED_IMAGES,
            self.total_bytes() <= MAX_EMBEDDED_IMAGE_BYTES,
    {
        RenderedMarkdown { html: self.doc.render(), flags: self.flags }
    }
}

/// What the snapshot size limits make of a PNG or JPEG file's bytes.
pub open spec fn raster_check(format: ImageFormat, bytes: Seq<u8>) -> Result<(), Seq<char>> {
    let size = match format {
        ImageFormat::Png => png_size(bytes),
        _ => jpeg_size(bytes),
    };
    match size {
        Err(e) => Err(e),
        Ok((w, h)) => raster_size_check(w, h),
    }
}

fn check_raster(format: ImageFormat, bytes: &[u8]) -> (r: Result<(), String>)
    ensures
        r matches Ok(_) ==> raster_check(format, bytes@) is Ok,
        r matches Err(e) ==> raster_check(format, bytes@) == Err::<(), Seq<char>>(e@),
{
    let size = match format {
        ImageFormat::Png => png_dimensions(bytes),
        _ => jpeg_dimensions(bytes),
    };
    match size {
        Err(e) => Err(e),
        Ok((w, h)) => validate_raster_size(w, h),
    }
}

} // verus!
