//! The desktop preview: Markdown to HTML, with each local image that the
//! preview can show embedded as a data URL. Reading the image files is the
//! caller's part: `DesktopPreview` says which file each image needs and takes
//! back what was read.
use vstd::prelude::*;
use vstd::string::StringExecFns;
use crate::document::{Node, NodeView};
use crate::encoding::{base64, base64_encode};
use crate::images::{image_mime_type, path_preview_format, ImageFormat};
use crate::markdown::{prepared_nodes, markdown_parse, Document};
use crate::paths::{resolve_local_relative_image_path, resolve_relative, string_views};
use crate::text::{chars_of, push_str, string_from_chars};

verus! {

/// The `data:` URL that embeds `bytes` as an image of the given format.
pub open spec fn data_url(format: ImageFormat, bytes: Seq<u8>) -> Seq<char> {
    seq!['d', 'a', 't', 'a', ':'] + format.mime_text() + ";base64,"@ + base64(bytes)
}

/// The `data:` URL that embeds `bytes` as an image of the given format.
pub fn data_url_for(format: ImageFormat, bytes: &[u8]) -> (r: String)
    ensures
        r@ == data_url(format, bytes@),
{
    let scheme = ['d', 'a', 't', 'a', ':'];
    assert(scheme@ =~= seq!['d', 'a', 't', 'a', ':']);
    let mut url = string_from_chars(scheme.as_slice());
    url.append(format.mime());
    url.append(";base64,");
    let encoded = base64_encode(bytes);
    url.append(encoded.as_str());
    url
}

/// Path segments joined with `/`.
pub open spec fn join_segments(segments: Seq<Seq<char>>) -> Seq<char>
    decreases segments.len(),
{
    if segments.len() == 0 {
        Seq::empty()
    } else if segments.len() == 1 {
        segments[0]
    } else {
        join_segments(segments.drop_last()) + seq!['/'] + segments.last()
    }
}

/// Path segments joined with `/`.
pub fn join_path(segments: &Vec<String>) -> (r: String)
    ensures
        r@ == join_segments(string_views(segments@)),
{
    let mut out: Vec<char> = Vec::new();
    let mut i: usize = 0;
    while i < segments.len()
        invariant
            i <= segments@.len(),
            out@ == join_segments(string_views(segments@).take(i as int)),
        decreases segments@.len() - i,
    {
        let ghost prefix = string_views(segments@).take(i + 1);
        assert(prefix.drop_last() =~= string_views(segments@).take(i as int));
        assert(prefix.last() == segments@[i as int]@);
        if i > 0 {
            out.push('/');
        } else {
            assert(prefix =~= seq![segments@[0]@]);
        }
        push_str(&mut out, segments[i].as_str());
        i = i + 1;
    }
    assert(string_views(segments@).take(i as int) =~= string_views(segments@));
    string_from_chars(out.as_slice())
}

/// The file that the desktop preview embeds for an image URL, and its format:
/// the URL must name a local relative path (`resolve_relative`) whose extension
/// is a format the preview shows. The path's extension is that of its last
/// segment, so it does not depend on the directory the segments are joined to.
pub open spec fn desktop_request(url: Seq<char>) -> Option<(Seq<Seq<char>>, ImageFormat)> {
    match resolve_relative(url) {
        Some(segments) => match path_preview_format(join_segments(segments)) {
            Some(format) => Some((segments, format)),
            None => None,
        },
        None => None,
    }
}

/// The node at `i` is an image that the desktop preview embeds.
pub open spec fn requests_image(nodes: Seq<NodeView>, i: int) -> bool {
    0 <= i < nodes.len() && match nodes[i] {
        NodeView::ImageStart { url, .. } => desktop_request(url) is Some,
        _ => false,
    }
}

/// A file the desktop preview needs: the path segments to join below the
/// Markdown directory, and the image format of the file.
pub struct DesktopImageRequest {
    pub segments: Vec<String>,
    pub format: ImageFormat,
}

/// The desktop preview of one Markdown text, while its images are read.
pub struct DesktopPreview {
    doc: Document,
    next: usize,
    pending: Option<ImageFormat>,
}

impl DesktopPreview {
    pub closed spec fn nodes(&self) -> Seq<NodeView> {
        self.doc.nodes()
    }

    /// The position of the image being embedded, or of the next node to look at.
    pub closed spec fn position(&self) -> nat {
        self.next as nat
    }

    /// The format of the image whose bytes are awaited, if one is.
    pub closed spec fn pending(&self) -> Option<ImageFormat> {
        self.pending
    }

    pub closed spec fn wf(&self) -> bool {
        &&& self.doc.wf()
        &&& self.next <= self.doc.nodes().len()
        &&& self.pending is Some ==> requests_image(self.doc.nodes(), self.next as int)
    }

    /// The HTML the preview renders to now.
    pub closed spec fn html(&self) -> Seq<char> {
        self.doc.html()
    }

    /// Parses `md`, gives headings ids and marks highlights.
    pub fn new(md: &str) -> (r: DesktopPreview)
        ensures
            r.wf(),
            r.nodes() == prepared_nodes(md@),
            r.position() == 0,
            r.pending() is None,
            r.html() == crate::markdown::preview_html(md@),
    {
        DesktopPreview { doc: Document::prepare(md), next: 0, pending: None }
    }

    /// The next image, from the current position on, whose file the preview
    /// embeds; `None` when no image is left. The position moves to that image.
    pub fn next_image(&mut self) -> (r: Option<DesktopImageRequest>)
        requires
            old(self).wf(),
            old(self).pending() is None,
        ensures
            final(self).wf(),
            final(self).nodes() == old(self).nodes(),
            final(self).html() == old(self).html(),
            old(self).position() <= final(self).position(),
            forall|j: int|
                old(self).position() <= j < final(self).position() ==> !requests_image(
                    old(self).nodes(),
                    j,
                ),
            r is None ==> final(self).position() == old(self).nodes().len(),
            r is None ==> final(self).pending() is None,
            r matches Some(req) ==> {
                &&& final(self).pending() == Some(req.format)
                &&& requests_image(old(self).nodes(), final(self).position() as int)
                &&& old(self).nodes()[final(self).position() as int] matches NodeView::ImageStart {
                    url,
                    ..
                } && desktop_request(url) == Some((string_views(req.segments@), req.format))
            },
    {
        while self.next < self.doc.node_list().len()
            invariant
                self.doc.wf(),
                self.doc.nodes() == old(self).nodes(),
                self.doc.events() == old(self).doc.events(),
                old(self).position() <= self.next <= self.doc.nodes().len(),
                self.pending is None,
                forall|j: int|
                    old(self).position() <= j < self.next ==> !requests_image(
                        old(self).nodes(),
                        j,
                    ),
            decreases self.doc.nodes().len() - self.next,
        {
            let nodes = self.doc.node_list();
            let i = self.next;
            assert(self.doc.nodes()[i as int] == nodes@[i as int]@);
            match &nodes[i] {
                Node::ImageStart { url, .. } => {
                    match resolve_local_relative_image_path(url.as_str()) {
                        Some(segments) => {
                            let joined = join_path(&segments);
                            match image_mime_type(joined.as_str()) {
                                Some(format) => {
                                    self.pending = Some(format);
                                    return Some(DesktopImageRequest { segments, format });
                                },
                                None => {},
                            }
                        },
                        None => {},
                    }
                },
                _ => {},
            }
            self.next = self.next + 1;
        }
        None
    }

    /// Embeds the image at the current position with the bytes read from its
    /// file, or leaves it as written when the file could not be read; the
    /// position moves past it.
    pub fn embed_image(&mut self, bytes: Option<Vec<u8>>)
        requires
            old(self).wf(),
            old(self).pending() is Some,
        ensures
            final(self).wf(),
            final(self).pending() is None,
            final(self).position() == old(self).position() + 1,
            match bytes {
                Some(b) => final(self).nodes() == old(self).nodes().update(
                    old(self).position() as int,
                    NodeView::ImageStart {
                        url: data_url(old(self).pending().unwrap(), b@),
                        source: old(self).nodes()[old(self).position() as int]->ImageStart_source,
                    },
                ),
                None => final(self).nodes() == old(self).nodes(),
            },
    {
        let format = self.pending.unwrap();
        let count = self.doc.node_list().len();
        assert(self.next < count);
        match bytes {
            Some(b) => {
                let url = data_url_for(format, b.as_slice());
                self.doc.set_image_url(self.next, url);
            },
            None => {},
        }
        self.pending = None;
        self.next = self.next + 1;
    }

    /// The HTML of the preview.
    pub fn finish(&self) -> (r: String)
        requires
            self.wf(),
        ensures
            r@ == self.html(),
    {
        self.doc.render()
    }
}

} // verus!
