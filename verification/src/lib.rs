//! A Markdown preview renderer: Markdown to HTML with heading anchors,
//! highlight marks and embedded local images; the checks that a document passes
//! before a snapshot of it is rendered; the self-contained page that the
//! snapshot is taken of; and the decisions of the snapshot command-line tool.
use vstd::prelude::*;

pub mod text;
pub mod encoding;
pub mod paths;
pub mod images;
pub mod svg;
pub mod numbers;
pub mod document;
pub mod marks;
pub mod headings;
pub mod enhance;
pub mod markdown;
pub mod desktop;
pub mod snapshot;
pub mod page;
pub mod cli;

verus! {

/// Largest Markdown source, in bytes, that the snapshot renderer accepts.
pub const MAX_MARKDOWN_BYTES: usize = 8 * 1024 * 1024;

/// Largest image file, in bytes, that a snapshot embeds.
pub const MAX_IMAGE_BYTES: u64 = 16 * 1024 * 1024;

/// Largest total, in bytes, of the images one snapshot embeds.
pub const MAX_EMBEDDED_IMAGE_BYTES: u64 = 32 * 1024 * 1024;

/// Largest number of images one snapshot embeds.
pub const MAX_EMBEDDED_IMAGES: usize = 128;

/// Largest number of pages a rendered document may have.
pub const MAX_RENDER_PAGES: u32 = 4096;

} // verus!
