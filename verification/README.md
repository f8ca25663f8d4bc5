# md_preview

A Markdown preview renderer whose logic is verified with Verus.

`src/` is the verified library:

- `markdown`, `document`, `headings`, `marks`: Markdown to HTML through
  `pulldown_cmark`, with anchor ids for headings (numbered when repeated) and
  `==highlight==` marks.
- `desktop`: the live preview, which embeds readable local images as data URLs.
- `snapshot`: the checks a document passes before a snapshot is rendered (no raw
  HTML; only contained local PNG, JPEG and SVG images within the size limits),
  driven step by step by the caller, which does the file system work.
- `paths`, `encoding`, `images`, `svg`, `numbers`, `text`: URL and path
  resolution, percent decoding, base64, JavaScript escaping, image headers, SVG
  checks, decimal numbers.
- `enhance`, `page`: which optional renderers (math, diagrams) a document needs,
  the self-contained snapshot page and the scripts that load the renderers.
- `cli`: the command-line tool's decisions: arguments and limits, the page's
  readiness reports, which renderer event settles the outcome, and the checks on
  source, output and finished snapshot.

`app/` is the `md-preview-render` program around the library: argument
reading, the floating-point scale and SVG size arithmetic, file access, the
off-screen WebKit view and PNG output. It builds in the bundled highlighter,
enhancer, KaTeX and Mermaid scripts and style sheets, which it expects in an
`assets/` directory beside `app/`; those third-party files are not part of
this crate, so `app/` builds only once they are placed there.
