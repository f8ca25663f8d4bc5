//! The self-contained HTML page that a snapshot is taken of, and the scripts
//! that load the optional renderers into a live preview.
use vstd::prelude::*;
use vstd::string::StringExecFns;
use crate::encoding::{escape_js, js_escape};
use crate::enhance::{EnhanceFlags, PreviewTheme};
use crate::numbers::{decimal, decimal_chars};
use crate::snapshot::RenderedMarkdown;
use crate::paths::string_views;
use crate::text::{occurs_at, string_from_chars};

verus! {

/// The preview's own style sheet.
pub const PREVIEW_CSS: &'static str = r#"
:root { color-scheme: light dark; }
body {
  font-family: -apple-system, BlinkMacSystemFont, "Segoe UI", Helvetica, Arial, sans-serif;
  margin: 0; padding: 0;
  line-height: 1.6; font-size: 15px;
  color: #1a1a1a; background: #fff;
}
#app { max-width: 820px; margin: 0 auto; padding: 24px; }
#preview h1,#preview h2,#preview h3,#preview h4 { margin-top: 1.4em; }
#preview h1 { border-bottom: 1px solid #e1e4e8; padding-bottom: .3em; }
#preview h2 { border-bottom: 1px solid #e1e4e8; padding-bottom: .2em; }
#preview code { background: #f0f0f0; padding: 2px 6px; border-radius: 4px; font-size: 90%; }
#preview pre { background: #f6f8fa; padding: 16px; border-radius: 8px; overflow-x: auto; }
#preview pre code { background: none; padding: 0; font-size: 14px; }
#preview blockquote { border-left: 4px solid #ddd; margin: 0; padding: 0 1em; color: #666; }
#preview .markdown-alert-note,
#preview .markdown-alert-tip,
#preview .markdown-alert-important,
#preview .markdown-alert-warning,
#preview .markdown-alert-caution {
  margin: 1em 0;
  padding: 0.75em 1em;
  border-radius: 6px;
  color: inherit;
}
#preview .markdown-alert-title {
  display: flex;
  align-items: center;
  gap: .35em;
  margin: 0 0 .45em;
  font-weight: 600;
  line-height: 1.25;
}
#preview .markdown-alert-title + p { margin-top: 0; }
#preview .markdown-alert-note { border-color: #0969da; background: #ddf4ff; }
#preview .markdown-alert-tip { border-color: #1a7f37; background: #dafbe1; }
#preview .markdown-alert-important { border-color: #8250df; background: #fbefff; }
#preview .markdown-alert-warning { border-color: #9a6700; background: #fff8c5; }
#preview .markdown-alert-caution { border-color: #cf222e; background: #ffebe9; }
#preview .markdown-alert-note .markdown-alert-title { color: #0969da; }
#preview .markdown-alert-tip .markdown-alert-title { color: #1a7f37; }
#preview .markdown-alert-important .markdown-alert-title { color: #8250df; }
#preview .markdown-alert-warning .markdown-alert-title { color: #9a6700; }
#preview .markdown-alert-caution .markdown-alert-title { color: #cf222e; }
#preview .mdp-mark { border-radius: 3px; padding: 0 0.12em; background: #fff2a8; color: inherit; }
#preview mark.search-hit { border-radius: 3px; padding: 0 0.12em; background: #fff2a8; color: inherit; }
#preview mark.search-hit.current { background: #ffcc4d; color: #1a1a1a; }
#preview table { border-collapse: collapse; width: 100%; }
#preview .mdp-table-wrap {
  width: min(calc(100vw - 64px), 1280px);
  margin: 1em 0 1em 50%;
  transform: translateX(-50%);
  overflow-x: auto;
  -webkit-overflow-scrolling: touch;
}
#preview .mdp-table-wrap table { width: max-content; min-width: 100%; }
#preview table th, #preview table td { border: 1px solid #ddd; padding: 8px 12px; text-align: left; }
#preview table th { background: #f6f8fa; font-weight: 600; color: #1a1a1a; white-space: nowrap; }
#preview table td { min-width: 64px; max-width: 360px; vertical-align: top; overflow-wrap: break-word; }
#preview img { max-width: 100%; }
#preview .katex-display { overflow-x: auto; overflow-y: hidden; padding: 0.15em 0; }
#preview .mdp-mermaid { margin: 1.2em 0; overflow-x: auto; text-align: center; }
#preview .mdp-mermaid svg { max-width: 100%; height: auto; }
#preview .mdp-mermaid-error, #preview .mdp-math-error { color: #b42318; }
#preview hr { border: none; border-top: 1px solid #e1e4e8; margin: 2em 0; }
#preview a { color: #0969da; text-decoration: none; }
#preview a:hover { text-decoration: underline; }
#preview ul, #preview ol { padding-left: 2em; }
#preview input[type="checkbox"] { margin-right: 6px; }
"#;

/// The additions to the style sheet for the dark theme.
pub const PREVIEW_DARK_CSS: &'static str = r#"
body { color: #d4d4d4; background: #1e1e1e; }
#preview a { color: #6cb6ff; }
#preview h1, #preview h2 { border-color: #333; }
#preview pre { background: #2d2d2d !important; }
#preview code:not(pre code) { background: #2d2d2d; }
#preview blockquote { border-color: #444; color: #aaa; }
#preview .markdown-alert-note,
#preview .markdown-alert-tip,
#preview .markdown-alert-important,
#preview .markdown-alert-warning,
#preview .markdown-alert-caution { background: #161b22; color: #d4d4d4; }
#preview .markdown-alert-note { border-color: #2f81f7; }
#preview .markdown-alert-tip { border-color: #3fb950; }
#preview .markdown-alert-important { border-color: #a371f7; }
#preview .markdown-alert-warning { border-color: #d29922; }
#preview .markdown-alert-caution { border-color: #f85149; }
#preview .markdown-alert-note .markdown-alert-title { color: #2f81f7; }
#preview .markdown-alert-tip .markdown-alert-title { color: #3fb950; }
#preview .markdown-alert-important .markdown-alert-title { color: #a371f7; }
#preview .markdown-alert-warning .markdown-alert-title { color: #d29922; }
#preview .markdown-alert-caution .markdown-alert-title { color: #f85149; }
#preview table th { background: #2d2d2d; color: #f0f0f0; }
#preview table td, #preview table th { border-color: #444; }
#preview hr { border-color: #333; }
"#;

/// The script that waits until a snapshot page has settled (highlighting,
/// enhancement, fonts, images), scrolls to the requested page and reports the
/// outcome in the document title.
pub const SNAPSHOT_READY_JS: &'static str = r#"
(function() {
  var config = window.__mdPreviewRenderConfig;
  var state = window.__mdPreviewRenderState = { status: 'pending' };

  function twoFrames() {
    return new Promise(function(resolve) {
      requestAnimationFrame(function() { requestAnimationFrame(resolve); });
    });
  }

  function decodeImages() {
    return Promise.all(Array.prototype.map.call(document.images, function(image) {
      if (typeof image.decode === 'function') return image.decode();
      if (image.complete && image.naturalWidth > 0) return Promise.resolve();
      return new Promise(function(resolve, reject) {
        image.addEventListener('load', resolve, { once: true });
        image.addEventListener('error', function() { reject(new Error('image decode failed')); }, { once: true });
      });
    }));
  }

  Promise.resolve()
    .then(function() {
      if (window.hljs && window.hljs.highlightAll) window.hljs.highlightAll();
      if (window.__enhancePreview) return window.__enhancePreview();
    })
    .then(function() { return document.fonts && document.fonts.ready; })
    .then(decodeImages)
    .then(twoFrames)
    .then(function() {
      var root = document.documentElement;
      var body = document.body;
      var totalHeight = Math.max(root.scrollHeight, body.scrollHeight);
      var totalPages = Math.max(1, Math.ceil(totalHeight / config.height));
      if (totalPages > config.maxPages) {
        throw new Error('document exceeds page limit');
      }
      if (config.page >= totalPages) {
        state.status = 'failed';
        state.reason = 'page-out-of-range';
        state.totalPages = totalPages;
        document.title = 'md-preview-page-out-of-range:' + totalPages;
        return;
      }
      body.style.minHeight = (totalPages * config.height) + 'px';
      window.scrollTo(0, config.page * config.height);
      return twoFrames().then(function() {
        var expectedOffset = config.page * config.height;
        if (Math.abs(window.scrollY - expectedOffset) > 0.5) {
          throw new Error('failed to reach exact page offset');
        }
        state.status = 'ready';
        state.totalPages = totalPages;
        state.totalHeight = totalHeight;
        state.viewportWidth = window.innerWidth;
        state.viewportHeight = window.innerHeight;
        document.title = 'md-preview-ready:' + totalPages + ':' + totalHeight + ':' +
          window.innerWidth + ':' + window.innerHeight;
      });
    })
    .catch(function(error) {
      state.status = 'failed';
      state.reason = String(error && error.message || error);
      document.title = 'md-preview-failed:' + state.reason.slice(0, 160);
    });
})();
"#;

/// The Content-Security-Policy of a snapshot page: nothing is fetched, images
/// and fonts come from data URLs, and only the page's own inline styles and
/// scripts run.
pub const SNAPSHOT_CSP: &'static str = "<meta http-equiv=\"Content-Security-Policy\" content=\"default-src 'none'; img-src data:; font-src data:; style-src 'unsafe-inline'; script-src 'unsafe-inline' 'unsafe-eval'; connect-src 'none'; object-src 'none'; frame-src 'none'; base-uri 'none'; form-action 'none'\">";

/// The scripts and style sheets that pages are built with: the syntax
/// highlighter with its two themes and extra languages, the preview enhancer,
/// and the math and diagram renderers.
pub struct PageAssets {
    pub hljs_js: &'static str,
    pub hljs_light: &'static str,
    pub hljs_dark: &'static str,
    pub hljs_extra_langs: &'static str,
    pub preview_enhance_js: &'static str,
    pub katex_js: &'static str,
    pub katex_css: &'static str,
    pub mermaid_js: &'static str,
}

/// How a snapshot page is laid out.
#[derive(Clone, Debug)]
pub struct SnapshotPageOptions {
    /// Zero-based index of the page to show.
    pub page: u32,
    /// Logical viewport width.
    pub width: u32,
    /// Logical viewport height.
    pub height: u32,
    /// The pixel scale, written as `Display` writes the number.
    pub scale: String,
    pub theme: PreviewTheme,
    /// Largest number of pages the document may have.
    pub max_pages: u32,
}

/// `true` or `false`, as JavaScript writes them.
pub open spec fn bool_text(b: bool) -> Seq<char> {
    if b {
        "true"@
    } else {
        "false"@
    }
}

/// `s` where `c` holds, and nothing otherwise.
pub open spec fn when(c: bool, s: Seq<char>) -> Seq<char> {
    if c {
        s
    } else {
        Seq::empty()
    }
}

/// The render configuration object that the readiness script reads.
pub open spec fn render_config(o: SnapshotPageOptions) -> Seq<char> {
    "{page:"@ + decimal(o.page as nat) + ",width:"@ + decimal(o.width as nat) + ",height:"@
        + decimal(o.height as nat) + ",scale:"@ + o.scale@ + ",maxPages:"@ + decimal(
        o.max_pages as nat,
    ) + "}"@
}

/// The highlighter's style sheet for a theme.
pub open spec fn highlight_css(theme: PreviewTheme, a: PageAssets) -> Seq<char> {
    match theme {
        PreviewTheme::Light => a.hljs_light@,
        PreviewTheme::Dark => a.hljs_dark@,
    }
}

/// The math renderer's style sheet, as the page head holds it.
pub open spec fn katex_style(a: PageAssets) -> Seq<char> {
    "<style id=\"katex-css\">"@ + a.katex_css@ + "</style>"@
}

/// The page from its start up to the opening of the preview article.
pub open spec fn page_head(flags: EnhanceFlags, o: SnapshotPageOptions, a: PageAssets) -> Seq<char> {
    "<!doctype html><html data-theme=\""@ + o.theme.name() + "\"><head><meta charset=\"utf-8\">"@
        + SNAPSHOT_CSP@ + "<style>"@ + PREVIEW_CSS@ + when(
        o.theme == PreviewTheme::Dark,
        PREVIEW_DARK_CSS@,
    ) + "html{color-scheme:"@ + o.theme.name()
        + ";overflow:hidden}body{min-height:100vh}#app{box-sizing:border-box}</style>"@
        + "<style>"@ + highlight_css(o.theme, a) + "</style>"@ + when(flags.math, katex_style(a))
        + "</head><body><main id=\"app\"><article id=\"preview\">"@
}

/// The math renderer's script, as the snapshot page loads it.
pub open spec fn katex_script(a: PageAssets) -> Seq<char> {
    a.katex_js@ + "\n;try{window.katex=katex;}catch(error){}\n"@
}

/// The diagram renderer's script, as the snapshot page loads it.
pub open spec fn mermaid_script(a: PageAssets) -> Seq<char> {
    a.mermaid_js@ + "\n;try{window.mermaid=mermaid;}catch(error){}\n"@
}

/// The page from the end of the preview article to its end: the scripts.
pub open spec fn page_scripts(flags: EnhanceFlags, o: SnapshotPageOptions, a: PageAssets) -> Seq<
    char,
> {
    "</article></main><script>"@ + a.hljs_js@ + "\n"@ + a.hljs_extra_langs@
        + "\n;try{window.hljs=hljs;}catch(error){}\n"@ + when(flags.math, katex_script(a)) + when(
        flags.mermaid,
        mermaid_script(a),
    ) + "window.__mdPreviewFeatureFlags={math:"@ + bool_text(flags.math) + ",mermaid:"@
        + bool_text(flags.mermaid) + "};\n"@ + a.preview_enhance_js@
        + "\nwindow.__mdPreviewRenderConfig="@ + render_config(o) + ";\n"@ + SNAPSHOT_READY_JS@
        + "</script></body></html>"@
}

/// The snapshot page of a rendered document.
pub open spec fn snapshot_page(r: RenderedMarkdown, o: SnapshotPageOptions, a: PageAssets) -> Seq<
    char,
> {
    page_head(r.flags, o, a) + r.html@ + page_scripts(r.flags, o, a)
}

/// Appends the decimal numeral of `n` to `out`.
fn append_decimal(out: &mut String, n: u32)
    ensures
        final(out)@ == old(out)@ + decimal(n as nat),
{
    let digits = decimal_chars(n as u64);
    let text = string_from_chars(digits.as_slice());
    out.append(text.as_str());
}

/// The render configuration object of a page.
fn build_render_config(o: &SnapshotPageOptions) -> (r: String)
    ensures
        r@ == render_config(*o),
{
    let mut c = "{page:".to_owned();
    append_decimal(&mut c, o.page);
    c.append(",width:");
    append_decimal(&mut c, o.width);
    c.append(",height:");
    append_decimal(&mut c, o.height);
    c.append(",scale:");
    c.append(o.scale.as_str());
    c.append(",maxPages:");
    append_decimal(&mut c, o.max_pages);
    c.append("}");
    c
}

/// The head of a snapshot page.
fn build_page_head(flags: EnhanceFlags, o: &SnapshotPageOptions, a: &PageAssets) -> (r: String)
    ensures
        r@ == page_head(flags, *o, *a),
{
    let dark = match o.theme {
        PreviewTheme::Light => false,
        PreviewTheme::Dark => true,
    };
    let mut h = "<!doctype html><html data-theme=\"".to_owned();
    h.append(o.theme.as_str());
    h.append("\"><head><meta charset=\"utf-8\">");
    h.append(SNAPSHOT_CSP);
    h.append("<style>");
    h.append(PREVIEW_CSS);
    let ghost before_dark = h@;
    if dark {
        h.append(PREVIEW_DARK_CSS);
    }
    assert(h@ =~= before_dark + when(o.theme == PreviewTheme::Dark, PREVIEW_DARK_CSS@));
    h.append("html{color-scheme:");
    h.append(o.theme.as_str());
    h.append(";overflow:hidden}body{min-height:100vh}#app{box-sizing:border-box}</style>");
    h.append("<style>");
    let highlight = match o.theme {
        PreviewTheme::Light => a.hljs_light,
        PreviewTheme::Dark => a.hljs_dark,
    };
    h.append(highlight);
    h.append("</style>");
    let ghost before_katex = h@;
    if flags.math {
        let mut k = "<style id=\"katex-css\">".to_owned();
        k.append(a.katex_css);
        k.append("</style>");
        h.append(k.as_str());
    }
    assert(h@ =~= before_katex + when(flags.math, katex_style(*a)));
    h.append("</head><body><main id=\"app\"><article id=\"preview\">");
    h
}

/// The scripts of a snapshot page.
fn build_page_scripts(flags: EnhanceFlags, o: &SnapshotPageOptions, a: &PageAssets) -> (r: String)
    ensures
        r@ == page_scripts(flags, *o, *a),
{
    let mut s = "</article></main><script>".to_owned();
    s.append(a.hljs_js);
    s.append("\n");
    s.append(a.hljs_extra_langs);
    s.append("\n;try{window.hljs=hljs;}catch(error){}\n");
    let ghost before_katex = s@;
    if flags.math {
        let mut k = a.katex_js.to_owned();
        k.append("\n;try{window.katex=katex;}catch(error){}\n");
        s.append(k.as_str());
    }
    assert(s@ =~= before_katex + when(flags.math, katex_script(*a)));
    let ghost before_mermaid = s@;
    if flags.mermaid {
        let mut m = a.mermaid_js.to_owned();
        m.append("\n;try{window.mermaid=mermaid;}catch(error){}\n");
        s.append(m.as_str());
    }
    assert(s@ =~= before_mermaid + when(flags.mermaid, mermaid_script(*a)));
    s.append("window.__mdPreviewFeatureFlags={math:");
    s.append(if flags.math { "true" } else { "false" });
    s.append(",mermaid:");
    s.append(if flags.mermaid { "true" } else { "false" });
    s.append("};\n");
    s.append(a.preview_enhance_js);
    s.append("\nwindow.__mdPreviewRenderConfig=");
    let config = build_render_config(o);
    s.append(config.as_str());
    s.append(";\n");
    s.append(SNAPSHOT_READY_JS);
    s.append("</script></body></html>");
    s
}

/// The self-contained HTML page that a snapshot of `rendered` is taken of: the
/// preview's style sheets for the theme, the highlighter, the math and diagram
/// renderers where the document needs them, the enhancer, the render
/// configuration and the readiness script, under a policy that lets the page
/// fetch nothing.
pub fn build_snapshot_page(
    rendered: &RenderedMarkdown,
    options: &SnapshotPageOptions,
    assets: &PageAssets,
) -> (r: String)
    ensures
        r@ == snapshot_page(*rendered, *options, *assets),
{
    let mut page = build_page_head(rendered.flags, options, assets);
    page.append(rendered.html.as_str());
    let scripts = build_page_scripts(rendered.flags, options, assets);
    page.append(scripts.as_str());
    page
}

/// The script that loads the math renderer into a live preview and hands it
/// its style sheet.
pub open spec fn katex_bootstrap(a: PageAssets) -> Seq<char> {
    "(function(){\nif(!window.katex){\n"@ + a.katex_js@ + "\n;try{window.katex=katex;}catch(e){}\n}\n"@
        + "if(window.__setKatexCss)window.__setKatexCss('"@ + js_escape(a.katex_css@)
        + "');\n})();"@
}

/// The script that loads the diagram renderer into a live preview.
pub open spec fn mermaid_bootstrap(a: PageAssets) -> Seq<char> {
    a.mermaid_js@ + "\n;try{window.mermaid=mermaid;}catch(e){}\n"@
}

/// The script that runs the enhancer.
pub open spec fn enhance_call() -> Seq<char> {
    "if(window.__enhancePreview)window.__enhancePreview();"@
}

/// The scripts that bring a live preview up to what a document needs: nothing
/// where it needs no optional renderer; otherwise a loader for each needed
/// renderer that is not loaded yet, math first, then the call of the enhancer.
pub open spec fn enhancer_bootstrap(flags: EnhanceFlags, loaded: EnhanceFlags, a: PageAssets) -> Seq<
    Seq<char>,
> {
    if !(flags.math || flags.mermaid) {
        Seq::empty()
    } else {
        (if flags.math && !loaded.math {
            seq![katex_bootstrap(a)]
        } else {
            Seq::empty()
        }) + (if flags.mermaid && !loaded.mermaid {
            seq![mermaid_bootstrap(a)]
        } else {
            Seq::empty()
        }) + seq![enhance_call()]
    }
}

/// The scripts that bring a live preview up to what a document needs.
pub fn build_enhancer_bootstrap(flags: EnhanceFlags, loaded: EnhanceFlags, assets: &PageAssets) -> (r:
    Vec<String>)
    ensures
        string_views(r@) == enhancer_bootstrap(flags, loaded, *assets),
{
    let mut scripts: Vec<String> = Vec::new();
    if !flags.any() {
        assert(string_views(scripts@) =~= Seq::<Seq<char>>::empty());
        return scripts;
    }
    let ghost first: Seq<Seq<char>> = if flags.math && !loaded.math {
        seq![katex_bootstrap(*assets)]
    } else {
        Seq::empty()
    };
    let ghost second: Seq<Seq<char>> = if flags.mermaid && !loaded.mermaid {
        seq![mermaid_bootstrap(*assets)]
    } else {
        Seq::empty()
    };
    if flags.math && !loaded.math {
        let mut script = "(function(){\nif(!window.katex){\n".to_owned();
        script.append(assets.katex_js);
        script.append("\n;try{window.katex=katex;}catch(e){}\n}\n");
        script.append("if(window.__setKatexCss)window.__setKatexCss('");
        let escaped = escape_js(assets.katex_css);
        script.append(escaped.as_str());
        script.append("');\n})();");
        scripts.push(script);
    }
    assert(string_views(scripts@) =~= first);
    if flags.mermaid && !loaded.mermaid {
        let mut script = assets.mermaid_js.to_owned();
        script.append("\n;try{window.mermaid=mermaid;}catch(e){}\n");
        scripts.push(script);
    }
    assert(string_views(scripts@) =~= first + second);
    scripts.push("if(window.__enhancePreview)window.__enhancePreview();".to_owned());
    assert(string_views(scripts@) =~= first + second + seq![enhance_call()]);
    scripts
}

/// A page for a document that needs diagrams holds the diagram renderer,
/// whether or not it also needs math; one that needs math holds the math
/// renderer, whether or not it also needs diagrams.
pub proof fn lemma_page_holds_needed_renderers(
    r: RenderedMarkdown,
    o: SnapshotPageOptions,
    a: PageAssets,
)
    ensures
        r.flags.mermaid ==> exists|i: int|
            occurs_at(
                snapshot_page(r, o, a),
                i,
                a.mermaid_js@ + "\n;try{window.mermaid=mermaid;}catch(error){}\n"@,
            ),
        r.flags.math ==> exists|i: int|
            occurs_at(
                snapshot_page(r, o, a),
                i,
                a.katex_js@ + "\n;try{window.katex=katex;}catch(error){}\n"@,
            ),
{
    let head = page_head(r.flags, o, a) + r.html@;
    let scripts_start = "</article></main><script>"@ + a.hljs_js@ + "\n"@ + a.hljs_extra_langs@
        + "\n;try{window.hljs=hljs;}catch(error){}\n"@;
    let page = snapshot_page(r, o, a);
    if r.flags.mermaid {
        let m = a.mermaid_js@ + "\n;try{window.mermaid=mermaid;}catch(error){}\n"@;
        let i: int = (head.len() + scripts_start.len() + when(r.flags.math, katex_script(a)).len()) as int;
        assert(page.subrange(i, i + m.len() as int) =~= m);
        assert(occurs_at(page, i, m));
    }
    if r.flags.math {
        let k = a.katex_js@ + "\n;try{window.katex=katex;}catch(error){}\n"@;
        let i: int = (head.len() + scripts_start.len()) as int;
        assert(page.subrange(i, i + k.len() as int) =~= k);
        assert(occurs_at(page, i, k));
    }
}

/// Needing diagrams adds exactly the diagram renderer to a page: the page of a
/// document that needs diagrams is longer than the page of the same document
/// without them by the renderer's script and its loader line, less the
/// difference between the flag texts `false` and `true`.
pub proof fn lemma_page_diagram_length(
    html: String,
    math: bool,
    o: SnapshotPageOptions,
    a: PageAssets,
)
    ensures
        snapshot_page(
            RenderedMarkdown { html, flags: EnhanceFlags { math, mermaid: true } },
            o,
            a,
        ).len() + "false"@.len() == snapshot_page(
            RenderedMarkdown { html, flags: EnhanceFlags { math, mermaid: false } },
            o,
            a,
        ).len() + a.mermaid_js@.len() + "\n;try{window.mermaid=mermaid;}catch(error){}\n"@.len()
            + "true"@.len(),
{
}

} // verus!
