use md_preview::enhance::{EnhanceFlags, PreviewTheme};
use md_preview::page::{
    build_enhancer_bootstrap, build_snapshot_page, PageAssets, SnapshotPageOptions, PREVIEW_CSS,
    PREVIEW_DARK_CSS, SNAPSHOT_READY_JS,
};
use md_preview::snapshot::RenderedMarkdown;
use md_preview::MAX_RENDER_PAGES;

// Small stand-ins for the bundled highlighter, enhancer and renderer scripts.
fn assets() -> PageAssets {
    PageAssets {
        hljs_js: "var hljs={highlightAll:function(){}};",
        hljs_light: ".hljs{color:#24292e}",
        hljs_dark: ".hljs{color:#c9d1d9}",
        hljs_extra_langs: "hljs.delphi=1;",
        preview_enhance_js: "window.__enhancePreview=function(){mermaid.initialize({securityLevel: 'strict'});katex.render(x,{trust: false});};",
        katex_js: "var katex={render:function(){}};",
        katex_css: ".katex{font:1em 'KaTeX_Main'}\n.katex-display{display:block}",
        mermaid_js: "var mermaid={initialize:function(){}};",
    }
}

fn options(theme: PreviewTheme) -> SnapshotPageOptions {
    SnapshotPageOptions {
        page: 0,
        width: 960,
        height: 720,
        scale: "1".to_string(),
        theme,
        max_pages: MAX_RENDER_PAGES,
    }
}

#[test]
fn snapshot_page_contains_shared_assets_and_readiness_protocol() {
    let rendered = RenderedMarkdown {
        html: "<h1>hello</h1>".to_string(),
        flags: EnhanceFlags {
            math: true,
            mermaid: true,
        },
    };
    let page = build_snapshot_page(&rendered, &options(PreviewTheme::Dark), &assets());
    assert!(page.contains("Content-Security-Policy"));
    assert!(page.contains("window.__mdPreviewRenderState"));
    assert!(page.contains("document.fonts"));
    assert!(page.contains("decodeImages"));
    assert!(page.contains("md-preview-ready:"));
    assert!(page.contains("securityLevel: 'strict'"));
    assert!(page.contains("trust: false"));
    assert!(page.contains(PREVIEW_DARK_CSS.trim()));
}

#[test]
fn light_page_without_optional_renderers() {
    let rendered = RenderedMarkdown {
        html: "<p>plain</p>\n".to_string(),
        flags: EnhanceFlags::default(),
    };
    let page = build_snapshot_page(&rendered, &options(PreviewTheme::Light), &assets());
    assert!(page.starts_with("<!doctype html><html data-theme=\"light\"><head><meta charset=\"utf-8\">"));
    assert!(page.ends_with("</script></body></html>"));
    assert!(page.contains(PREVIEW_CSS));
    assert!(!page.contains(PREVIEW_DARK_CSS.trim()));
    assert!(page.contains("<style>.hljs{color:#24292e}</style>"));
    assert!(!page.contains("katex-css"));
    assert!(!page.contains("var mermaid"));
    assert!(page.contains("window.__mdPreviewFeatureFlags={math:false,mermaid:false};"));
    assert!(page.contains("<article id=\"preview\"><p>plain</p>\n</article>"));
    assert!(page.contains(SNAPSHOT_READY_JS));
    assert!(page.contains("html{color-scheme:light;overflow:hidden}"));
}

#[test]
fn render_configuration_is_written_exactly() {
    let rendered = RenderedMarkdown {
        html: String::new(),
        flags: EnhanceFlags {
            math: true,
            mermaid: false,
        },
    };
    let mut opts = options(PreviewTheme::Dark);
    opts.page = 3;
    opts.width = 1024;
    opts.height = 768;
    opts.scale = "1.5".to_string();
    let page = build_snapshot_page(&rendered, &opts, &assets());
    assert!(page.contains(
        "\nwindow.__mdPreviewRenderConfig={page:3,width:1024,height:768,scale:1.5,maxPages:4096};\n"
    ));
    assert!(page.contains("<style id=\"katex-css\">.katex{font:1em 'KaTeX_Main'}\n.katex-display{display:block}</style>"));
    assert!(page.contains("var katex={render:function(){}};\n;try{window.katex=katex;}catch(error){}\n"));
    assert!(page.contains("window.__mdPreviewFeatureFlags={math:true,mermaid:false};"));
    assert!(page.contains("<style>.hljs{color:#c9d1d9}</style>"));
}

#[test]
fn no_bootstrap_without_optional_renderers() {
    let none = EnhanceFlags::default();
    assert!(build_enhancer_bootstrap(none, none, &assets()).is_empty());
}

#[test]
fn bootstrap_loads_missing_renderers_then_enhances() {
    let both = EnhanceFlags {
        math: true,
        mermaid: true,
    };
    let scripts = build_enhancer_bootstrap(both, EnhanceFlags::default(), &assets());
    assert_eq!(scripts.len(), 3);
    assert_eq!(
        scripts[0],
        "(function(){\nif(!window.katex){\nvar katex={render:function(){}};\n;try{window.katex=katex;}catch(e){}\n}\nif(window.__setKatexCss)window.__setKatexCss('.katex{font:1em \\'KaTeX_Main\\'}\\n.katex-display{display:block}');\n})();"
    );
    assert_eq!(
        scripts[1],
        "var mermaid={initialize:function(){}};\n;try{window.mermaid=mermaid;}catch(e){}\n"
    );
    assert_eq!(scripts[2], "if(window.__enhancePreview)window.__enhancePreview();");

    let loaded = build_enhancer_bootstrap(both, both, &assets());
    assert_eq!(loaded, vec!["if(window.__enhancePreview)window.__enhancePreview();".to_string()]);
}
