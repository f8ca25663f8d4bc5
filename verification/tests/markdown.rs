use md_preview::desktop::{data_url_for, DesktopPreview};
use md_preview::enhance::{enhance_flags_for, EnhanceFlags, PreviewTheme};
use md_preview::headings::heading_slug;
use md_preview::images::ImageFormat;
use md_preview::markdown::md_to_html;

fn slug(text: &str) -> String {
    let chars: Vec<char> = text.chars().collect();
    heading_slug(&chars)
}

#[test]
fn headings_get_anchor_ids() {
    assert_eq!(md_to_html("# Hello World"), "<h1 id=\"hello-world\">Hello World</h1>\n");
}

#[test]
fn repeated_headings_get_numbered_ids() {
    assert_eq!(
        md_to_html("# A\n\n# A\n\n# A"),
        "<h1 id=\"a\">A</h1>\n<h1 id=\"a-1\">A</h1>\n<h1 id=\"a-2\">A</h1>\n"
    );
}

#[test]
fn explicit_heading_ids_are_kept_and_counted() {
    assert_eq!(
        md_to_html("# Intro {#a}\n\n# A"),
        "<h1 id=\"a\">Intro</h1>\n<h1 id=\"a-1\">A</h1>\n"
    );
}

#[test]
fn marks_become_highlights() {
    assert_eq!(
        md_to_html("a ==b== c"),
        "<p>a <mark class=\"mdp-mark\">b</mark> c</p>\n"
    );
    assert_eq!(md_to_html("a == b"), "<p>a == b</p>\n");
    assert_eq!(md_to_html("==  == x"), "<p>==  == x</p>\n");
}

#[test]
fn slugs() {
    assert_eq!(slug("  Hello,   World!  "), "hello-world");
    assert_eq!(slug("Ünïcode Tïtle"), "ünïcode-tïtle");
    assert_eq!(slug("snake_case and-dash"), "snake_case-and-dash");
    assert_eq!(slug("!!!"), "section");
    assert_eq!(slug(""), "section");
    assert_eq!(slug("trailing -"), "trailing");
}

#[test]
fn enhance_flags_detect_math_and_diagrams() {
    assert_eq!(enhance_flags_for("plain text"), EnhanceFlags::default());
    assert!(enhance_flags_for("$$x$$").math);
    assert!(enhance_flags_for("\\(x\\)").math);
    assert!(enhance_flags_for("\\[x\\]").math);
    assert!(enhance_flags_for("cost $a+b$ here").math);
    assert!(!enhance_flags_for("costs $5 and $6").math);
    assert!(!enhance_flags_for("escaped \\$x\\$").math);
    assert!(!enhance_flags_for("$ x$").math);
    assert!(enhance_flags_for("```mermaid\ngraph TD\n```").mermaid);
    assert!(enhance_flags_for("  ~~~ mermaid {init}\n~~~").mermaid);
    assert!(!enhance_flags_for("```mermaidx\n```").mermaid);
    assert!(enhance_flags_for("```mermaid\r\ngraph\r\n```").mermaid);
}

#[test]
fn flags_and_themes() {
    assert!(!EnhanceFlags::default().any());
    assert!(EnhanceFlags { math: false, mermaid: true }.any());
    assert_eq!(PreviewTheme::Light.as_str(), "light");
    assert_eq!(PreviewTheme::Dark.as_str(), "dark");
}

#[test]
fn desktop_preview_embeds_readable_local_images() {
    let mut preview = DesktopPreview::new("![a](img/a%20b.png) ![r](https://x/y.png) ![m](missing.gif)");
    let first = preview.next_image().expect("local png");
    assert_eq!(first.segments, vec!["img".to_string(), "a b.png".to_string()]);
    assert_eq!(first.format, ImageFormat::Png);
    preview.embed_image(Some(vec![1, 2, 3]));
    let second = preview.next_image().expect("local gif");
    assert_eq!(second.segments, vec!["missing.gif".to_string()]);
    assert_eq!(second.format, ImageFormat::Gif);
    preview.embed_image(None);
    assert!(preview.next_image().is_none());
    let html = preview.finish();
    assert!(html.contains("src=\"data:image/png;base64,AQID\""));
    assert!(html.contains("src=\"https://x/y.png\""));
    assert!(html.contains("src=\"missing.gif\""));
}

#[test]
fn data_urls() {
    assert_eq!(data_url_for(ImageFormat::Svg, b"<svg/>"), "data:image/svg+xml;base64,PHN2Zy8+");
    assert_eq!(data_url_for(ImageFormat::Jpeg, b""), "data:image/jpeg;base64,");
}

#[test]
fn slugs_are_made_of_kept_characters_and_are_stable() {
    for text in ["  Hello,   World!  ", "Ünïcode Tïtle", "a -- b", "x_y-z 42", "!!!"] {
        let once = slug(text);
        assert!(once
            .chars()
            .all(|c| c.is_alphanumeric() || c == '_' || c == '-'));
        assert!(!once.ends_with('-'));
        assert_eq!(slug(&once), once);
    }
}
