use md_preview::snapshot::{
    ReadFailure, RenderedMarkdown, SnapshotInputError, SnapshotPhase, SnapshotRender,
};
use md_preview::svg::{svg_length_number, view_box_fields, SvgSize};

/// A file of an in-memory directory tree rooted at `/docs`.
struct File {
    relative: &'static str,
    canonical: &'static str,
    is_file: bool,
    bytes: Vec<u8>,
}

fn svg_check(size: &SvgSize) -> Result<(), String> {
    let length = |text: &Option<String>| {
        text.as_deref()
            .and_then(|t| svg_length_number(t).parse::<f64>().ok())
    };
    let (width, height) = match (length(&size.width), length(&size.height)) {
        (Some(w), Some(h)) => (w, h),
        _ => {
            let view_box = size
                .view_box
                .as_deref()
                .ok_or_else(|| "SVG requires numeric width/height or viewBox".to_string())?;
            let values = view_box_fields(view_box)
                .iter()
                .map(|v| v.parse::<f64>())
                .collect::<Result<Vec<_>, _>>()
                .map_err(|_| "invalid SVG viewBox".to_string())?;
            if values.len() != 4 {
                return Err("SVG viewBox must contain four numbers".to_string());
            }
            (values[2], values[3])
        }
    };
    if !width.is_finite() || !height.is_finite() || width <= 0.0 || height <= 0.0 {
        return Err("image dimensions must be positive finite numbers".to_string());
    }
    if width > 8192.0 || height > 8192.0 {
        return Err("image dimensions exceed 8192 pixels".to_string());
    }
    if width * height > 33_554_432.0 {
        return Err("image exceeds the 33554432 pixel limit".to_string());
    }
    Ok(())
}

fn render(md: &str, files: &[File]) -> Result<RenderedMarkdown, SnapshotInputError> {
    let mut render = SnapshotRender::new(md)?;
    render.set_base(Ok("/docs".to_string()), "/docs")?;
    loop {
        let segments = match render.next_image()? {
            None => break,
            Some(segments) => segments,
        };
        let relative = segments.join("/");
        let file = files.iter().find(|f| f.relative == relative);
        let canonical = file
            .map(|f| f.canonical.to_string())
            .ok_or_else(|| "No such file or directory (os error 2)".to_string());
        render.image_located(canonical)?;
        let file = file.expect("located files exist");
        render.image_metadata(Ok((file.is_file, file.bytes.len() as u64)))?;
        if let Some(size) = render.image_read(Ok(file.bytes.clone()))? {
            render.image_svg_checked(svg_check(&size))?;
        }
    }
    assert_eq!(render.phase(), SnapshotPhase::Done);
    Ok(render.finish())
}

fn png(width: u32, height: u32) -> Vec<u8> {
    let mut png = b"\x89PNG\r\n\x1a\n\0\0\0\rIHDR".to_vec();
    png.extend_from_slice(&width.to_be_bytes());
    png.extend_from_slice(&height.to_be_bytes());
    png
}

fn file(relative: &'static str, canonical: &'static str, bytes: Vec<u8>) -> File {
    File {
        relative,
        canonical,
        is_file: true,
        bytes,
    }
}

#[test]
fn snapshot_rejects_raw_html() {
    let error = render("<script>alert(1)</script>", &[]).err().expect("raw HTML must fail");
    assert!(matches!(error, SnapshotInputError::RawHtml(_)));
}

#[test]
fn snapshot_embeds_contained_image() {
    let files = [file("pixel.png", "/docs/pixel.png", png(1, 1))];
    let rendered = render("![pixel](pixel.png)", &files).expect("contained image should render");
    assert!(rendered.html.contains("data:image/png;base64,"));
}

#[test]
fn snapshot_rejects_oversized_image_dimensions() {
    let files = [file("huge.png", "/docs/huge.png", png(8193, 1))];
    let error = render("![huge](huge.png)", &files).err().expect("oversized image must fail");
    assert!(error.message().contains("dimensions exceed"));
}

#[test]
fn snapshot_rejects_active_svg_content() {
    let files = [file(
        "active.svg",
        "/docs/active.svg",
        br#"<svg xmlns="http://www.w3.org/2000/svg" width="10" height="10"><script>alert(1)</script></svg>"#.to_vec(),
    )];
    let error = render("![active](active.svg)", &files).err().expect("active SVG must fail");
    assert!(error.message().contains("forbidden content"));
    let files = [file(
        "active.svg",
        "/docs/active.svg",
        br#"<svg xmlns="http://www.w3.org/2000/svg" width="10" height="10" onload = "alert(1)"/>"#.to_vec(),
    )];
    let error = render("![active](active.svg)", &files).err().expect("SVG event handler must fail");
    assert!(error.message().contains("event-handler"));
}

#[test]
fn snapshot_rejects_traversal_and_remote_images() {
    assert!(render("![secret](../secret.png)", &[]).is_err());
    assert!(render("![remote](https://example.com/x.png)", &[]).is_err());
}

#[test]
fn snapshot_rejects_symlink_escape() {
    let files = [file("escape.png", "/docs.outside.png", b"abc".to_vec())];
    assert!(render("![escape](escape.png)", &files).is_err());
}

#[test]
fn escaping_image_is_named_in_the_error() {
    let files = [file("escape.png", "/elsewhere/escape.png", png(1, 1))];
    let error = render("![escape](escape.png)", &files).err().expect("escape");
    assert_eq!(
        error,
        SnapshotInputError::UnsafeImage {
            url: "escape.png".to_string(),
            reason: "image resolves outside the Markdown directory".to_string(),
        }
    );
    assert_eq!(
        error.message(),
        "unsafe image \"escape.png\": image resolves outside the Markdown directory"
    );
}

#[test]
fn remote_image_reason() {
    let error = render("![remote](https://example.com/x.png)", &[]).err().expect("remote");
    assert_eq!(
        error,
        SnapshotInputError::UnsafeImage {
            url: "https://example.com/x.png".to_string(),
            reason: "only contained local relative images are allowed".to_string(),
        }
    );
}

#[test]
fn svg_with_size_is_embedded() {
    let files = [file(
        "img/logo.svg",
        "/docs/img/logo.svg",
        br#"<?xml version="1.0"?><svg width="10px" height=" 20 " xmlns="http://www.w3.org/2000/svg"/>"#.to_vec(),
    )];
    let rendered = render("# Title\n\n![logo](img/logo.svg)", &files).expect("svg renders");
    assert!(rendered.html.contains("data:image/svg+xml;base64,"));
    assert!(rendered.html.contains("<h1 id=\"title\">Title</h1>"));
}

#[test]
fn svg_size_from_view_box() {
    let files = [file(
        "a.svg",
        "/docs/a.svg",
        br#"<svg viewBox="0,0 16 9"></svg>"#.to_vec(),
    )];
    assert!(render("![a](a.svg)", &files).is_ok());
    let files = [file("a.svg", "/docs/a.svg", br#"<svg viewBox="0 0 16"></svg>"#.to_vec())];
    assert_eq!(
        render("![a](a.svg)", &files).err().expect("three numbers").message(),
        "unsafe image \"a.svg\": SVG viewBox must contain four numbers"
    );
}

#[test]
fn image_file_checks() {
    let mut not_file = file("dir.png", "/docs/dir.png", Vec::new());
    not_file.is_file = false;
    assert_eq!(
        render("![d](dir.png)", &[not_file]).err().expect("directory").message(),
        "unsafe image \"dir.png\": image path is not a regular file"
    );
    let files = [file("anim.gif", "/docs/anim.gif", b"GIF89a".to_vec())];
    assert_eq!(
        render("![g](anim.gif)", &files).err().expect("gif").message(),
        "unsafe image \"anim.gif\": snapshot mode supports PNG, JPEG, and SVG images"
    );
    assert_eq!(
        render("![m](missing.png)", &[]).err().expect("missing").message(),
        "unsafe image \"missing.png\": cannot canonicalize image: No such file or directory (os error 2)"
    );
}

#[test]
fn too_many_images_are_refused() {
    let files = [file("p.png", "/docs/p.png", png(1, 1))];
    let md = "![p](p.png)\n".repeat(129);
    assert_eq!(render(&md, &files).err().expect("too many"), SnapshotInputError::TooManyImages);
    let md = "![p](p.png)\n".repeat(128);
    assert!(render(&md, &files).is_ok());
}

#[test]
fn base_directory_errors_are_reported() {
    let mut r = SnapshotRender::new("text").expect("no raw html");
    let error = r
        .set_base(Err("permission denied".to_string()), "/docs")
        .err()
        .expect("base error");
    assert_eq!(
        error.message(),
        "unsafe image \"/docs\": cannot canonicalize source directory: permission denied"
    );
}

#[test]
fn read_failures_are_reported() {
    let mut r = SnapshotRender::new("![p](p.png)").expect("no raw html");
    r.set_base(Ok("/docs".to_string()), "/docs").expect("base");
    r.next_image().expect("image").expect("one image");
    r.image_located(Ok("/docs/p.png".to_string())).expect("contained");
    r.image_metadata(Ok((true, 24))).expect("png file");
    let error = r
        .image_read(Err(ReadFailure::Open("denied".to_string())))
        .err()
        .expect("open failed");
    assert_eq!(error.message(), "unsafe image \"p.png\": cannot open image: denied");
}

#[test]
fn raw_html_snippet_is_shortened() {
    let md = format!("<div>{}</div>", "x".repeat(100));
    let error = render(&md, &[]).err().expect("raw html");
    let SnapshotInputError::RawHtml(snippet) = error else {
        panic!("expected raw HTML");
    };
    assert_eq!(snippet.chars().count(), 81);
    assert!(snippet.ends_with('…'));
    assert!(snippet.starts_with("<div>xxx"));
}

#[test]
fn flags_come_from_the_source() {
    let rendered = render("$x$ and\n\n```mermaid\ngraph TD\n```\n", &[]).expect("renders");
    assert!(rendered.flags.math);
    assert!(rendered.flags.mermaid);
}
