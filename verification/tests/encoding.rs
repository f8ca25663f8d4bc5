use md_preview::encoding::{base64_encode, escape_js, hex_value, percent_decode_path_segment};
use md_preview::images::{
    image_mime_type, jpeg_dimensions, png_dimensions, snapshot_image_mime_type, validate_raster_size,
    ImageFormat,
};
use md_preview::numbers::{decimal_chars, parse_unsigned_text, signed_decimal_chars};
use md_preview::paths::{is_local_relative_url, resolve_local_relative_image_path};
use md_preview::svg::{contains_svg_event_attribute, svg_length_number, svg_size_attributes, view_box_fields};

fn chars(s: &str) -> Vec<char> {
    s.chars().collect()
}

#[test]
fn base64_matches_the_standard_alphabet() {
    assert_eq!(base64_encode(b""), "");
    assert_eq!(base64_encode(b"f"), "Zg==");
    assert_eq!(base64_encode(b"fo"), "Zm8=");
    assert_eq!(base64_encode(b"foo"), "Zm9v");
    assert_eq!(base64_encode(b"foobar"), "Zm9vYmFy");
    assert_eq!(base64_encode(&[0xff, 0xfe, 0xfd]), "//79");
}

#[test]
fn percent_decoding() {
    assert_eq!(hex_value(b'a'), Some(10));
    assert_eq!(hex_value(b'F'), Some(15));
    assert_eq!(hex_value(b'g'), None);
    assert_eq!(percent_decode_path_segment("a%20b").as_deref(), Some("a b"));
    assert_eq!(percent_decode_path_segment("%C3%A9").as_deref(), Some("é"));
    assert_eq!(percent_decode_path_segment("%zz"), None);
    assert_eq!(percent_decode_path_segment("%2"), None);
    assert_eq!(percent_decode_path_segment("%FF"), None);
    assert_eq!(percent_decode_path_segment("plain").as_deref(), Some("plain"));
}

#[test]
fn javascript_escaping() {
    assert_eq!(escape_js("a'b\\c\nd\re"), "a\\'b\\\\c\\nd\\re");
    assert_eq!(escape_js(""), "");
}

#[test]
fn local_relative_urls() {
    assert!(is_local_relative_url("img/a.png"));
    assert!(!is_local_relative_url(""));
    assert!(!is_local_relative_url("#top"));
    assert!(!is_local_relative_url("/etc/passwd"));
    assert!(!is_local_relative_url("\\\\server\\x.png"));
    assert!(!is_local_relative_url("//host/x.png"));
    assert!(!is_local_relative_url("data:image/png;base64,AA"));
}

#[test]
fn image_paths_stay_below_the_directory() {
    assert_eq!(
        resolve_local_relative_image_path("./img//a.png?x=1#top"),
        Some(vec!["img".to_string(), "a.png".to_string()])
    );
    assert_eq!(resolve_local_relative_image_path("../secret.png"), None);
    assert_eq!(resolve_local_relative_image_path("a/%2E%2E/b.png"), None);
    assert_eq!(
        resolve_local_relative_image_path("a%2Fb.png"),
        Some(vec!["a/b.png".to_string()])
    );
    assert_eq!(resolve_local_relative_image_path("a%2F..%2F..%2Fb.png"), None);
    assert_eq!(resolve_local_relative_image_path("."), None);
    assert_eq!(resolve_local_relative_image_path("https://x/y.png"), None);
}

#[test]
fn mime_types_by_extension() {
    assert_eq!(image_mime_type("a/b.PNG"), Some(ImageFormat::Png));
    assert_eq!(image_mime_type("x.jpeg").map(|f| f.mime()), Some("image/jpeg"));
    assert_eq!(image_mime_type("x.ico").map(|f| f.mime()), Some("image/x-icon"));
    assert_eq!(image_mime_type("x.avif").map(|f| f.mime()), Some("image/avif"));
    assert_eq!(image_mime_type("x.tiff"), None);
    assert_eq!(image_mime_type("noext"), None);
    assert_eq!(snapshot_image_mime_type("x.svg"), Some(ImageFormat::Svg));
    assert_eq!(snapshot_image_mime_type("x.gif"), None);
}

#[test]
fn png_and_jpeg_sizes() {
    let mut png = b"\x89PNG\r\n\x1a\n\0\0\0\rIHDR".to_vec();
    png.extend_from_slice(&300u32.to_be_bytes());
    png.extend_from_slice(&200u32.to_be_bytes());
    assert_eq!(png_dimensions(&png), Ok((300, 200)));
    assert_eq!(png_dimensions(&png[..20]), Err("invalid PNG header".to_string()));
    let jpeg = [
        0xff, 0xd8, 0xff, 0xe0, 0x00, 0x04, 0x00, 0x00, 0xff, 0xc0, 0x00, 0x0b, 0x08, 0x01, 0x2c,
        0x02, 0x58, 0x01, 0x01, 0x11, 0x00,
    ];
    assert_eq!(jpeg_dimensions(&jpeg), Ok((600, 300)));
    assert_eq!(jpeg_dimensions(&[0x00]), Err("invalid JPEG header".to_string()));
    assert_eq!(
        jpeg_dimensions(&[0xff, 0xd8, 0xff, 0xd9]),
        Err("JPEG has no supported frame header".to_string())
    );
    assert_eq!(
        jpeg_dimensions(&[0xff, 0xd8, 0xff, 0xe0, 0x00]),
        Err("truncated JPEG segment".to_string())
    );
    assert_eq!(
        jpeg_dimensions(&[0xff, 0xd8, 0xff, 0xe0, 0x00, 0x01]),
        Err("invalid JPEG segment length".to_string())
    );
}

#[test]
fn raster_size_limits() {
    assert!(validate_raster_size(8192, 4096).is_ok());
    assert_eq!(
        validate_raster_size(0, 10),
        Err("image dimensions must be positive finite numbers".to_string())
    );
    assert_eq!(
        validate_raster_size(8193, 1),
        Err("image dimensions exceed 8192 pixels".to_string())
    );
    assert_eq!(
        validate_raster_size(8192, 8192),
        Err("image exceeds the 33554432 pixel limit".to_string())
    );
}

#[test]
fn svg_checks() {
    let size = svg_size_attributes(br#"<svg width="10" height='20px' viewBox="0 0 1 2">"#)
        .expect("valid svg");
    assert_eq!(size.width.as_deref(), Some("10"));
    assert_eq!(size.height.as_deref(), Some("20px"));
    assert_eq!(size.view_box.as_deref(), Some("0 0 1 2"));
    assert_eq!(
        svg_size_attributes(b"<html></html>").err(),
        Some("SVG root element must be first".to_string())
    );
    assert_eq!(
        svg_size_attributes(b"<svg width='1' href=\"http://x\"/>").err(),
        Some("SVG contains forbidden content: href=\"http".to_string())
    );
    assert_eq!(
        svg_size_attributes(&[0xff, 0xfe]).err(),
        Some("SVG is not valid UTF-8".to_string())
    );
    assert_eq!(
        svg_size_attributes(b"<?xml version='1.0'").err(),
        Some("invalid SVG XML declaration".to_string())
    );
    assert_eq!(
        svg_size_attributes(b"<svg width='1'").err(),
        Some("unterminated SVG root element".to_string())
    );
    assert!(contains_svg_event_attribute(&chars("<svg onclick='x'>")));
    assert!(!contains_svg_event_attribute(&chars("<svg data-onclick='x'>")));
    assert!(!contains_svg_event_attribute(&chars("<svg on='x'>")));
    assert_eq!(svg_length_number(" 12px "), "12");
    assert_eq!(svg_length_number("12 px"), "12 ");
    assert_eq!(view_box_fields(" 0,0  16 ,9 "), vec!["0", "0", "16", "9"]);
}

#[test]
fn decimal_numbers() {
    assert_eq!(decimal_chars(0), vec!['0']);
    assert_eq!(decimal_chars(u64::MAX).into_iter().collect::<String>(), u64::MAX.to_string());
    assert_eq!(signed_decimal_chars(-42).into_iter().collect::<String>(), "-42");
    assert_eq!(signed_decimal_chars(i32::MIN).into_iter().collect::<String>(), i32::MIN.to_string());
    assert_eq!(parse_unsigned_text(&chars("4294967295"), u32::MAX as u64), Some(4294967295));
    assert_eq!(parse_unsigned_text(&chars("4294967296"), u32::MAX as u64), None);
    assert_eq!(parse_unsigned_text(&chars("+0"), 10), Some(0));
    assert_eq!(parse_unsigned_text(&chars("+"), 10), None);
    assert_eq!(parse_unsigned_text(&chars(" 1"), 10), None);
    assert_eq!(parse_unsigned_text(&chars("-1"), 10), None);
}

fn decode_base64(text: &str) -> Vec<u8> {
    let value = |c: u8| match c {
        b'A'..=b'Z' => c - b'A',
        b'a'..=b'z' => c - b'a' + 26,
        b'0'..=b'9' => c - b'0' + 52,
        b'+' => 62,
        _ => 63,
    };
    let mut out = Vec::new();
    for group in text.as_bytes().chunks(4) {
        let v: Vec<u32> = group.iter().map(|c| value(*c) as u32).collect();
        out.push((v[0] * 4 + v[1] / 16) as u8);
        if group[2] != b'=' {
            out.push(((v[1] % 16) * 16 + v[2] / 4) as u8);
        }
        if group[3] != b'=' {
            out.push(((v[2] % 4) * 64 + v[3]) as u8);
        }
    }
    out
}

#[test]
fn base64_uses_the_alphabet_and_decodes_back() {
    let bytes: Vec<u8> = (0..=255u8).collect();
    for n in 0..bytes.len() {
        let text = base64_encode(&bytes[..n]);
        let padding = (3 - n % 3) % 3;
        assert_eq!(text.len(), 4 * n.div_ceil(3));
        let body = &text[..text.len() - padding];
        assert!(body
            .chars()
            .all(|c| c.is_ascii_alphanumeric() || c == '+' || c == '/'));
        assert!(text[text.len() - padding..].chars().all(|c| c == '='));
        assert_eq!(decode_base64(&text), &bytes[..n]);
    }
}
