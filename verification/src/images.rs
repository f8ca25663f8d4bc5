//! Image files: which formats a path's extension names, the PNG and JPEG headers
//! that give a raster image's size, and the size limits a snapshot enforces.
use vstd::prelude::*;
use crate::paths::path_extension;
use crate::paths::extension_of;
use crate::text::{ascii_lowercase, chars_of, to_ascii_lowercase};

verus! {

/// Largest width or height, in pixels, of an embedded snapshot image.
pub const MAX_IMAGE_DIMENSION: u32 = 8192;

/// Largest pixel count (width times height) of an embedded snapshot image.
pub const MAX_IMAGE_PIXELS: u64 = 33_554_432;

/// The image formats a Markdown preview embeds.
#[derive(Clone, Copy, Debug, PartialEq, Eq)]
pub enum ImageFormat {
    Png,
    Jpeg,
    Gif,
    Webp,
    Svg,
    Bmp,
    Icon,
    Avif,
}

impl ImageFormat {
    /// The media type of the format.
    pub open spec fn mime_text(self) -> Seq<char> {
        match self {
            ImageFormat::Png => "image/png"@,
            ImageFormat::Jpeg => "image/jpeg"@,
            ImageFormat::Gif => "image/gif"@,
            ImageFormat::Webp => "image/webp"@,
            ImageFormat::Svg => "image/svg+xml"@,
            ImageFormat::Bmp => "image/bmp"@,
            ImageFormat::Icon => "image/x-icon"@,
            ImageFormat::Avif => "image/avif"@,
        }
    }

    /// The media type of the format, as a data URL names it.
    pub fn mime(&self) -> (r: &'static str)
        ensures
            r@ == self.mime_text(),
    {
        match self {
            ImageFormat::Png => "image/png",
            ImageFormat::Jpeg => "image/jpeg",
            ImageFormat::Gif => "image/gif",
            ImageFormat::Webp => "image/webp",
            ImageFormat::Svg => "image/svg+xml",
            ImageFormat::Bmp => "image/bmp",
            ImageFormat::Icon => "image/x-icon",
            ImageFormat::Avif => "image/avif",
        }
    }
}

/// The format a (lower-case) file extension names in the desktop preview.
pub open spec fn preview_format(ext: Seq<char>) -> Option<ImageFormat> {
    if ext == seq!['p', 'n', 'g'] {
        Some(ImageFormat::Png)
    } else if ext == seq!['j', 'p', 'g'] || ext == seq!['j', 'p', 'e', 'g'] {
        Some(ImageFormat::Jpeg)
    } else if ext == seq!['g', 'i', 'f'] {
        Some(ImageFormat::Gif)
    } else if ext == seq!['w', 'e', 'b', 'p'] {
        Some(ImageFormat::Webp)
    } else if ext == seq!['s', 'v', 'g'] {
        Some(ImageFormat::Svg)
    } else if ext == seq!['b', 'm', 'p'] {
        Some(ImageFormat::Bmp)
    } else if ext == seq!['i', 'c', 'o'] {
        Some(ImageFormat::Icon)
    } else if ext == seq!['a', 'v', 'i', 'f'] {
        Some(ImageFormat::Avif)
    } else {
        None
    }
}

/// The format a (lower-case) file extension names in a snapshot, which takes
/// only PNG, JPEG and SVG.
pub open spec fn snapshot_format(ext: Seq<char>) -> Option<ImageFormat> {
    match preview_format(ext) {
        Some(ImageFormat::Png) => Some(ImageFormat::Png),
        Some(ImageFormat::Jpeg) => Some(ImageFormat::Jpeg),
        Some(ImageFormat::Svg) => Some(ImageFormat::Svg),
        _ => None,
    }
}

/// The format the extension of the path `p` names, compared without regard to
/// ASCII case (desktop preview).
pub open spec fn path_preview_format(p: Seq<char>) -> Option<ImageFormat> {
    match path_extension(p) {
        Some(ext) => preview_format(ascii_lowercase(ext)),
        None => None,
    }
}

/// The format the extension of the path `p` names in a snapshot.
pub open spec fn path_snapshot_format(p: Seq<char>) -> Option<ImageFormat> {
    match path_extension(p) {
        Some(ext) => snapshot_format(ascii_lowercase(ext)),
        None => None,
    }
}

fn is_word(s: &[char], w: &[char]) -> (r: bool)
    ensures
        r == (s@ == w@),
{
    if s.len() != w.len() {
        return false;
    }
    let mut i: usize = 0;
    while i < s.len()
        invariant
            i <= s@.len(),
            s@.len() == w@.len(),
            forall|j: int| 0 <= j < i ==> s@[j] == w@[j],
        decreases s@.len() - i,
    {
        if s[i] != w[i] {
            return false;
        }
        i = i + 1;
    }
    assert(s@ =~= w@);
    true
}

fn format_for_extension(ext: &[char]) -> (r: Option<ImageFormat>)
    ensures
        r == preview_format(ext@),
{
    let png = ['p', 'n', 'g'];
    let jpg = ['j', 'p', 'g'];
    let jpeg = ['j', 'p', 'e', 'g'];
    let gif = ['g', 'i', 'f'];
    let webp = ['w', 'e', 'b', 'p'];
    let svg = ['s', 'v', 'g'];
    let bmp = ['b', 'm', 'p'];
    let ico = ['i', 'c', 'o'];
    let avif = ['a', 'v', 'i', 'f'];
    assert(png@ =~= seq!['p', 'n', 'g']);
    assert(jpg@ =~= seq!['j', 'p', 'g']);
    assert(jpeg@ =~= seq!['j', 'p', 'e', 'g']);
    assert(gif@ =~= seq!['g', 'i', 'f']);
    assert(webp@ =~= seq!['w', 'e', 'b', 'p']);
    assert(svg@ =~= seq!['s', 'v', 'g']);
    assert(bmp@ =~= seq!['b', 'm', 'p']);
    assert(ico@ =~= seq!['i', 'c', 'o']);
    assert(avif@ =~= seq!['a', 'v', 'i', 'f']);
    if is_word(ext, png.as_slice()) {
        Some(ImageFormat::Png)
    } else if is_word(ext, jpg.as_slice()) || is_word(ext, jpeg.as_slice()) {
        Some(ImageFormat::Jpeg)
    } else if is_word(ext, gif.as_slice()) {
        Some(ImageFormat::Gif)
    } else if is_word(ext, webp.as_slice()) {
        Some(ImageFormat::Webp)
    } else if is_word(ext, svg.as_slice()) {
        Some(ImageFormat::Svg)
    } else if is_word(ext, bmp.as_slice()) {
        Some(ImageFormat::Bmp)
    } else if is_word(ext, ico.as_slice()) {
        Some(ImageFormat::Icon)
    } else if is_word(ext, avif.as_slice()) {
        Some(ImageFormat::Avif)
    } else {
        None
    }
}

/// The format, by extension, of the image at `path` in the desktop preview.
pub fn image_mime_type(path: &str) -> (r: Option<ImageFormat>)
    ensures
        r == path_preview_format(path@),
{
    let p = chars_of(path);
    match extension_of(p.as_slice()) {
        Some(ext) => {
            let lower = to_ascii_lowercase(ext.as_slice());
            format_for_extension(lower.as_slice())
        },
        None => None,
    }
}

/// The format, by extension, of the image at `path` in a snapshot (PNG, JPEG or
/// SVG only).
pub fn snapshot_image_mime_type(path: &str) -> (r: Option<ImageFormat>)
    ensures
        r == path_snapshot_format(path@),
{
    match image_mime_type(path) {
        Some(ImageFormat::Png) => Some(ImageFormat::Png),
        Some(ImageFormat::Jpeg) => Some(ImageFormat::Jpeg),
        Some(ImageFormat::Svg) => Some(ImageFormat::Svg),
        _ => None,
    }
}

/// The big-endian 32-bit number in `b[i..i + 4]`.
pub open spec fn be32(b: Seq<u8>, i: int) -> int {
    b[i] * 16777216 + b[i + 1] * 65536 + b[i + 2] * 256 + b[i + 3]
}

/// The big-endian 16-bit number in `b[i..i + 2]`.
pub open spec fn be16(b: Seq<u8>, i: int) -> int {
    b[i] * 256 + b[i + 1]
}

/// The eight-byte PNG file signature.
pub open spec fn png_signature() -> Seq<u8> {
    seq![0x89u8, 0x50, 0x4e, 0x47, 0x0d, 0x0a, 0x1a, 0x0a]
}

/// `b` begins with the PNG signature followed by an `IHDR` chunk header.
pub open spec fn png_header_ok(b: Seq<u8>) -> bool {
    &&& b.len() >= 24
    &&& b.take(8) == png_signature()
    &&& b.subrange(12, 16) == seq![0x49u8, 0x48, 0x44, 0x52]
}

/// The width and height that a PNG's `IHDR` chunk states.
pub open spec fn png_size(b: Seq<u8>) -> Result<(u32, u32), Seq<char>> {
    if png_header_ok(b) {
        Ok((be32(b, 16) as u32, be32(b, 20) as u32))
    } else {
        Err("invalid PNG header"@)
    }
}

fn read_be32(b: &[u8], i: usize) -> (r: u32)
    requires
        i + 4 <= b@.len(),
    ensures
        r == be32(b@, i as int),
{
    (b[i] as u32) * 16777216 + (b[i + 1] as u32) * 65536 + (b[i + 2] as u32) * 256 + (
    b[i + 3] as u32)
}

/// The width and height in the header of a PNG file.
pub fn png_dimensions(bytes: &[u8]) -> (r: Result<(u32, u32), String>)
    ensures
        r matches Ok(d) ==> png_size(bytes@) == Ok::<(u32, u32), Seq<char>>(d),
        r matches Err(e) ==> png_size(bytes@) == Err::<(u32, u32), Seq<char>>(e@),
{
    let ok = bytes.len() >= 24 && bytes[0] == 0x89 && bytes[1] == 0x50 && bytes[2] == 0x4e
        && bytes[3] == 0x47 && bytes[4] == 0x0d && bytes[5] == 0x0a && bytes[6] == 0x1a
        && bytes[7] == 0x0a && bytes[12] == 0x49 && bytes[13] == 0x48 && bytes[14] == 0x44
        && bytes[15] == 0x52;
    if ok {
        assert(bytes@.take(8) =~= png_signature());
        assert(bytes@.subrange(12, 16) =~= seq![0x49u8, 0x48, 0x44, 0x52]);
    } else {
        proof {
            if bytes@.len() >= 24 && bytes@.take(8) == png_signature() {
                assert(bytes@.take(8)[0] == bytes@[0]);
                assert(bytes@.take(8)[1] == bytes@[1]);
                assert(bytes@.take(8)[2] == bytes@[2]);
                assert(bytes@.take(8)[3] == bytes@[3]);
                assert(bytes@.take(8)[4] == bytes@[4]);
                assert(bytes@.take(8)[5] == bytes@[5]);
                assert(bytes@.take(8)[6] == bytes@[6]);
                assert(bytes@.take(8)[7] == bytes@[7]);
                if bytes@.subrange(12, 16) == seq![0x49u8, 0x48, 0x44, 0x52] {
                    assert(bytes@.subrange(12, 16)[0] == bytes@[12]);
                    assert(bytes@.subrange(12, 16)[1] == bytes@[13]);
                    assert(bytes@.subrange(12, 16)[2] == bytes@[14]);
                    assert(bytes@.subrange(12, 16)[3] == bytes@[15]);
                }
            }
        }
    }
    if !ok {
        return Err("invalid PNG header".to_owned());
    }
    let width = read_be32(bytes, 16);
    let height = read_be32(bytes, 20);
    Ok((width, height))
}

/// A JPEG start-of-frame marker whose segment states the image size.
pub open spec fn is_frame_marker(m: u8) -> bool {
    ||| 0xc0 <= m <= 0xc3
    ||| 0xc5 <= m <= 0xc7
    ||| 0xc9 <= m <= 0xcb
    ||| 0xcd <= m <= 0xcf
}

/// The first position at or after `i` that does not hold a `0xFF` fill byte.
pub open spec fn skip_fill(b: Seq<u8>, i: int) -> int
    decreases b.len() - i,
{
    if 0 <= i < b.len() && b[i] == 0xff {
        skip_fill(b, i + 1)
    } else {
        i
    }
}

/// `skip_fill` moves forward and stays within the bytes.
pub proof fn lemma_skip_fill(b: Seq<u8>, i: int)
    requires
        0 <= i,
    ensures
        i <= skip_fill(b, i),
        i <= b.len() ==> skip_fill(b, i) <= b.len(),
    decreases b.len() - i,
{
    if 0 <= i < b.len() && b[i] == 0xff {
        lemma_skip_fill(b, i + 1);
    }
}

/// The size that a JPEG's first start-of-frame segment states, searching the
/// marker segments from position `i` on: fill bytes are skipped, standalone
/// markers (`0x01`, `RST0`..`RST7`) carry no segment, end of image or start of
/// scan ends the search, and every other marker is followed by a big-endian
/// segment length that counts itself.
pub open spec fn jpeg_scan(b: Seq<u8>, i: int) -> Result<(u32, u32), Seq<char>>
    decreases b.len() - i,
{
    if i < 0 || i >= b.len() {
        Err("JPEG has no supported frame header"@)
    } else {
        let j = skip_fill(b, i);
        if j >= b.len() {
            Err("JPEG has no supported frame header"@)
        } else {
            let marker = b[j];
            let k = j + 1;
            if marker == 0xd9 || marker == 0xda {
                Err("JPEG has no supported frame header"@)
            } else if marker == 0x01 || (0xd0 <= marker <= 0xd7) {
                proof {
                    lemma_skip_fill(b, i);
                }
                jpeg_scan(b, k)
            } else if k + 2 > b.len() {
                Err("truncated JPEG segment"@)
            } else {
                let length = be16(b, k);
                if length < 2 || k + length > b.len() {
                    Err("invalid JPEG segment length"@)
                } else if is_frame_marker(marker) {
                    if length < 7 {
                        Err("truncated JPEG frame header"@)
                    } else {
                        Ok((be16(b, k + 5) as u32, be16(b, k + 3) as u32))
                    }
                } else {
                    proof {
                        lemma_skip_fill(b, i);
                    }
                    jpeg_scan(b, k + length)
                }
            }
        }
    }
}

/// The width and height a JPEG file states: it must begin with the start-of-image
/// marker, and its first start-of-frame segment gives the size.
pub open spec fn jpeg_size(b: Seq<u8>) -> Result<(u32, u32), Seq<char>> {
    if b.len() < 2 || b[0] != 0xff || b[1] != 0xd8 {
        Err("invalid JPEG header"@)
    } else {
        jpeg_scan(b, 2)
    }
}

/// The width and height in the first start-of-frame segment of a JPEG file.
pub fn jpeg_dimensions(bytes: &[u8]) -> (r: Result<(u32, u32), String>)
    ensures
        r matches Ok(d) ==> jpeg_size(bytes@) == Ok::<(u32, u32), Seq<char>>(d),
        r matches Err(e) ==> jpeg_size(bytes@) == Err::<(u32, u32), Seq<char>>(e@),
{
    if bytes.len() < 2 || bytes[0] != 0xff || bytes[1] != 0xd8 {
        return Err("invalid JPEG header".to_owned());
    }
    let mut index: usize = 2;
    while index < bytes.len()
        invariant
            2 <= index,
            jpeg_size(bytes@) == jpeg_scan(bytes@, index as int),
            bytes@.len() == bytes.len(),
        decreases bytes@.len() - index,
    {
        let ghost start = index as int;
        proof {
            lemma_skip_fill(bytes@, start);
        }
        while index < bytes.len() && bytes[index] == 0xff
            invariant
                start <= index <= bytes@.len(),
                skip_fill(bytes@, start) == skip_fill(bytes@, index as int),
            decreases bytes@.len() - index,
        {
            index = index + 1;
        }
        if index >= bytes.len() {
            return Err("JPEG has no supported frame header".to_owned());
        }
        let marker = bytes[index];
        index = index + 1;
        if marker == 0xd9 || marker == 0xda {
            return Err("JPEG has no supported frame header".to_owned());
        }
        if marker == 0x01 || (0xd0 <= marker && marker <= 0xd7) {
            continue;
        }
        if bytes.len() - index < 2 {
            return Err("truncated JPEG segment".to_owned());
        }
        let length = (bytes[index] as usize) * 256 + (bytes[index + 1] as usize);
        if length < 2 || length > bytes.len() - index {
            return Err("invalid JPEG segment length".to_owned());
        }
        if (0xc0 <= marker && marker <= 0xc3) || (0xc5 <= marker && marker <= 0xc7) || (0xc9
            <= marker && marker <= 0xcb) || (0xcd <= marker && marker <= 0xcf) {
            if length < 7 {
                return Err("truncated JPEG frame header".to_owned());
            }
            let height = (bytes[index + 3] as u32) * 256 + (bytes[index + 4] as u32);
            let width = (bytes[index + 5] as u32) * 256 + (bytes[index + 6] as u32);
            return Ok((width, height));
        }
        index = index + length;
    }
    Err("JPEG has no supported frame header".to_owned())
}

/// What the size limits of a snapshot make of a raster image of the given size:
/// both sides positive, neither above `MAX_IMAGE_DIMENSION`, and the pixel count
/// at most `MAX_IMAGE_PIXELS`.
pub open spec fn raster_size_check(width: u32, height: u32) -> Result<(), Seq<char>> {
    if width == 0 || height == 0 {
        Err("image dimensions must be positive finite numbers"@)
    } else if width > MAX_IMAGE_DIMENSION || height > MAX_IMAGE_DIMENSION {
        Err("image dimensions exceed 8192 pixels"@)
    } else if width * height > MAX_IMAGE_PIXELS {
        Err("image exceeds the 33554432 pixel limit"@)
    } else {
        Ok(())
    }
}

/// Checks the size of a raster image against the snapshot limits.
pub fn validate_raster_size(width: u32, height: u32) -> (r: Result<(), String>)
    ensures
        r matches Ok(_) ==> raster_size_check(width, height) is Ok,
        r matches Err(e) ==> raster_size_check(width, height) == Err::<(), Seq<char>>(e@),
{
    if width == 0 || height == 0 {
        return Err("image dimensions must be positive finite numbers".to_owned());
    }
    if width > MAX_IMAGE_DIMENSION || height > MAX_IMAGE_DIMENSION {
        return Err("image dimensions exceed 8192 pixels".to_owned());
    }
    assert((width as u64) * (height as u64) <= 8192 * 8192) by (nonlinear_arith)
        requires
            width <= 8192,
            height <= 8192,
    ;
    if (width as u64) * (height as u64) > MAX_IMAGE_PIXELS {
        return Err("image exceeds the 33554432 pixel limit".to_owned());
    }
    Ok(())
}

/// The size of a JPEG is read from its first frame segment, whatever kind of
/// frame it is: when the file starts with the start-of-image marker followed by
/// a segment whose marker is any start-of-frame marker (baseline, extended,
/// progressive, lossless, hierarchical or arithmetic-coded: `0xC0`..`0xC3`,
/// `0xC5`..`0xC7`, `0xC9`..`0xCB`, `0xCD`..`0xCF`) and whose length is at least
/// 7 and fits, the size is the width in bytes 5..7 and the height in bytes 3..5
/// of that segment.
pub proof fn lemma_jpeg_frame_size(b: Seq<u8>)
    requires
        b.len() >= 11,
        b[0] == 0xff,
        b[1] == 0xd8,
        b[2] == 0xff,
        (0xc0 <= b[3] <= 0xc3) || (0xc5 <= b[3] <= 0xc7) || (0xc9 <= b[3] <= 0xcb) || (0xcd
            <= b[3] <= 0xcf),
        7 <= b[4] as int * 256 + b[5] as int,
        4 + b[4] as int * 256 + b[5] as int <= b.len(),
    ensures
        jpeg_size(b) == Ok::<(u32, u32), Seq<char>>(
            (
                (b[9] as int * 256 + b[10] as int) as u32,
                (b[7] as int * 256 + b[8] as int) as u32,
            ),
        ),
{
    assert(skip_fill(b, 3) == 3);
    assert(skip_fill(b, 2) == 3);
}

/// A segment that is not a frame (tables, application data, comments) is
/// passed over: after the start-of-image marker, a segment with such a marker
/// and a valid length leaves the search to go on right after it.
pub proof fn lemma_jpeg_skips_other_segments(b: Seq<u8>)
    requires
        b.len() >= 6,
        b[0] == 0xff,
        b[1] == 0xd8,
        b[2] == 0xff,
        b[3] == 0xc4 || b[3] == 0xc8 || b[3] == 0xcc || b[3] == 0xdb || b[3] == 0xdd || b[3]
            == 0xfe || (0xe0 <= b[3] <= 0xef),
        2 <= b[4] as int * 256 + b[5] as int,
        4 + b[4] as int * 256 + b[5] as int <= b.len(),
    ensures
        jpeg_size(b) == jpeg_scan(b, 4 + b[4] as int * 256 + b[5] as int),
{
    assert(skip_fill(b, 3) == 3);
    assert(skip_fill(b, 2) == 3);
}

/// The extension text `e` in ASCII lower case is `w`.
pub open spec fn extension_is(e: Seq<char>, w: Seq<char>) -> bool {
    ascii_lowercase(e) == w
}

/// Both `jpg` and `jpeg` name JPEG, in any ASCII case, in the preview and in
/// snapshots: for a path with extension `e`, the format is JPEG exactly when `e`
/// is one of these; PNG exactly for `png` and SVG exactly for `svg`; a snapshot
/// takes exactly these three formats, and names them as the preview does.
pub proof fn lemma_extension_formats(p: Seq<char>, e: Seq<char>)
    requires
        path_extension(p) == Some(e),
    ensures
        (path_preview_format(p) == Some(ImageFormat::Jpeg)) <==> (extension_is(
            e,
            seq!['j', 'p', 'g'],
        ) || extension_is(e, seq!['j', 'p', 'e', 'g'])),
        (path_snapshot_format(p) == Some(ImageFormat::Jpeg)) <==> (extension_is(
            e,
            seq!['j', 'p', 'g'],
        ) || extension_is(e, seq!['j', 'p', 'e', 'g'])),
        (path_preview_format(p) == Some(ImageFormat::Png)) <==> extension_is(
            e,
            seq!['p', 'n', 'g'],
        ),
        (path_preview_format(p) == Some(ImageFormat::Svg)) <==> extension_is(
            e,
            seq!['s', 'v', 'g'],
        ),
        (path_snapshot_format(p) is Some) <==> (extension_is(e, seq!['p', 'n', 'g'])
            || extension_is(e, seq!['j', 'p', 'g']) || extension_is(e, seq!['j', 'p', 'e', 'g'])
            || extension_is(e, seq!['s', 'v', 'g'])),
        path_snapshot_format(p) is Some ==> path_snapshot_format(p) == path_preview_format(p),
{
    let l = ascii_lowercase(e);
    let png = seq!['p', 'n', 'g'];
    let jpg = seq!['j', 'p', 'g'];
    let jpeg = seq!['j', 'p', 'e', 'g'];
    let svg = seq!['s', 'v', 'g'];
    if l == png {
        assert(l[0] == 'p');
    }
    if l == jpg {
        assert(l[0] == 'j' && l.len() == 3);
    }
    if l == jpeg {
        assert(l[0] == 'j' && l.len() == 4);
    }
    if l == svg {
        assert(l[0] == 's' && l.len() == 3);
    }
}

} // verus!
