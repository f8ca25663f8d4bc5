//! Byte and character encodings: hexadecimal digits, percent-decoding of URL
//! path segments, Base64 and JavaScript string-literal escaping.
use vstd::prelude::*;
use vstd::utf8::*;
use crate::text::{chars_of, string_from_chars};

verus! {

/// The value of an ASCII hexadecimal digit (either case).
pub open spec fn hex_digit(byte: u8) -> Option<u8> {
    if 48 <= byte <= 57 {
        Some((byte - 48) as u8)
    } else if 97 <= byte <= 102 {
        Some((byte - 97 + 10) as u8)
    } else if 65 <= byte <= 70 {
        Some((byte - 65 + 10) as u8)
    } else {
        None
    }
}

/// The value of the hexadecimal digit `byte`, if it is one.
pub fn hex_value(byte: u8) -> (r: Option<u8>)
    ensures
        r == hex_digit(byte),
        r matches Some(v) ==> v < 16,
{
    if 48u8 <= byte && byte <= 57u8 {
        Some(byte - 48u8)
    } else if 97u8 <= byte && byte <= 102u8 {
        Some(byte - 97u8 + 10)
    } else if 65u8 <= byte && byte <= 70u8 {
        Some(byte - 65u8 + 10)
    } else {
        None
    }
}

/// The bytes that `bytes` denotes once every `%XY` escape (two hexadecimal
/// digits) is replaced by the byte `0xXY`; `None` when a `%` is not followed by
/// two hexadecimal digits.
pub open spec fn percent_decode_bytes(bytes: Seq<u8>) -> Option<Seq<u8>>
    decreases bytes.len(),
{
    if bytes.len() == 0 {
        Some(Seq::empty())
    } else if bytes[0] == 37 {
        if bytes.len() >= 3 && hex_digit(bytes[1]) is Some && hex_digit(bytes[2]) is Some {
            let byte = (hex_digit(bytes[1]).unwrap() * 16 + hex_digit(bytes[2]).unwrap()) as u8;
            match percent_decode_bytes(bytes.skip(3)) {
                Some(rest) => Some(seq![byte] + rest),
                None => None,
            }
        } else {
            None
        }
    } else {
        match percent_decode_bytes(bytes.skip(1)) {
            Some(rest) => Some(seq![bytes[0]] + rest),
            None => None,
        }
    }
}

/// The text a percent-encoded path segment denotes: its UTF-8 bytes decoded as
/// `percent_decode_bytes` says, then read as UTF-8; `None` when either step fails.
pub open spec fn percent_decode_text(segment: Seq<char>) -> Option<Seq<char>> {
    match percent_decode_bytes(encode_utf8(segment)) {
        Some(bytes) => if valid_utf8(bytes) {
            Some(decode_utf8(bytes))
        } else {
            None
        },
        None => None,
    }
}

/// A byte vector read as UTF-8 text (`String::from_utf8`); `None` when the bytes
/// are not valid UTF-8.
#[verifier::external_body]
pub(crate) fn string_from_utf8(bytes: Vec<u8>) -> (r: Option<String>)
    ensures
        r is Some <==> valid_utf8(bytes@),
        r matches Some(s) ==> s@ == decode_utf8(bytes@),
{
    String::from_utf8(bytes).ok()
}

/// Percent-decodes the bytes of `bytes`.
pub fn percent_decode(bytes: &[u8]) -> (r: Option<Vec<u8>>)
    ensures
        r matches Some(v) ==> percent_decode_bytes(bytes@) == Some(v@),
        r is None ==> percent_decode_bytes(bytes@) is None,
{
    let mut output: Vec<u8> = Vec::new();
    let mut index: usize = 0;
    assert(bytes@.skip(0) =~= bytes@);
    while index < bytes.len()
        invariant
            index <= bytes@.len(),
            percent_decode_bytes(bytes@) == (match percent_decode_bytes(bytes@.skip(index as int)) {
                Some(rest) => Some(output@ + rest),
                None => None,
            }),
        decreases bytes@.len() - index,
    {
        let ghost rest = bytes@.skip(index as int);
        if bytes[index] == 37u8 {
            if bytes.len() - index <= 2 {
                return None;
            }
            let high = match hex_value(bytes[index + 1]) {
                Some(v) => v,
                None => {
                    return None;
                },
            };
            let low = match hex_value(bytes[index + 2]) {
                Some(v) => v,
                None => {
                    return None;
                },
            };
            let byte = high * 16 + low;
            assert(rest.skip(3) =~= bytes@.skip(index + 3));
            proof {
                let ghost old_out = output@;
                assert(old_out + (seq![byte] + Seq::<u8>::empty()) =~= old_out.push(byte));
                if let Some(r) = percent_decode_bytes(bytes@.skip(index + 3)) {
                    assert(old_out + (seq![byte] + r) =~= old_out.push(byte) + r);
                }
            }
            output.push(byte);
            index = index + 3;
        } else {
            let byte = bytes[index];
            assert(rest.skip(1) =~= bytes@.skip(index + 1));
            proof {
                let ghost old_out = output@;
                if let Some(r) = percent_decode_bytes(bytes@.skip(index + 1)) {
                    assert(old_out + (seq![byte] + r) =~= old_out.push(byte) + r);
                }
            }
            output.push(byte);
            index = index + 1;
        }
    }
    assert(bytes@.skip(index as int) =~= Seq::<u8>::empty());
    assert(output@ + Seq::<u8>::empty() =~= output@);
    Some(output)
}

/// Decodes one percent-encoded URL path segment to text.
pub fn percent_decode_path_segment(segment: &str) -> (r: Option<String>)
    ensures
        r matches Some(s) ==> percent_decode_text(segment@) == Some(s@),
        r is None ==> percent_decode_text(segment@) is None,
{
    let bytes = segment.as_bytes();
    match percent_decode(bytes) {
        Some(decoded) => string_from_utf8(decoded),
        None => None,
    }
}

/// The Base64 alphabet of RFC 4648 (standard, not URL-safe).
pub open spec fn base64_digit(v: int) -> char {
    if v < 26 {
        (65 + v) as char
    } else if v < 52 {
        (97 + v - 26) as char
    } else if v < 62 {
        (48 + v - 52) as char
    } else if v == 62 {
        '+'
    } else {
        '/'
    }
}

/// The standard padded Base64 encoding of `bytes` (RFC 4648, section 4).
pub open spec fn base64(bytes: Seq<u8>) -> Seq<char>
    decreases bytes.len(),
{
    if bytes.len() == 0 {
        Seq::empty()
    } else if bytes.len() == 1 {
        let b0 = bytes[0] as int;
        seq![base64_digit(b0 / 4), base64_digit((b0 % 4) * 16), '=', '=']
    } else if bytes.len() == 2 {
        let b0 = bytes[0] as int;
        let b1 = bytes[1] as int;
        seq![
            base64_digit(b0 / 4),
            base64_digit((b0 % 4) * 16 + b1 / 16),
            base64_digit((b1 % 16) * 4),
            '=',
        ]
    } else {
        let b0 = bytes[0] as int;
        let b1 = bytes[1] as int;
        let b2 = bytes[2] as int;
        seq![
            base64_digit(b0 / 4),
            base64_digit((b0 % 4) * 16 + b1 / 16),
            base64_digit((b1 % 16) * 4 + b2 / 64),
            base64_digit(b2 % 64),
        ] + base64(bytes.skip(3))
    }
}

fn base64_char(v: u8) -> (c: char)
    requires
        v < 64,
    ensures
        c == base64_digit(v as int),
{
    if v < 26 {
        (65u8 + v) as char
    } else if v < 52 {
        (97u8 + (v - 26)) as char
    } else if v < 62 {
        (48u8 + (v - 52)) as char
    } else if v == 62 {
        '+'
    } else {
        '/'
    }
}

/// The characters of the Base64 encoding of `bytes`.
pub fn base64_chars(bytes: &[u8]) -> (out: Vec<char>)
    ensures
        out@ == base64(bytes@),
{
    let mut out: Vec<char> = Vec::new();
    let mut i: usize = 0;
    assert(bytes@.skip(0) =~= bytes@);
    while bytes.len() - i >= 3
        invariant
            i <= bytes@.len(),
            base64(bytes@) == out@ + base64(bytes@.skip(i as int)),
        decreases bytes@.len() - i,
    {
        let ghost rest = bytes@.skip(i as int);
        let b0 = bytes[i];
        let b1 = bytes[i + 1];
        let b2 = bytes[i + 2];
        let ghost old_out = out@;
        out.push(base64_char(b0 / 4));
        out.push(base64_char((b0 % 4) * 16 + b1 / 16));
        out.push(base64_char((b1 % 16) * 4 + b2 / 64));
        out.push(base64_char(b2 % 64));
        assert(rest.skip(3) =~= bytes@.skip(i + 3));
        assert(rest[0] == b0 && rest[1] == b1 && rest[2] == b2);
        assert(out@ =~= old_out + seq![
            base64_digit(b0 as int / 4),
            base64_digit((b0 as int % 4) * 16 + b1 as int / 16),
            base64_digit((b1 as int % 16) * 4 + b2 as int / 64),
            base64_digit(b2 as int % 64),
        ]);
        assert(out@ + base64(bytes@.skip(i + 3)) =~= old_out + base64(rest));
        i = i + 3;
    }
    let ghost rest = bytes@.skip(i as int);
    let ghost old_out = out@;
    if bytes.len() - i == 1 {
        let b0 = bytes[i];
        out.push(base64_char(b0 / 4));
        out.push(base64_char((b0 % 4) * 16));
        out.push('=');
        out.push('=');
        assert(rest[0] == b0);
        assert(out@ =~= old_out + base64(rest));
    } else if bytes.len() - i == 2 {
        let b0 = bytes[i];
        let b1 = bytes[i + 1];
        out.push(base64_char(b0 / 4));
        out.push(base64_char((b0 % 4) * 16 + b1 / 16));
        out.push(base64_char((b1 % 16) * 4));
        out.push('=');
        assert(rest[0] == b0 && rest[1] == b1);
        assert(out@ =~= old_out + base64(rest));
    } else {
        assert(out@ =~= old_out + base64(rest));
    }
    out
}

/// The standard padded Base64 encoding of `bytes`.
pub fn base64_encode(bytes: &[u8]) -> (r: String)
    ensures
        r@ == base64(bytes@),
{
    let chars = base64_chars(bytes);
    string_from_chars(chars.as_slice())
}

/// Every four characters of Base64 output stand for three input bytes.
pub proof fn lemma_base64_len(bytes: Seq<u8>)
    ensures
        base64(bytes).len() == 4 * ((bytes.len() + 2) / 3),
    decreases bytes.len(),
{
    if bytes.len() >= 3 {
        lemma_base64_len(bytes.skip(3));
    }
}

/// How `escape_js` rewrites one character.
pub open spec fn js_escape_char(c: char) -> Seq<char> {
    if c == '\\' {
        seq!['\\', '\\']
    } else if c == '\'' {
        seq!['\\', '\'']
    } else if c == '\n' {
        seq!['\\', 'n']
    } else if c == '\r' {
        seq!['\\', 'r']
    } else {
        seq![c]
    }
}

/// `s` written so that it can stand between single quotes in JavaScript source:
/// backslash, single quote, line feed and carriage return are escaped.
pub open spec fn js_escape(s: Seq<char>) -> Seq<char>
    decreases s.len(),
{
    if s.len() == 0 {
        Seq::empty()
    } else {
        js_escape_char(s[0]) + js_escape(s.drop_first())
    }
}

/// Reads back a text written by `js_escape`.
pub open spec fn js_unescape(t: Seq<char>) -> Seq<char>
    decreases t.len(),
{
    if t.len() >= 2 && t[0] == '\\' {
        let c = if t[1] == 'n' {
            '\n'
        } else if t[1] == 'r' {
            '\r'
        } else {
            t[1]
        };
        seq![c] + js_unescape(t.skip(2))
    } else if t.len() >= 1 {
        seq![t[0]] + js_unescape(t.skip(1))
    } else {
        Seq::empty()
    }
}

/// Escapes `text` for a single-quoted JavaScript string literal.
pub fn escape_js(text: &str) -> (r: String)
    ensures
        r@ == js_escape(text@),
{
    let s = chars_of(text);
    let mut out: Vec<char> = Vec::new();
    let mut i: usize = 0;
    assert(s@.skip(0) =~= s@);
    assert(out@ + js_escape(s@.skip(0)) =~= js_escape(s@));
    while i < s.len()
        invariant
            i <= s@.len(),
            js_escape(s@) == out@ + js_escape(s@.skip(i as int)),
        decreases s@.len() - i,
    {
        let c = s[i];
        let ghost old_out = out@;
        if c == '\\' {
            out.push('\\');
            out.push('\\');
        } else if c == '\'' {
            out.push('\\');
            out.push('\'');
        } else if c == '\n' {
            out.push('\\');
            out.push('n');
        } else if c == '\r' {
            out.push('\\');
            out.push('r');
        } else {
            out.push(c);
        }
        assert(s@.skip(i as int).drop_first() =~= s@.skip(i + 1));
        assert(out@ =~= old_out + js_escape_char(c));
        assert(out@ + js_escape(s@.skip(i + 1)) =~= old_out + js_escape(s@.skip(i as int)));
        i = i + 1;
    }
    assert(s@.skip(i as int) =~= Seq::<char>::empty());
    assert(out@ + Seq::<char>::empty() =~= out@);
    string_from_chars(out.as_slice())
}

/// Escaping for a JavaScript string literal loses nothing: the escaped text reads
/// back as the original.
pub proof fn lemma_js_escape_roundtrip(s: Seq<char>)
    ensures
        js_unescape(js_escape(s)) == s,
    decreases s.len(),
{
    if s.len() > 0 {
        let head = js_escape_char(s[0]);
        let tail = js_escape(s.drop_first());
        lemma_js_escape_roundtrip(s.drop_first());
        let t = head + tail;
        if head.len() == 2 {
            assert(t.skip(2) =~= tail);
        } else {
            assert(t.skip(1) =~= tail);
        }
        assert(js_unescape(t) =~= s);
    } else {
        assert(js_escape(s) =~= Seq::<char>::empty());
        assert(s =~= Seq::<char>::empty());
    }
}

/// A character of the Base64 alphabet: `A`-`Z`, `a`-`z`, `0`-`9`, `+`, `/`.
pub open spec fn is_base64_char(c: char) -> bool {
    ('A' <= c && c <= 'Z') || ('a' <= c && c <= 'z') || ('0' <= c && c <= '9') || c == '+' || c
        == '/'
}

/// The value of a Base64 character.
pub open spec fn base64_value(c: char) -> int {
    if 'A' <= c && c <= 'Z' {
        c as int - 65
    } else if 'a' <= c && c <= 'z' {
        c as int - 97 + 26
    } else if '0' <= c && c <= '9' {
        c as int - 48 + 52
    } else if c == '+' {
        62
    } else {
        63
    }
}

/// Decoding of standard padded Base64 text (RFC 4648, section 4), four
/// characters at a time; `=` in the third or fourth place ends a group early.
pub open spec fn base64_decode(t: Seq<char>) -> Seq<u8>
    decreases t.len(),
{
    if t.len() < 4 {
        Seq::empty()
    } else {
        let v0 = base64_value(t[0]);
        let v1 = base64_value(t[1]);
        let v2 = base64_value(t[2]);
        let v3 = base64_value(t[3]);
        let b0 = (v0 * 4 + v1 / 16) as u8;
        let b1 = ((v1 % 16) * 16 + v2 / 4) as u8;
        let b2 = ((v2 % 4) * 64 + v3) as u8;
        let group = if t[2] == '=' {
            seq![b0]
        } else if t[3] == '=' {
            seq![b0, b1]
        } else {
            seq![b0, b1, b2]
        };
        group + base64_decode(t.skip(4))
    }
}

/// The number of `=` that pad the Base64 text of `n` bytes.
pub open spec fn base64_padding(n: nat) -> nat {
    ((3 - n % 3) % 3) as nat
}

proof fn lemma_base64_digit(v: int)
    requires
        0 <= v < 64,
    ensures
        is_base64_char(base64_digit(v)),
        base64_value(base64_digit(v)) == v,
        base64_digit(v) != '=',
{
}

/// Base64 text is made of the alphabet, followed by the padding: the last
/// `base64_padding(n)` characters are `=` and all others are alphabet
/// characters.
pub proof fn lemma_base64_alphabet(bytes: Seq<u8>)
    ensures
        forall|i: int|
            0 <= i < base64(bytes).len() - base64_padding(bytes.len()) ==> is_base64_char(
                #[trigger] base64(bytes)[i],
            ),
        forall|i: int|
            base64(bytes).len() - base64_padding(bytes.len()) <= i < base64(bytes).len()
                ==> #[trigger] base64(bytes)[i] == '=',
    decreases bytes.len(),
{
    lemma_base64_len(bytes);
    let t = base64(bytes);
    if bytes.len() == 1 {
        let b0 = bytes[0] as int;
        lemma_base64_digit(b0 / 4);
        lemma_base64_digit((b0 % 4) * 16);
    } else if bytes.len() == 2 {
        let b0 = bytes[0] as int;
        let b1 = bytes[1] as int;
        lemma_base64_digit(b0 / 4);
        lemma_base64_digit((b0 % 4) * 16 + b1 / 16);
        lemma_base64_digit((b1 % 16) * 4);
    } else if bytes.len() >= 3 {
        let b0 = bytes[0] as int;
        let b1 = bytes[1] as int;
        let b2 = bytes[2] as int;
        lemma_base64_digit(b0 / 4);
        lemma_base64_digit((b0 % 4) * 16 + b1 / 16);
        lemma_base64_digit((b1 % 16) * 4 + b2 / 64);
        lemma_base64_digit(b2 % 64);
        let rest = bytes.skip(3);
        lemma_base64_alphabet(rest);
        lemma_base64_len(rest);
        assert(base64_padding(rest.len()) == base64_padding(bytes.len()));
        let head = seq![
            base64_digit(b0 / 4),
            base64_digit((b0 % 4) * 16 + b1 / 16),
            base64_digit((b1 % 16) * 4 + b2 / 64),
            base64_digit(b2 % 64),
        ];
        assert(t == head + base64(rest));
        assert forall|i: int| 4 <= i < t.len() implies t[i] == base64(rest)[i - 4] by {}
    }
}

/// Decoding the Base64 text of bytes gives the bytes back.
pub proof fn lemma_base64_roundtrip(bytes: Seq<u8>)
    ensures
        base64_decode(base64(bytes)) == bytes,
    decreases bytes.len(),
{
    let t = base64(bytes);
    if bytes.len() == 0 {
        assert(base64_decode(t) =~= bytes);
    } else if bytes.len() == 1 {
        let b0 = bytes[0] as int;
        lemma_base64_digit(b0 / 4);
        lemma_base64_digit((b0 % 4) * 16);
        assert((b0 / 4) * 4 + ((b0 % 4) * 16) / 16 == b0) by (nonlinear_arith)
            requires
                0 <= b0 < 256,
        ;
        assert(t.skip(4) =~= Seq::<char>::empty());
        assert(t[2] == '=');
        assert(base64_value(t[0]) == b0 / 4 && base64_value(t[1]) == (b0 % 4) * 16);
        assert(base64_decode(t.skip(4)) =~= Seq::<u8>::empty());
        assert(base64_decode(t) =~= seq![(b0 as int) as u8]);
        assert(base64_decode(t) =~= bytes);
    } else if bytes.len() == 2 {
        let b0 = bytes[0] as int;
        let b1 = bytes[1] as int;
        let v1 = (b0 % 4) * 16 + b1 / 16;
        let v2 = (b1 % 16) * 4;
        lemma_base64_digit(b0 / 4);
        lemma_base64_digit(v1);
        lemma_base64_digit(v2);
        assert((b0 / 4) * 4 + v1 / 16 == b0 && (v1 % 16) * 16 + v2 / 4 == b1) by (
        nonlinear_arith)
            requires
                0 <= b0 < 256,
                0 <= b1 < 256,
                v1 == (b0 % 4) * 16 + b1 / 16,
                v2 == (b1 % 16) * 4,
        ;
        assert(t.skip(4) =~= Seq::<char>::empty());
        assert(t[2] != '=' && t[3] == '=');
        assert(base64_value(t[0]) == b0 / 4 && base64_value(t[1]) == v1 && base64_value(t[2])
            == v2);
        assert(base64_decode(t.skip(4)) =~= Seq::<u8>::empty());
        assert(base64_decode(t) =~= seq![(b0 as int) as u8, (b1 as int) as u8]);
        assert(base64_decode(t) =~= bytes);
    } else {
        let b0 = bytes[0] as int;
        let b1 = bytes[1] as int;
        let b2 = bytes[2] as int;
        let v1 = (b0 % 4) * 16 + b1 / 16;
        let v2 = (b1 % 16) * 4 + b2 / 64;
        let v3 = b2 % 64;
        lemma_base64_digit(b0 / 4);
        lemma_base64_digit(v1);
        lemma_base64_digit(v2);
        lemma_base64_digit(v3);
        assert((b0 / 4) * 4 + v1 / 16 == b0 && (v1 % 16) * 16 + v2 / 4 == b1 && (v2 % 4) * 64
            + v3 == b2) by (nonlinear_arith)
            requires
                0 <= b0 < 256,
                0 <= b1 < 256,
                0 <= b2 < 256,
                v1 == (b0 % 4) * 16 + b1 / 16,
                v2 == (b1 % 16) * 4 + b2 / 64,
                v3 == b2 % 64,
        ;
        let rest = bytes.skip(3);
        lemma_base64_roundtrip(rest);
        assert(t.skip(4) =~= base64(rest));
        assert(base64_decode(t) =~= seq![bytes[0], bytes[1], bytes[2]] + rest);
        assert(seq![bytes[0], bytes[1], bytes[2]] + rest =~= bytes);
    }
}

} // verus!
