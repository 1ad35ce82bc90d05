//! Standard base64 (RFC 4648, padded) and the PNG data URLs built from it.
use vstd::prelude::*;
use crate::text::push_char;

verus! {

/// The character of a six-bit value in the standard base64 alphabet.
pub open spec fn b64_char(v: int) -> char {
    if v < 26 {
        ('A' as int + v) as char
    } else if v < 52 {
        ('a' as int + (v - 26)) as char
    } else if v < 62 {
        ('0' as int + (v - 52)) as char
    } else if v == 62 {
        '+'
    } else {
        '/'
    }
}

/// The six-bit value of a base64 character.
pub open spec fn b64_value(c: char) -> int {
    if 'A' <= c <= 'Z' {
        c as int - 'A' as int
    } else if 'a' <= c <= 'z' {
        c as int - 'a' as int + 26
    } else if '0' <= c <= '9' {
        c as int - '0' as int + 52
    } else if c == '+' {
        62
    } else {
        63
    }
}

/// Four characters for three bytes.
pub open spec fn encode_triple(x: u8, y: u8, z: u8) -> Seq<char> {
    let (a, b, c) = (x as int, y as int, z as int);
    seq![
        b64_char(a / 4),
        b64_char((a % 4) * 16 + b / 16),
        b64_char((b % 16) * 4 + c / 64),
        b64_char(c % 64),
    ]
}

/// Standard padded base64 of a byte sequence.
pub open spec fn encode_spec(bytes: Seq<u8>) -> Seq<char>
    decreases bytes.len(),
{
    if bytes.len() >= 3 {
        encode_triple(bytes[0], bytes[1], bytes[2]) + encode_spec(bytes.skip(3))
    } else if bytes.len() == 2 {
        let (a, b) = (bytes[0] as int, bytes[1] as int);
        seq![b64_char(a / 4), b64_char((a % 4) * 16 + b / 16), b64_char((b % 16) * 4), '=']
    } else if bytes.len() == 1 {
        let a = bytes[0] as int;
        seq![b64_char(a / 4), b64_char((a % 4) * 16), '=', '=']
    } else {
        Seq::empty()
    }
}

/// Decoding of padded base64 text as `encode_spec` produces it.
pub open spec fn decode_spec(text: Seq<char>) -> Seq<u8>
    decreases text.len(),
{
    if text.len() < 4 {
        Seq::empty()
    } else {
        let x0 = b64_value(text[0]);
        let x1 = b64_value(text[1]);
        let x2 = b64_value(text[2]);
        let x3 = b64_value(text[3]);
        if text[2] == '=' {
            seq![(x0 * 4 + x1 / 16) as u8]
        } else if text[3] == '=' {
            seq![(x0 * 4 + x1 / 16) as u8, ((x1 % 16) * 16 + x2 / 4) as u8]
        } else {
            seq![(x0 * 4 + x1 / 16) as u8, ((x1 % 16) * 16 + x2 / 4) as u8, ((x2 % 4) * 64 + x3) as u8]
                + decode_spec(text.skip(4))
        }
    }
}

proof fn lemma_char_value(v: int)
    requires
        0 <= v < 64,
    ensures
        b64_value(b64_char(v)) == v,
        b64_char(v) != '=',
{
}

proof fn lemma_byte_arith(a: int, b: int, c: int)
    requires
        0 <= a < 256,
        0 <= b < 256,
        0 <= c < 256,
    ensures
        (a / 4) * 4 + ((a % 4) * 16 + b / 16) / 16 == a,
        (((a % 4) * 16 + b / 16) % 16) * 16 + ((b % 16) * 4 + c / 64) / 4 == b,
        (((b % 16) * 4 + c / 64) % 4) * 64 + c % 64 == c,
        (a % 4) * 16 + b / 16 < 64,
        (b % 16) * 4 + c / 64 < 64,
{
}

/// Decoding what was encoded gives the bytes back.
pub proof fn lemma_base64_round_trip(bytes: Seq<u8>)
    ensures
        decode_spec(encode_spec(bytes)) == bytes,
    decreases bytes.len(),
{
    if bytes.len() >= 3 {
        let (a, b, c) = (bytes[0] as int, bytes[1] as int, bytes[2] as int);
        lemma_byte_arith(a, b, c);
        lemma_char_value(a / 4);
        lemma_char_value((a % 4) * 16 + b / 16);
        lemma_char_value((b % 16) * 4 + c / 64);
        lemma_char_value(c % 64);
        lemma_base64_round_trip(bytes.skip(3));
        let e = encode_spec(bytes);
        assert(e.skip(4) == encode_spec(bytes.skip(3)));
        assert(bytes =~= seq![bytes[0], bytes[1], bytes[2]] + bytes.skip(3));
    } else if bytes.len() == 2 {
        let (a, b) = (bytes[0] as int, bytes[1] as int);
        lemma_byte_arith(a, b, 0);
        lemma_char_value(a / 4);
        lemma_char_value((a % 4) * 16 + b / 16);
        lemma_char_value((b % 16) * 4);
        assert(bytes =~= seq![bytes[0], bytes[1]]);
    } else if bytes.len() == 1 {
        let a = bytes[0] as int;
        lemma_byte_arith(a, 0, 0);
        lemma_char_value(a / 4);
        lemma_char_value((a % 4) * 16);
        assert(bytes =~= seq![bytes[0]]);
    } else {
        assert(bytes =~= Seq::empty());
    }
}

/// Encoded length: four characters for every started group of three bytes.
pub proof fn lemma_base64_length(bytes: Seq<u8>)
    ensures
        encode_spec(bytes).len() == (bytes.len() + 2) / 3 * 4,
    decreases bytes.len(),
{
    if bytes.len() >= 3 {
        lemma_base64_length(bytes.skip(3));
    }
}

fn b64_char_exec(v: u8) -> (c: char)
    requires
        v < 64,
    ensures
        c == b64_char(v as int),
{
    if v < 26 {
        (65u8 + v) as char
    } else if v < 52 {
        (97u8 + (v - 26)) as char
    } else if v < 62 {
        (48u8 + (v - 52)) as char
    } else if v == 62 {
        '+'
    } else {
        '/'
    }
}

/// Standard padded base64.
pub fn encode_base64(input: &[u8]) -> (r: String)
    ensures
        r@ == encode_spec(input@),
{
    let mut output = String::new();
    let n = input.len();
    let mut i: usize = 0;
    assert(input@.skip(0) == input@);
    while n - i >= 3
        invariant
            0 <= i <= n,
            n == input@.len(),
            output@ + encode_spec(input@.skip(i as int)) == encode_spec(input@),
        decreases n - i,
    {
        let a = input[i];
        let b = input[i + 1];
        let c = input[i + 2];
        let value: u32 = ((a as u32) << 16) | ((b as u32) << 8) | (c as u32);
        let s0 = ((value >> 18) & 0x3f) as u8;
        let s1 = ((value >> 12) & 0x3f) as u8;
        let s2 = ((value >> 6) & 0x3f) as u8;
        let s3 = (value & 0x3f) as u8;
        assert(s0 == a / 4 && s1 == (a % 4) * 16 + b / 16 && s2 == (b % 16) * 4 + c / 64 && s3
            == c % 64) by (bit_vector)
            requires
                value == ((a as u32) << 16) | ((b as u32) << 8) | (c as u32),
                s0 == ((value >> 18) & 0x3f) as u8,
                s1 == ((value >> 12) & 0x3f) as u8,
                s2 == ((value >> 6) & 0x3f) as u8,
                s3 == (value & 0x3f) as u8,
        ;
        let ghost before = output@;
        push_char(&mut output, b64_char_exec(s0));
        push_char(&mut output, b64_char_exec(s1));
        push_char(&mut output, b64_char_exec(s2));
        push_char(&mut output, b64_char_exec(s3));
        let ghost rest = input@.skip(i as int);
        assert(rest[0] == a && rest[1] == b && rest[2] == c);
        assert(rest.skip(3) == input@.skip(i + 3));
        assert(output@ == before + encode_triple(a, b, c));
        i = i + 3;
    }
    let ghost rest = input@.skip(i as int);
    if n - i == 1 {
        let a = input[i];
        assert(rest[0] == a);
        push_char(&mut output, b64_char_exec(a / 4));
        push_char(&mut output, b64_char_exec((a % 4) * 16));
        push_char(&mut output, '=');
        push_char(&mut output, '=');
    } else if n - i == 2 {
        let a = input[i];
        let b = input[i + 1];
        assert(rest[0] == a && rest[1] == b);
        push_char(&mut output, b64_char_exec(a / 4));
        push_char(&mut output, b64_char_exec((a % 4) * 16 + b / 16));
        push_char(&mut output, b64_char_exec((b % 16) * 4));
        push_char(&mut output, '=');
    }
    output
}

/// The first bytes of every PNG file.
pub open spec fn png_signature() -> Seq<u8> {
    seq![0x89u8, 0x50, 0x4e, 0x47, 0x0d, 0x0a, 0x1a, 0x0a]
}

pub const MAX_ICON_DATA_URL_BYTES: usize = 262144;

/// The data-URL prefix of a PNG image.
pub open spec fn png_prefix() -> Seq<char> {
    "data:image/png;base64,"@
}

/// A PNG data URL for the bytes: only for PNG content, and only when the URL
/// fits the icon size limit.
pub open spec fn png_data_url_spec(png: Seq<u8>) -> Option<Seq<char>> {
    if png.len() < 8 || png.take(8) != png_signature() || 22 + (png.len() + 2) / 3 * 4
        > MAX_ICON_DATA_URL_BYTES {
        None
    } else {
        Some(png_prefix() + encode_spec(png))
    }
}

/// Wraps PNG bytes as a `data:image/png;base64,` URL within the icon limit.
pub fn png_data_url(png: &[u8]) -> (r: Option<String>)
    ensures
        r matches Some(url) ==> png_data_url_spec(png@) == Some(url@),
        r is None ==> png_data_url_spec(png@) is None,
{
    let n = png.len();
    let signature: [u8; 8] = [0x89, 0x50, 0x4e, 0x47, 0x0d, 0x0a, 0x1a, 0x0a];
    if n < 8 {
        return None;
    }
    let mut k: usize = 0;
    while k < 8
        invariant
            0 <= k <= 8,
            n == png@.len(),
            n >= 8,
            signature@ == png_signature(),
            forall|j: int| 0 <= j < k ==> png@[j] == png_signature()[j],
        decreases 8 - k,
    {
        if png[k] != signature[k] {
            assert(png@.take(8)[k as int] != png_signature()[k as int]);
            return None;
        }
        k = k + 1;
    }
    assert(png@.take(8) =~= png_signature());
    let groups = n / 3 + if n % 3 == 0 { 0 } else { 1 };
    assert(groups == (n + 2) / 3);
    if groups > (MAX_ICON_DATA_URL_BYTES - 22) / 4 {
        return None;
    }
    let encoded_len = groups * 4;
    if 22 + encoded_len > MAX_ICON_DATA_URL_BYTES {
        return None;
    }
    let encoded = encode_base64(png);
    let mut url = "data:image/png;base64,".to_string();
    url.append(encoded.as_str());
    Some(url)
}

} // verus!
