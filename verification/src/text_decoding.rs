//! Decoding an imported TXT file: UTF-8 (with or without a byte order mark)
//! or UTF-16 in either byte order, told apart by the byte order mark.

use vstd::prelude::*;
use vstd::utf8::{
    valid_utf8, decode_utf8, encode_utf8, encode_scalar, is_scalar, has_width_1_encoding,
    has_width_2_encoding, has_width_3_encoding, has_width_4_encoding, leading_byte_width_1,
    leading_byte_width_2, leading_byte_width_3, leading_byte_width_4, second_last_continuation_byte,
    last_continuation_byte, char_is_scalar, char_u32_cast, encode_utf8_valid_utf8,
    encode_utf8_decode_utf8,
};

verus! {

/// Calls `String::from_utf8`. Claimed, as std documents: the bytes are
/// accepted exactly when they are valid UTF-8, and then the string holds the
/// characters they encode.
#[verifier::external_body]
fn string_from_utf8(bytes: Vec<u8>) -> (res: Option<String>)
    ensures
        res is Some <==> valid_utf8(bytes@),
        res matches Some(s) ==> s@ == decode_utf8(bytes@),
{
    String::from_utf8(bytes).ok()
}

/// The characters a sequence of UTF-16 code units encodes, if it is valid:
/// units outside the surrogate range stand for themselves, and a high
/// surrogate followed by a low one stands for one supplementary character.
pub open spec fn utf16_decode(units: Seq<u16>) -> Option<Seq<char>>
    decreases units.len(),
{
    if units.len() == 0 {
        Some(seq![])
    } else {
        let u = units[0] as int;
        if u < 0xd800 || u > 0xdfff {
            match utf16_decode(units.drop_first()) {
                Some(rest) => Some(seq![u as char] + rest),
                None => None,
            }
        } else if u <= 0xdbff && units.len() >= 2 && 0xdc00 <= units[1] <= 0xdfff {
            let c = 0x10000 + (u - 0xd800) * 0x400 + (units[1] - 0xdc00);
            match utf16_decode(units.subrange(2, units.len() as int)) {
                Some(rest) => Some(seq![c as char] + rest),
                None => None,
            }
        } else {
            None
        }
    }
}

/// Calls `String::from_utf16`. Claimed, as std documents: the units are
/// accepted exactly when they are valid UTF-16, and then the string holds
/// the characters they encode.
#[verifier::external_body]
fn string_from_utf16(units: &[u16]) -> (res: Option<String>)
    ensures
        match utf16_decode(units@) {
            Some(chars) => res matches Some(s) && s@ == chars,
            None => res is None,
        },
{
    String::from_utf16(units).ok()
}

/// The 16-bit units of `bytes`, two bytes each (a trailing odd byte is
/// dropped), little-endian or big-endian.
pub open spec fn utf16_units(bytes: Seq<u8>, little_endian: bool) -> Seq<u16> {
    Seq::new(
        bytes.len() / 2,
        |i: int|
            if little_endian {
                (bytes[2 * i] + 256 * bytes[2 * i + 1]) as u16
            } else {
                (256 * bytes[2 * i] + bytes[2 * i + 1]) as u16
            },
    )
}

/// Why a TXT file cannot be read, or its text.
pub open spec fn decoded_txt(bytes: Seq<u8>) -> Result<Seq<char>, Seq<char>> {
    if bytes.len() >= 3 && bytes[0] == 0xef && bytes[1] == 0xbb && bytes[2] == 0xbf {
        let rest = bytes.subrange(3, bytes.len() as int);
        if valid_utf8(rest) {
            Ok(decode_utf8(rest))
        } else {
            Err("TXT 文件不是有效的 UTF-8 文本"@)
        }
    } else if bytes.len() >= 2 && bytes[0] == 0xff && bytes[1] == 0xfe {
        match utf16_decode(utf16_units(bytes.subrange(2, bytes.len() as int), true)) {
            Some(text) => Ok(text),
            None => Err("TXT 文件不是有效的 UTF-16 LE 文本"@),
        }
    } else if bytes.len() >= 2 && bytes[0] == 0xfe && bytes[1] == 0xff {
        match utf16_decode(utf16_units(bytes.subrange(2, bytes.len() as int), false)) {
            Some(text) => Ok(text),
            None => Err("TXT 文件不是有效的 UTF-16 BE 文本"@),
        }
    } else if valid_utf8(bytes) {
        Ok(decode_utf8(bytes))
    } else {
        Err("TXT 当前支持 UTF-8、UTF-8 BOM 或 UTF-16 编码"@)
    }
}

/// The UTF-16 code units of `s`: a character below U+10000 is one unit, any
/// other a high surrogate followed by a low one.
pub open spec fn utf16_encode(s: Seq<char>) -> Seq<u16>
    decreases s.len(),
{
    if s.len() == 0 {
        seq![]
    } else {
        let c = s[0] as u32;
        let head = if c < 0x10000 {
            seq![c as u16]
        } else {
            seq![(0xd800 + (c - 0x10000) / 0x400) as u16, (0xdc00 + (c - 0x10000) % 0x400) as u16]
        };
        head + utf16_encode(s.drop_first())
    }
}

/// The bytes of 16-bit units, two per unit, little-endian or big-endian.
pub open spec fn utf16_bytes(units: Seq<u16>, little_endian: bool) -> Seq<u8> {
    Seq::new(
        2 * units.len(),
        |i: int|
            {
                let u = units[i / 2] as int;
                if (i % 2 == 0) == little_endian {
                    (u % 256) as u8
                } else {
                    (u / 256) as u8
                }
            },
    )
}

/// Whether `bytes` begin with none of the three byte order marks.
pub open spec fn has_no_byte_order_mark(bytes: Seq<u8>) -> bool {
    &&& !(bytes.len() >= 3 && bytes[0] == 0xef && bytes[1] == 0xbb && bytes[2] == 0xbf)
    &&& !(bytes.len() >= 2 && bytes[0] == 0xff && bytes[1] == 0xfe)
    &&& !(bytes.len() >= 2 && bytes[0] == 0xfe && bytes[1] == 0xff)
}

proof fn lemma_leading_bytes(c: u32)
    by (bit_vector)
    requires
        is_scalar(c),
    ensures
        has_width_1_encoding(c) ==> leading_byte_width_1(c) < 0x80,
        has_width_2_encoding(c) ==> 0xc0 <= leading_byte_width_2(c) && leading_byte_width_2(c) <= 0xdf,
        has_width_3_encoding(c) ==> 0xe0 <= leading_byte_width_3(c) && leading_byte_width_3(c) <= 0xef,
        has_width_4_encoding(c) ==> 0xf0 <= leading_byte_width_4(c) && leading_byte_width_4(c) <= 0xf7,
        (has_width_3_encoding(c) && leading_byte_width_3(c) == 0xef && second_last_continuation_byte(c)
            == 0xbb && last_continuation_byte(c) == 0xbf) ==> c == 0xfeff,
{
}

/// The UTF-8 bytes of a text that does not begin with U+FEFF begin with no
/// byte order mark (no UTF-8 byte is 0xFE or 0xFF).
proof fn lemma_utf8_has_no_byte_order_mark(s: Seq<char>)
    requires
        s.len() == 0 || s[0] as u32 != 0xfeff,
    ensures
        has_no_byte_order_mark(encode_utf8(s)),
{
    if s.len() > 0 {
        let c = s[0] as u32;
        char_is_scalar(s[0]);
        lemma_leading_bytes(c);
        let e = encode_scalar(c);
        let b = encode_utf8(s);
        assert(b == e + encode_utf8(s.drop_first()));
        assert(b[0] == e[0]);
        if has_width_3_encoding(c) {
            assert(b[1] == e[1] && b[2] == e[2]);
        }
    }
}

proof fn lemma_utf16_units_of_bytes(units: Seq<u16>, little_endian: bool)
    ensures
        utf16_units(utf16_bytes(units, little_endian), little_endian) == units,
{
    let b = utf16_bytes(units, little_endian);
    let r = utf16_units(b, little_endian);
    assert(b.len() / 2 == units.len());
    assert forall|i: int| 0 <= i < units.len() implies r[i] == units[i] by {
        let u = units[i] as int;
        assert((2 * i) / 2 == i && (2 * i) % 2 == 0);
        assert((2 * i + 1) / 2 == i && (2 * i + 1) % 2 == 1);
        assert(u % 256 + 256 * (u / 256) == u);
    }
    assert(r =~= units);
}

proof fn lemma_surrogate_pair(v: int)
    requires
        0 <= v <= 0xfffff,
    ensures
        0 <= v / 0x400 <= 0x3ff,
        0 <= v % 0x400 <= 0x3ff,
        (v / 0x400) * 0x400 + v % 0x400 == v,
{
    assert((v / 0x400) * 0x400 + v % 0x400 == v) by (nonlinear_arith)
        requires
            0 <= v,
    ;
}

proof fn lemma_utf16_decode_encode(s: Seq<char>)
    ensures
        utf16_decode(utf16_encode(s)) == Some(s),
    decreases s.len(),
{
    if s.len() > 0 {
        let ch = s[0];
        let c = ch as u32;
        char_is_scalar(ch);
        char_u32_cast(ch, c);
        let rest = s.drop_first();
        lemma_utf16_decode_encode(rest);
        let e = utf16_encode(s);
        assert(s =~= seq![ch] + rest);
        if c < 0x10000 {
            assert(e.drop_first() =~= utf16_encode(rest));
            assert(e[0] as int == c as int);
        } else {
            let v = c - 0x10000;
            lemma_surrogate_pair(v);
            assert(e.subrange(2, e.len() as int) =~= utf16_encode(rest));
            assert(e[0] as int == 0xd800 + v / 0x400);
            assert(e[1] as int == 0xdc00 + v % 0x400);
            assert(0x10000 + (e[0] - 0xd800) * 0x400 + (e[1] - 0xdc00) == c as int);
        }
    }
}

/// A text written as UTF-8 reads back as that text, unless it begins with
/// U+FEFF (then its first bytes are the UTF-8 byte order mark).
pub proof fn lemma_utf8_text_reads_back(s: Seq<char>)
    requires
        s.len() == 0 || s[0] as u32 != 0xfeff,
    ensures
        decoded_txt(encode_utf8(s)) == Ok::<_, Seq<char>>(s),
{
    lemma_utf8_has_no_byte_order_mark(s);
    encode_utf8_valid_utf8(s);
    encode_utf8_decode_utf8(s);
}

/// A text written as UTF-8 behind the UTF-8 byte order mark reads back as
/// that text.
pub proof fn lemma_utf8_text_with_mark_reads_back(s: Seq<char>)
    ensures
        decoded_txt(seq![0xefu8, 0xbbu8, 0xbfu8] + encode_utf8(s)) == Ok::<_, Seq<char>>(s),
{
    let b = seq![0xefu8, 0xbbu8, 0xbfu8] + encode_utf8(s);
    assert(b.subrange(3, b.len() as int) =~= encode_utf8(s));
    encode_utf8_valid_utf8(s);
    encode_utf8_decode_utf8(s);
}

/// A text written as UTF-16 behind its byte order mark, in either byte
/// order, reads back as that text.
pub proof fn lemma_utf16_text_reads_back(s: Seq<char>)
    ensures
        decoded_txt(seq![0xffu8, 0xfeu8] + utf16_bytes(utf16_encode(s), true)) == Ok::<_, Seq<char>>(s),
        decoded_txt(seq![0xfeu8, 0xffu8] + utf16_bytes(utf16_encode(s), false)) == Ok::<_, Seq<char>>(s),
{
    lemma_utf16_decode_encode(s);
    let le = seq![0xffu8, 0xfeu8] + utf16_bytes(utf16_encode(s), true);
    let be = seq![0xfeu8, 0xffu8] + utf16_bytes(utf16_encode(s), false);
    assert(le.subrange(2, le.len() as int) =~= utf16_bytes(utf16_encode(s), true));
    assert(be.subrange(2, be.len() as int) =~= utf16_bytes(utf16_encode(s), false));
    lemma_utf16_units_of_bytes(utf16_encode(s), true);
    lemma_utf16_units_of_bytes(utf16_encode(s), false);
}

/// Bytes with no byte order mark that are not valid UTF-8 are refused with
/// the message naming the supported encodings.
pub proof fn lemma_unmarked_invalid_bytes_are_refused(bytes: Seq<u8>)
    requires
        has_no_byte_order_mark(bytes),
        !valid_utf8(bytes),
    ensures
        decoded_txt(bytes) == Err::<Seq<char>, _>("TXT 当前支持 UTF-8、UTF-8 BOM 或 UTF-16 编码"@),
{
}

fn bytes_from(bytes: &Vec<u8>, from: usize) -> (res: Vec<u8>)
    requires
        from <= bytes@.len(),
    ensures
        res@ == bytes@.subrange(from as int, bytes@.len() as int),
{
    let mut res: Vec<u8> = Vec::new();
    let mut i = from;
    while i < bytes.len()
        invariant
            from <= i <= bytes@.len(),
            res@ == bytes@.subrange(from as int, i as int),
        decreases bytes.len() - i,
    {
        res.push(bytes[i]);
        assert(res@ =~= bytes@.subrange(from as int, i + 1));
        i = i + 1;
    }
    res
}

fn units_from(bytes: &Vec<u8>, from: usize, little_endian: bool) -> (res: Vec<u16>)
    requires
        from <= bytes@.len(),
    ensures
        res@ == utf16_units(bytes@.subrange(from as int, bytes@.len() as int), little_endian),
{
    let ghost b = bytes@.subrange(from as int, bytes@.len() as int);
    let n = bytes.len();
    let count = (n - from) / 2;
    let mut res: Vec<u16> = Vec::new();
    let mut k: usize = 0;
    while k < count
        invariant
            k <= count,
            count == b.len() / 2,
            n == bytes@.len(),
            from <= bytes@.len(),
            b == bytes@.subrange(from as int, bytes@.len() as int),
            res@.len() == k,
            forall|j: int| 0 <= j < k ==> res@[j] == utf16_units(b, little_endian)[j],
        decreases count - k,
    {
        assert(2 * k + 1 < b.len());
        let first = bytes[from + 2 * k] as u16;
        let second = bytes[from + 2 * k + 1] as u16;
        assert(first == b[2 * k as int] && second == b[2 * k + 1]);
        let unit = if little_endian {
            first + 256 * second
        } else {
            256 * first + second
        };
        res.push(unit);
        k = k + 1;
    }
    assert(res@ =~= utf16_units(b, little_endian));
    res
}

/// Decodes an imported TXT file (`decode_txt`).
pub fn decode_txt(bytes: Vec<u8>) -> (res: Result<String, String>)
    ensures
        match decoded_txt(bytes@) {
            Ok(text) => res matches Ok(s) && s@ == text,
            Err(reason) => res matches Err(e) && e@ == reason,
        },
{
    let n = bytes.len();
    if n >= 3 && bytes[0] == 0xef && bytes[1] == 0xbb && bytes[2] == 0xbf {
        let rest = bytes_from(&bytes, 3);
        return match string_from_utf8(rest) {
            Some(s) => Ok(s),
            None => Err(String::from_str("TXT 文件不是有效的 UTF-8 文本")),
        };
    }
    if n >= 2 && bytes[0] == 0xff && bytes[1] == 0xfe {
        let units = units_from(&bytes, 2, true);
        return match string_from_utf16(units.as_slice()) {
            Some(s) => Ok(s),
            None => Err(String::from_str("TXT 文件不是有效的 UTF-16 LE 文本")),
        };
    }
    if n >= 2 && bytes[0] == 0xfe && bytes[1] == 0xff {
        let units = units_from(&bytes, 2, false);
        return match string_from_utf16(units.as_slice()) {
            Some(s) => Ok(s),
            None => Err(String::from_str("TXT 文件不是有效的 UTF-16 BE 文本")),
        };
    }
    match string_from_utf8(bytes) {
        Some(s) => Ok(s),
        None => Err(String::from_str("TXT 当前支持 UTF-8、UTF-8 BOM 或 UTF-16 编码")),
    }
}

} // verus!
