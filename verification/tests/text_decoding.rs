use moyu::text_decoding::decode_txt;

#[test]
fn plain_utf8() {
    assert_eq!(decode_txt("言语 ok".as_bytes().to_vec()), Ok("言语 ok".to_string()));
    assert_eq!(decode_txt(vec![]), Ok(String::new()));
}

#[test]
fn utf8_with_byte_order_mark() {
    let mut bytes = vec![0xef, 0xbb, 0xbf];
    bytes.extend_from_slice("词".as_bytes());
    assert_eq!(decode_txt(bytes), Ok("词".to_string()));
    assert_eq!(
        decode_txt(vec![0xef, 0xbb, 0xbf, 0xff]),
        Err("TXT 文件不是有效的 UTF-8 文本".to_string())
    );
}

#[test]
fn utf16_in_both_byte_orders() {
    let text = "a词😀";
    let mut le = vec![0xff, 0xfe];
    let mut be = vec![0xfe, 0xff];
    for unit in text.encode_utf16() {
        le.extend_from_slice(&unit.to_le_bytes());
        be.extend_from_slice(&unit.to_be_bytes());
    }
    assert_eq!(decode_txt(le.clone()), Ok(text.to_string()));
    assert_eq!(decode_txt(be), Ok(text.to_string()));
    le.push(0x41);
    assert_eq!(decode_txt(le), Ok(text.to_string()));
}

#[test]
fn broken_utf16_is_refused() {
    assert_eq!(
        decode_txt(vec![0xff, 0xfe, 0x00, 0xd8, 0x41, 0x00]),
        Err("TXT 文件不是有效的 UTF-16 LE 文本".to_string())
    );
    assert_eq!(
        decode_txt(vec![0xfe, 0xff, 0xdc, 0x00]),
        Err("TXT 文件不是有效的 UTF-16 BE 文本".to_string())
    );
}

#[test]
fn other_encodings_are_refused() {
    assert_eq!(
        decode_txt(vec![0xc4, 0xe3, 0xba, 0xc3]),
        Err("TXT 当前支持 UTF-8、UTF-8 BOM 或 UTF-16 编码".to_string())
    );
}

fn utf16_with_mark(s: &str, little_endian: bool) -> Vec<u8> {
    let mut bytes = if little_endian { vec![0xff, 0xfe] } else { vec![0xfe, 0xff] };
    for unit in s.encode_utf16() {
        let pair = if little_endian { unit.to_le_bytes() } else { unit.to_be_bytes() };
        bytes.extend_from_slice(&pair);
    }
    bytes
}

#[test]
fn texts_read_back_in_every_supported_encoding() {
    for s in ["", "词语积累", "a\u{10437}b\u{1F600}", "line\r\nnext", "x\u{feff}y"] {
        assert_eq!(decode_txt(s.as_bytes().to_vec()), Ok(s.to_string()));
        let mut marked = vec![0xef, 0xbb, 0xbf];
        marked.extend_from_slice(s.as_bytes());
        assert_eq!(decode_txt(marked), Ok(s.to_string()));
        assert_eq!(decode_txt(utf16_with_mark(s, true)), Ok(s.to_string()));
        assert_eq!(decode_txt(utf16_with_mark(s, false)), Ok(s.to_string()));
    }
    assert_eq!(
        decode_txt(vec![0x80, 0x41]),
        Err("TXT 当前支持 UTF-8、UTF-8 BOM 或 UTF-16 编码".to_string())
    );
}
