use drill::query::encode;

fn decode(s: &str) -> Vec<u8> {
    let bytes = s.as_bytes();
    let mut out = Vec::new();
    let mut i = 0;
    while i < bytes.len() {
        if bytes[i] == b'%' {
            out.push(u8::from_str_radix(&s[i + 1..i + 3], 16).unwrap());
            i += 3;
        } else {
            out.push(bytes[i]);
            i += 1;
        }
    }
    out
}

#[test]
fn plain_characters_stand_for_themselves() {
    let plain = "ABCDEFGHIJKLMNOPQRSTUVWXYZabcdefghijklmnopqrstuvwxyz0123456789-._~";
    assert_eq!(encode(plain), plain);
    assert_eq!(encode(""), "");
}

#[test]
fn other_characters_are_escaped() {
    assert_eq!(encode(" "), "%20");
    assert_eq!(encode("&=?#+%/"), "%26%3D%3F%23%2B%25%2F");
    assert_eq!(encode("\0\u{7f}"), "%00%7F");
    assert_eq!(encode("\u{20ac}"), "%E2%82%AC");
}

#[test]
fn decoding_undoes_encoding() {
    for n in 0..0x3000u32 {
        if let Some(c) = char::from_u32(n) {
            let s = format!("a{}b", c);
            let encoded = encode(&s);
            assert_eq!(decode(&encoded), s.as_bytes());
            assert!(encoded.bytes().all(|b| b.is_ascii_alphanumeric() || b"-._~%".contains(&b)));
        }
    }
    assert_eq!(decode(&encode("\u{1f600}")), "\u{1f600}".as_bytes());
}
