use together::escape::{percent_encode_ascii, unicode_escape_json};

fn percent_decode(s: &str) -> String {
    let cs: Vec<char> = s.chars().collect();
    let mut out = String::new();
    let mut i = 0;
    while i < cs.len() {
        let hex = |k: usize| cs.get(k).and_then(|c| c.to_digit(16));
        if cs[i] == '%' && hex(i + 1).is_some() && hex(i + 2).is_some() {
            let h = hex(i + 1).unwrap();
            let l = hex(i + 2).unwrap();
            out.push(char::from_u32(h * 16 + l).unwrap());
            i += 3;
        } else {
            out.push(cs[i]);
            i += 1;
        }
    }
    out
}

#[test]
fn percent_encoding_keeps_unreserved() {
    assert_eq!(percent_encode_ascii("AZaz09-_.~"), "AZaz09-_.~");
    assert_eq!(percent_encode_ascii(""), "");
}

#[test]
fn percent_encoding_escapes_reserved() {
    assert_eq!(percent_encode_ascii("a b"), "a%20b");
    assert_eq!(
        percent_encode_ascii("{\"userId\":\"u1\"}"),
        "%7B%22userId%22%3A%22u1%22%7D"
    );
    assert_eq!(percent_encode_ascii("\\u00e9"), "%5Cu00e9");
}

#[test]
fn percent_encoding_uses_the_low_byte_of_non_ascii() {
    // U+AC00 has low byte 0x00; U+00E9 has low byte 0xE9.
    assert_eq!(percent_encode_ascii("가"), "%00");
    assert_eq!(percent_encode_ascii("é"), "%E9");
}

#[test]
fn percent_decoding_gives_ascii_back() {
    for s in ["", "abc", "a b&c=d", "{\"nickname\":\"\\uD55C\"}", "%%%", "~!@#$^*()"] {
        assert_eq!(percent_decode(&percent_encode_ascii(s)), s);
    }
}

#[test]
fn unicode_escape_keeps_ascii() {
    let s = "{\"userId\":\"u1\",\"n\":[1,2]}";
    assert_eq!(unicode_escape_json(s), s);
}

#[test]
fn unicode_escape_of_basic_plane() {
    assert_eq!(unicode_escape_json("가"), "\\uAC00");
    assert_eq!(unicode_escape_json("é"), "\\u00E9");
    assert_eq!(unicode_escape_json("\u{80}"), "\\u0080");
    assert_eq!(unicode_escape_json("\u{FFFF}"), "\\uFFFF");
    assert_eq!(unicode_escape_json("닉네임A"), "\\uB2C9\\uB124\\uC784A");
}

#[test]
fn unicode_escape_of_surrogate_pairs() {
    assert_eq!(unicode_escape_json("😀"), "\\uD83D\\uDE00");
    assert_eq!(unicode_escape_json("\u{10000}"), "\\uD800\\uDC00");
    assert_eq!(unicode_escape_json("\u{10FFFF}"), "\\uDBFF\\uDFFF");
}

#[test]
fn unicode_escape_gives_ascii_that_json_reads_back() {
    let s = "{\"nickname\":\"닉네임😀é\"}";
    let escaped = unicode_escape_json(s);
    assert!(escaped.is_ascii());
    let back: serde_json::Value = serde_json::from_str(&escaped).unwrap();
    let orig: serde_json::Value = serde_json::from_str(s).unwrap();
    assert_eq!(back, orig);
}

#[test]
fn percent_encoding_is_ascii() {
    for s in ["", "가나다", "😀 é ~", "plain"] {
        assert!(percent_encode_ascii(s).is_ascii());
    }
}
