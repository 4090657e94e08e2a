use wolfcode_lessons::urls::urlencoding_minimal;

#[test]
fn characters_of_a_segment_are_kept() {
    for s in ["ABCxyz019-_.~", "a:b@c", "!$&'()*+,;="] {
        assert_eq!(urlencoding_minimal(s), s);
    }
    assert_eq!(urlencoding_minimal("a?b#c[d]"), "a%3Fb%23c%5Bd%5D");
}

#[test]
fn everything_else_becomes_bytes() {
    assert_eq!(urlencoding_minimal("a b/c"), "a%20b%2Fc");
    assert_eq!(urlencoding_minimal("é"), "%C3%A9");
    assert_eq!(urlencoding_minimal("任✓"), "%E4%BB%BB%E2%9C%93");
    assert_eq!(urlencoding_minimal("😀%"), "%F0%9F%98%80%25");
    assert_eq!(urlencoding_minimal("\u{7f}\u{0}"), "%7F%00");
}

#[test]
fn an_encoded_text_decodes_to_itself() {
    let s = "01-été / 任务?x=1";
    let encoded = urlencoding_minimal(s);
    let mut bytes: Vec<u8> = Vec::new();
    let raw = encoded.as_bytes();
    let mut i = 0;
    while i < raw.len() {
        if raw[i] == b'%' {
            bytes.push(u8::from_str_radix(&encoded[i + 1..i + 3], 16).unwrap());
            i += 3;
        } else {
            bytes.push(raw[i]);
            i += 1;
        }
    }
    assert_eq!(String::from_utf8(bytes).unwrap(), s);
}
