use voiceai::base64::decode;

fn bytes(text: &str) -> Vec<u8> {
    text.as_bytes().to_vec()
}

#[test]
fn decodes_padded_text() {
    assert_eq!(decode("SGVsbG8="), Ok(bytes("Hello")));
}

#[test]
fn decodes_each_length_of_tail() {
    assert_eq!(decode(""), Ok(Vec::new()));
    assert_eq!(decode("TQ=="), Ok(bytes("M")));
    assert_eq!(decode("TWE="), Ok(bytes("Ma")));
    assert_eq!(decode("TWFu"), Ok(bytes("Man")));
    assert_eq!(decode("TWFuTQ=="), Ok(bytes("ManM")));
}

#[test]
fn decodes_every_kind_of_character() {
    assert_eq!(decode("+/+/"), Ok(vec![0xfb, 0xff, 0xbf]));
    assert_eq!(decode("AAAA"), Ok(vec![0, 0, 0]));
    assert_eq!(decode("AZaz09+/"), Ok(vec![0x01, 0x96, 0xb3, 0xd3, 0xdf, 0xbf]));
}

#[test]
fn gives_three_bytes_for_four_characters() {
    for n in 0..40usize {
        let text = "Q".repeat(n);
        assert_eq!(decode(&text).map(|b| b.len()), Ok(6 * n / 8));
    }
}

#[test]
fn a_single_terminator_decodes_to_nothing() {
    assert_eq!(decode("="), Ok(Vec::new()));
}

#[test]
fn nothing_after_the_first_terminator_is_read() {
    assert_eq!(decode("TWFu=!!!"), Ok(bytes("Man")));
    assert_eq!(decode("=TWFu"), Ok(Vec::new()));
    assert_eq!(decode("TQ=\u{00e9}"), Ok(bytes("M")));
}

#[test]
fn leftover_bits_are_dropped_unseen() {
    assert_eq!(decode("TR=="), Ok(bytes("M")));
    assert_eq!(decode("TQ"), Ok(bytes("M")));
    assert_eq!(decode("T"), Ok(Vec::new()));
    assert_eq!(decode("TWFuT"), Ok(bytes("Man")));
}

#[test]
fn a_foreign_character_is_refused() {
    let refused = Err("Invalid base64 character".to_string());
    assert_eq!(decode("SGV!bG8="), refused);
    assert_eq!(decode(" TWFu"), refused);
    assert_eq!(decode("TWFu\n"), refused);
    assert_eq!(decode("TW-u"), refused);
    assert_eq!(decode("\u{00e9}"), refused);
}

#[test]
fn decoding_twice_gives_the_same() {
    assert_eq!(decode("SGVsbG8="), decode("SGVsbG8="));
    assert_eq!(decode("SGV!"), decode("SGV!"));
}

#[test]
fn standard_encodings_decode_to_their_bytes() {
    let cases: [(&str, &str); 7] = [
        ("", ""),
        ("Zg==", "f"),
        ("Zm8=", "fo"),
        ("Zm9v", "foo"),
        ("Zm9vYg==", "foob"),
        ("Zm9vYmE=", "fooba"),
        ("Zm9vYmFy", "foobar"),
    ];
    for (text, plain) in cases {
        assert_eq!(decode(text), Ok(bytes(plain)));
    }
}
