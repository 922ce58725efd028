use esprinkler::form::{form_field, url_decode, url_decode_bytes};

#[test]
fn form_field_finds_each_field() {
    assert_eq!(form_field("a=1&b=2", "a"), "1");
    assert_eq!(form_field("a=1&b=2", "b"), "2");
}

#[test]
fn form_field_missing_key_is_empty() {
    assert_eq!(form_field("a=1&b=2", "c"), "");
    assert_eq!(form_field("", "a"), "");
}

#[test]
fn form_field_first_pair_wins() {
    assert_eq!(form_field("a=1&a=2", "a"), "1");
}

#[test]
fn form_field_skips_pairs_without_equals() {
    assert_eq!(form_field("a&b=2", "a"), "");
    assert_eq!(form_field("a&b=2", "b"), "2");
}

#[test]
fn form_field_value_keeps_later_equals() {
    assert_eq!(form_field("k=a=b&x=1", "k"), "a=b");
}

#[test]
fn form_field_key_is_not_decoded() {
    assert_eq!(form_field("a%62=1", "ab"), "");
    assert_eq!(form_field("a%62=1", "a%62"), "1");
}

#[test]
fn form_field_empty_value() {
    assert_eq!(form_field("ssid=&password=x", "ssid"), "");
    assert_eq!(form_field("ssid=&password=x", "password"), "x");
}

#[test]
fn form_field_decodes_value() {
    assert_eq!(form_field("ssid=My+Home%21&password=p%40ss", "ssid"), "My Home!");
    assert_eq!(form_field("ssid=My+Home%21&password=p%40ss", "password"), "p@ss");
}

#[test]
fn url_decode_plus_and_percent() {
    assert_eq!(url_decode("a+b%20c"), "a b c");
    assert_eq!(url_decode("%41%62"), "Ab");
}

#[test]
fn url_decode_mixed_case_hex() {
    assert_eq!(url_decode("%4a%4A"), "JJ");
}

#[test]
fn url_decode_short_escape_is_kept() {
    assert_eq!(url_decode("100%"), "100%");
    assert_eq!(url_decode("%4"), "%4");
    assert_eq!(url_decode("x%41"), "xA");
}

#[test]
fn url_decode_invalid_hex_digits_count_as_zero() {
    assert_eq!(url_decode_bytes(b"%zz"), vec![0u8]);
    assert_eq!(url_decode_bytes(b"%g1"), vec![1u8]);
}

#[test]
fn url_decode_plain_text_unchanged() {
    assert_eq!(url_decode("hello-world_1.2"), "hello-world_1.2");
    assert_eq!(url_decode("caf\u{e9}"), "caf\u{e9}");
}

#[test]
fn url_decode_utf8_escape() {
    assert_eq!(url_decode("caf%C3%A9"), "caf\u{e9}");
}

#[test]
fn url_decode_invalid_utf8_is_replaced() {
    assert_eq!(url_decode("%FF"), "\u{fffd}");
    assert_eq!(url_decode("a%C3"), "a\u{fffd}");
}

#[test]
fn url_decode_bytes_exact() {
    assert_eq!(url_decode_bytes(b"%41+%"), b"A %".to_vec());
    assert_eq!(url_decode_bytes(b""), Vec::<u8>::new());
}
