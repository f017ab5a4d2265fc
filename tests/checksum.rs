use gpu_fan_control::checksum::{
    expected_digest, parse_checksums, sha256_hex, strip_quotes, verify_content, verify_digest,
    Checksum, Sha256Stream,
};

const ABC_DIGEST: &str = "ba7816bf8f01cfea414140de5dae2223b00361a396177a9cb410ff61f20015ad";
const EMPTY_DIGEST: &str = "e3b0c44298fc1c149afbf4c8996fb92427ae41e4649b934ca495991b7852b855";

#[test]
fn sha256_of_known_inputs() {
    assert_eq!(sha256_hex(b"abc"), ABC_DIGEST);
    assert_eq!(sha256_hex(b""), EMPTY_DIGEST);
}

#[test]
fn streamed_digest_equals_one_shot() {
    let data: Vec<u8> = (0..20000u32).map(|i| (i % 251) as u8).collect();
    let mut s = Sha256Stream::new();
    for chunk in data.chunks(8192) {
        s.update(chunk);
    }
    assert_eq!(s.finish_hex(), sha256_hex(&data));
    let mut t = Sha256Stream::new();
    t.update(b"a");
    t.update(b"");
    t.update(b"bc");
    assert_eq!(t.finish_hex(), ABC_DIGEST);
}

#[test]
fn content_verifies_against_its_own_digest() {
    let content = b"binary contents".to_vec();
    let digest = sha256_hex(&content);
    assert!(verify_content(&content, &digest));
    for i in 0..content.len() {
        let mut flipped = content.clone();
        flipped[i] ^= 0x01;
        assert!(!verify_content(&flipped, &digest));
    }
}

#[test]
fn quoted_manifest_value_matches_unquoted_digest() {
    assert!(verify_digest("abcd1234", "\"abcd1234\""));
    assert!(verify_digest("abcd1234", "\"\"abcd1234\"\""));
    assert!(verify_digest("abcd1234", "abcd1234"));
    assert!(!verify_digest("abcd1234", "\"abcd1235\""));
    assert!(!verify_digest("abcd1234", "ABCD1234"));
}

#[test]
fn strip_quotes_removes_all_end_quotes() {
    assert_eq!(strip_quotes("\"\"abc\"\""), "abc");
    assert_eq!(strip_quotes("abc"), "abc");
    assert_eq!(strip_quotes("\"a\"b\""), "a\"b");
    assert_eq!(strip_quotes("\"\"\""), "");
    assert_eq!(strip_quotes(""), "");
}

#[test]
fn checksum_manifest_values_keep_their_json_quotes() {
    let c = parse_checksums(br#"{"widget-2-fans": "deadbeef", "widget-static": "0011"}"#);
    assert_eq!(c.len(), 2);
    let found = c.iter().find(|x| x.key == "widget-2-fans").unwrap();
    assert_eq!(found.value, "\"deadbeef\"");
}

#[test]
fn manifest_that_is_not_an_object_has_no_checksums() {
    assert!(parse_checksums(b"[1, 2]").is_empty());
    assert!(parse_checksums(b"{not json").is_empty());
    assert!(parse_checksums(b"{}").is_empty());
}

#[test]
fn expected_digest_is_unquoted() {
    let c = parse_checksums(br#"{"widget-2-fans": "deadbeef"}"#);
    assert_eq!(expected_digest(&c, "widget-2-fans"), Some(String::from("deadbeef")));
    assert_eq!(expected_digest(&c, "widget-3-fans"), None);
}

#[test]
fn expected_digest_takes_the_last_entry_for_a_key() {
    let c = vec![
        Checksum { key: "w".to_string(), value: "\"11\"".to_string() },
        Checksum { key: "w".to_string(), value: "\"22\"".to_string() },
    ];
    assert_eq!(expected_digest(&c, "w"), Some(String::from("22")));
}
