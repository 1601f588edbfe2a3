use envio::env::{Env, EnvMap};
use envio::error::{CipherError, EnvioError};

fn env(key: &str, value: &str) -> Env {
    Env::from_key_value(key.to_string(), value.to_string())
}

fn map_of(entries: &[(&str, &str)]) -> EnvMap {
    let mut map = EnvMap::new();
    for (key, value) in entries {
        map.insert(env(key, value));
    }
    map
}

#[test]
fn as_bytes_writes_one_line_per_entry() {
    let map = map_of(&[("A", "1"), ("B", "2")]);
    assert_eq!(map.as_bytes(), b"A=1\nB=2\n".to_vec());
    assert_eq!(map.to_text(), "A=1\nB=2\n");
}

#[test]
fn empty_map_has_empty_bytes() {
    assert_eq!(EnvMap::new().as_bytes(), Vec::<u8>::new());
    assert!(EnvMap::new().is_empty());
    assert_eq!(EnvMap::default(), EnvMap::new());
    assert_eq!(EnvMap::from_bytes(Vec::new()), Ok(EnvMap::new()));
}

#[test]
fn insert_keeps_order_and_replaces_in_place() {
    let mut map = map_of(&[("A", "1"), ("B", "2"), ("C", "3")]);
    map.insert(env("B", "two"));
    assert_eq!(map.len(), 3);
    assert_eq!(map.to_text(), "A=1\nB=two\nC=3\n");
    assert_eq!(map.envs()[1], env("B", "two"));
}

#[test]
fn get_finds_values_by_key() {
    let map = map_of(&[("A", "1"), ("B", "2")]);
    assert_eq!(map.get("A"), Some(&"1".to_string()));
    assert_eq!(map.get("B"), Some(&"2".to_string()));
    assert_eq!(map.get("C"), None);
    assert_eq!(map.get(""), None);
}

#[test]
fn parse_reads_what_as_bytes_wrote() {
    let map = map_of(&[("PATH", "/usr/bin:/bin"), ("EMPTY", ""), ("URL", "a=b=c"), ("", "x")]);
    assert_eq!(EnvMap::from_bytes(map.as_bytes()), Ok(map.clone()));
    assert_eq!(EnvMap::from_text(&map.to_text()), map);
}

#[test]
fn parse_keeps_non_ascii_text() {
    let map = map_of(&[("GRÜSSE", "héllo wörld ✓"), ("日本", "語")]);
    assert_eq!(EnvMap::from_bytes(map.as_bytes()), Ok(map));
}

#[test]
fn parse_lets_the_last_duplicate_win() {
    let map = EnvMap::from_text("A=1\nB=2\nA=3\n");
    assert_eq!(map, map_of(&[("A", "3"), ("B", "2")]));
}

#[test]
fn parse_ignores_blank_lines_and_lines_without_equals() {
    let map = EnvMap::from_text("\nA=1\n\n  \nnot a variable\nB=2\n\n");
    assert_eq!(map, map_of(&[("A", "1"), ("B", "2")]));
}

#[test]
fn parse_splits_at_the_first_equals() {
    let map = EnvMap::from_text("A=b=c\n=lead\nK=\n");
    assert_eq!(map, map_of(&[("A", "b=c"), ("", "lead"), ("K", "")]));
}

#[test]
fn parse_reads_a_last_line_without_newline() {
    assert_eq!(EnvMap::from_text("A=1\nB=2"), map_of(&[("A", "1"), ("B", "2")]));
}

#[test]
fn canonical_text_keeps_carriage_returns() {
    assert_eq!(EnvMap::from_text("A=1\r\nB=2\r\n"), map_of(&[("A", "1\r"), ("B", "2\r")]));
    let map = map_of(&[("A", "1\r")]);
    assert_eq!(EnvMap::from_bytes(map.as_bytes()), Ok(map));
}

#[test]
fn crlf_parse_drops_the_carriage_return_of_a_line_ending() {
    assert_eq!(EnvMap::parse("A=1\r\nB=2\r\n", true), map_of(&[("A", "1"), ("B", "2")]));
    // Only one carriage return belongs to the line ending, and only before a newline.
    assert_eq!(EnvMap::parse("A=1\r\r\nB=2\r", true), map_of(&[("A", "1\r"), ("B", "2\r")]));
    assert_eq!(EnvMap::parse("A=1\rB=2\n", true), map_of(&[("A", "1\rB=2")]));
}

#[test]
fn a_key_with_equals_does_not_round_trip() {
    let map = map_of(&[("A=B", "C")]);
    assert_eq!(EnvMap::from_bytes(map.as_bytes()), Ok(map_of(&[("A", "B=C")])));
}

#[test]
fn a_value_with_newline_does_not_round_trip() {
    let map = map_of(&[("A", "1\nB=2")]);
    assert_eq!(EnvMap::from_bytes(map.as_bytes()), Ok(map_of(&[("A", "1"), ("B", "2")])));
}

#[test]
fn payload_that_is_not_utf8_is_refused() {
    let expected = Err(EnvioError::Cipher(CipherError::InvalidPlaintext));
    assert_eq!(EnvMap::from_bytes(vec![b'A', b'=', 0xff, b'\n']), expected);
    assert_eq!(EnvMap::from_bytes(vec![0xc3]), expected);
}

#[test]
fn clone_is_equal() {
    let map = map_of(&[("A", "1"), ("B", "2")]);
    assert_eq!(map.clone(), map);
    assert_eq!(env("A", "1").clone(), env("A", "1"));
}
