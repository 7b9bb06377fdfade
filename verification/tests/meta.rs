//! Tests of the metadata serialization and its parser.

use stash_vault::meta::{build_meta, parse_meta, parse_salt};
use stash_vault::VaultError;

#[test]
fn build_then_parse() {
    let meta = build_meta("c2FsdA==", "bm9uY2U=");
    assert_eq!(meta, "{\"salt\":\"c2FsdA==\",\"sentinel\":\"bm9uY2U=\"}");
    let (salt, sentinel) = parse_meta(&meta).unwrap();
    assert_eq!(salt, "c2FsdA==");
    assert_eq!(sentinel, "bm9uY2U=");
}

#[test]
fn parse_salt_extracts_field() {
    let meta = "{\"salt\":\"AAAA\",\"sentinel\":\"BBBB\"}";
    assert_eq!(parse_salt(meta).unwrap(), "AAAA");
}

#[test]
fn parse_empty_fields() {
    let meta = "{\"salt\":\"\",\"sentinel\":\"\"}";
    let (salt, sentinel) = parse_meta(meta).unwrap();
    assert_eq!(salt, "");
    assert_eq!(sentinel, "");
}

#[test]
fn parse_accepts_whitespace_and_key_order() {
    for ok in [
        " {\"salt\":\"AAAA\",\"sentinel\":\"BBBB\"}",
        "{\"salt\":\"AAAA\",\"sentinel\":\"BBBB\"} ",
        "{\"salt\": \"AAAA\",\"sentinel\":\"BBBB\"}",
        "{ \"salt\" : \"AAAA\" , \"sentinel\" : \"BBBB\" }",
        "{\n  \"salt\": \"AAAA\",\r\n  \"sentinel\": \"BBBB\"\n}",
        "{\"sentinel\":\"BBBB\",\"salt\":\"AAAA\"}",
    ] {
        let (salt, sentinel) = parse_meta(ok).unwrap_or_else(|_| panic!("input: {ok:?}"));
        assert_eq!(salt, "AAAA", "input: {ok:?}");
        assert_eq!(sentinel, "BBBB", "input: {ok:?}");
        assert_eq!(parse_salt(ok).unwrap(), "AAAA", "input: {ok:?}");
    }
}

#[test]
fn parse_salt_accepts_salt_only_object() {
    assert_eq!(parse_salt("{\"salt\":\"AA==\"}").unwrap(), "AA==");
    assert_eq!(parse_salt("{ \"salt\" : \"AA==\" }").unwrap(), "AA==");
    // the full pair is still required where both fields are read
    assert_eq!(
        parse_meta("{\"salt\":\"AA==\"}"),
        Err(VaultError::InputError)
    );
}

#[test]
fn parse_duplicate_key_last_wins() {
    assert_eq!(parse_salt("{\"salt\":\"AAAA\",\"salt\":\"BBBB\"}").unwrap(), "BBBB");
}

#[test]
fn parse_salt_rejects_bad_base64() {
    assert_eq!(
        parse_salt("{\"salt\":\"!!!\",\"sentinel\":\"BBBB\"}"),
        Err(VaultError::InputError)
    );
}

#[test]
fn parse_rejects_malformed() {
    for bad in [
        "",
        "   ",
        "{}",
        "not json",
        "{\"salt\":\"AAAA\"",
        "{\"salt\":\"AAAA\",\"sentinel\":\"BBBB\"",
        "{\"salt\":\"AAAA\",\"sentinel\":\"BBBB\"}}",
        "{\"salt\":123,\"sentinel\":\"BBBB\"}",
        "{\"salt\":\"AAAA\",\"sentinel\":\"BBBB\",\"extra\":\"CCCC\"}",
        "{\"salt\":\"AA\\\"AA\",\"sentinel\":\"BBBB\"}",
        "[\"salt\",\"sentinel\"]",
    ] {
        assert_eq!(parse_meta(bad), Err(VaultError::InputError), "input: {bad:?}");
        assert_eq!(parse_salt(bad), Err(VaultError::InputError), "input: {bad:?}");
    }
}
