use octa::case::{char_upper, str_lower, upper_chars};
use octa::digest::{bytes_equal, digest_hex_of_str, digest_of_str};
use octa::error::{bad_request, forbidden, not_found, unauthorized, AppError};
use octa::ids::{parse_uuid, uuid_string};
use octa::protocol::{
    bearer_token, healthy, platform_secret_authorization, platform_secret_url,
    require_agent_secret, token_matches, AgentSecret, SecretGate,
};
use octa::text::{
    chars_of, find_chars, fits_bytes, int_text, lines_chars, nat_text, replace_char,
    split_char, split_once_char, string_of, trim_end_char, trim_ws_chars,
};

fn s(v: &Vec<char>) -> String {
    string_of(v)
}

#[test]
fn text_helpers() {
    assert_eq!(s(&trim_ws_chars(&chars_of("\t hi there \n"))), "hi there");
    assert_eq!(s(&trim_end_char(&chars_of("http://x//"), '/')), "http://x");
    assert_eq!(find_chars(&chars_of("abcabc"), &chars_of("ca")), Some(2));
    assert_eq!(find_chars(&chars_of("abc"), &chars_of("x")), None);
    let parts: Vec<String> = split_char(&chars_of("/a//b"), '/').iter().map(s).collect();
    assert_eq!(parts, vec!["", "a", "", "b"]);
    let ls: Vec<String> = lines_chars(&chars_of("one\r\ntwo\nthree")).iter().map(s).collect();
    assert_eq!(ls, vec!["one", "two", "three"]);
    let (k, v) = split_once_char(&chars_of("key: a: b"), ':').unwrap();
    assert_eq!((s(&k), s(&v)), ("key".to_string(), " a: b".to_string()));
    assert_eq!(s(&replace_char(&chars_of("a-b-c"), '-', &chars_of("--"))), "a--b--c");
    assert_eq!(s(&nat_text(1234567)), "1234567");
    assert_eq!(s(&int_text(-42)), "-42");
    assert_eq!(s(&int_text(i64::MIN)), i64::MIN.to_string());
    assert!(fits_bytes(&chars_of("ééé"), 6));
    assert!(!fits_bytes(&chars_of("ééé"), 5));
}

#[test]
fn case_mappings() {
    assert_eq!(s(&char_upper('a')), "A");
    assert_eq!(s(&char_upper('ß')), "SS");
    assert_eq!(str_lower("ÀBC"), "àbc");
    assert_eq!(s(&upper_chars(&chars_of("key_1é"))), "KEY_1É");
}

#[test]
fn sha256_digests() {
    assert_eq!(
        digest_hex_of_str("abc"),
        "ba7816bf8f01cfea414140de5dae2223b00361a396177a9cb410ff61f20015ad"
    );
    assert_eq!(digest_of_str("").len(), 32);
    assert!(bytes_equal(&digest_of_str("x"), &digest_of_str("x")));
    assert!(!bytes_equal(&digest_of_str("x"), &digest_of_str("y")));
}

#[test]
fn uuids_round_trip() {
    let u: u128 = 0x0123456789abcdef0123456789abcdef;
    assert_eq!(uuid_string(u), "01234567-89ab-cdef-0123-456789abcdef");
    assert_eq!(parse_uuid(&uuid_string(u)), Some(u));
    assert_eq!(parse_uuid("0123456789ABCDEF0123456789ABCDEF"), Some(u));
    assert_eq!(parse_uuid("not-a-uuid"), None);
    assert_eq!(uuid_string(0), "00000000-0000-0000-0000-000000000000");
}

#[test]
fn error_statuses() {
    assert_eq!(bad_request("x").status(), 400);
    assert_eq!(unauthorized("x").status(), 401);
    assert_eq!(forbidden("x").status(), 403);
    assert_eq!(not_found("x").status(), 404);
    assert_eq!(AppError::Internal("x".to_string()).status(), 500);
    assert!(matches!(not_found("gone"), AppError::NotFound(m) if m == "gone"));
}

#[test]
fn agent_secret_gate() {
    let h = healthy(12);
    assert_eq!((h.status.as_str(), h.uptime_seconds), ("healthy", 12));
    assert_eq!(bearer_token(&Some("Bearer abc".to_string())), "abc");
    assert_eq!(bearer_token(&Some("Basic abc".to_string())), "");
    assert_eq!(bearer_token(&None), "");
    assert!(token_matches("s", "s"));
    assert!(!token_matches("s", "t"));
    let secret = AgentSecret("s3cret".to_string());
    assert_eq!(require_agent_secret(&secret, &Some("Bearer s3cret".to_string())), SecretGate::Granted);
    assert_eq!(require_agent_secret(&secret, &Some("Bearer nope".to_string())), SecretGate::Unauthorized);
    assert_eq!(require_agent_secret(&secret, &None), SecretGate::Unauthorized);
    let open = AgentSecret(String::new());
    assert_eq!(require_agent_secret(&open, &None), SecretGate::Open);
}

#[test]
fn platform_secret_requests() {
    assert_eq!(
        platform_secret_url("http://dash:8080//", "S3_BUCKET"),
        "http://dash:8080/internal/platform-secrets/S3_BUCKET"
    );
    assert_eq!(platform_secret_authorization(""), None);
    assert_eq!(platform_secret_authorization("k"), Some("Bearer k".to_string()));
}
