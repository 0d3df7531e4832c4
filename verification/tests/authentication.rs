use keysnipe::credential::CredentialStore;
use keysnipe::login::{apply_login_response, extract_session_cookie};

#[test]
fn session_cookie_is_read_from_the_header() {
    let token = extract_session_cookie("_session=abc123; Path=/; HttpOnly");
    assert_eq!(token, "abc123");
}

#[test]
fn session_cookie_halves_are_trimmed() {
    let token = extract_session_cookie("theme=dark; _session = tok42 ; other=1");
    assert_eq!(token, "tok42");
}

#[test]
fn missing_session_cookie_reads_as_empty() {
    assert_eq!(extract_session_cookie("theme=dark; Path=/"), "");
    assert_eq!(extract_session_cookie(""), "");
}

#[test]
fn fragment_with_two_separators_is_ignored() {
    let token = extract_session_cookie("a=b=c; _session=z9");
    assert_eq!(token, "z9");
}

#[test]
fn successful_login_stores_the_session() {
    let mut store = CredentialStore::new();
    let body = "[{\"result\":{\"data\":{\"json\":{}}}}]";
    let failure = apply_login_response(&mut store, body, "cookie-token".to_string());
    assert!(failure.is_none());
    assert_eq!(store.get(), "cookie-token");
}

#[test]
fn reported_login_error_leaves_the_store_untouched() {
    let mut store = CredentialStore::new();
    store.set("previous".to_string());
    let body = "[{\"error\":{\"json\":{\"message\":\"Wrong password\"}}}]";
    let failure = apply_login_response(&mut store, body, "unused".to_string());
    assert_eq!(failure, Some("\"Wrong password\"".to_string()));
    assert_eq!(store.get(), "previous");
}

#[test]
fn unrecognized_login_response_is_invalid() {
    let mut store = CredentialStore::new();
    let failure = apply_login_response(&mut store, "{}", "unused".to_string());
    assert_eq!(failure, Some("Invalid Response".to_string()));
    assert_eq!(store.get(), "");
}

#[test]
fn undecodable_login_response_is_invalid() {
    let mut store = CredentialStore::new();
    let failure = apply_login_response(&mut store, "not json", "unused".to_string());
    assert_eq!(failure, Some("Invalid Response".to_string()));
    assert_eq!(store.get(), "");
}

#[test]
fn store_starts_unauthenticated() {
    let store = CredentialStore::new();
    assert_eq!(store.get(), "");
}

#[test]
fn snapshot_is_isolated_from_a_later_update() {
    let mut store = CredentialStore::new();
    store.set("first".to_string());
    let snapshot = store.get();
    store.set("second".to_string());
    assert_eq!(snapshot, "first");
    assert_eq!(store.get(), "second");
}
