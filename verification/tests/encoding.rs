use keysnipe::encode::{bearer_value, encode_batch_body, encode_login_body, redeem_url};

#[test]
fn batch_body_of_two_keys() {
    let keys = vec!["KEY1".to_string(), "KEY2".to_string()];
    let body = encode_batch_body(&keys);
    assert_eq!(body, "{\"0\":{\"json\":\"KEY1\"},\"1\":{\"json\":\"KEY2\"}}");
}

#[test]
fn batch_body_of_one_key() {
    let keys = vec!["ABCD".to_string()];
    let body = encode_batch_body(&keys);
    assert_eq!(body, "{\"0\":{\"json\":\"ABCD\"}}");
}

#[test]
fn batch_body_of_no_keys() {
    let keys: Vec<String> = vec![];
    let body = encode_batch_body(&keys);
    assert_eq!(body, "{}");
}

#[test]
fn batch_body_indices_go_past_nine() {
    let keys: Vec<String> = (0..12).map(|i| format!("K{}", i)).collect();
    let body = encode_batch_body(&keys);
    assert!(body.contains("\"10\":{\"json\":\"K10\"}"));
    assert!(body.contains("\"11\":{\"json\":\"K11\"}"));
}

#[test]
fn batch_body_parses_back_as_json() {
    let keys = vec!["AB12".to_string(), "CD34".to_string()];
    let body = encode_batch_body(&keys);
    let parsed: serde_json::Value = serde_json::from_str(&body).unwrap();
    assert_eq!(parsed.get("0").unwrap().get("json").unwrap(), "AB12");
    assert_eq!(parsed.get("1").unwrap().get("json").unwrap(), "CD34");
}

#[test]
fn login_body_carries_the_credential_pair() {
    let body = encode_login_body("user@example.com", "hunter2");
    assert_eq!(
        body,
        "{\"0\":{\"json\":{\"emailOrUsername\":\"user@example.com\",\"password\":\"hunter2\"}}}"
    );
}

#[test]
fn login_body_escapes_the_credentials() {
    let body = encode_login_body("a\"b", "p\\q\nr");
    let parsed: serde_json::Value = serde_json::from_str(&body).unwrap();
    let entry = parsed.get("0").unwrap().get("json").unwrap();
    assert_eq!(entry.get("emailOrUsername").unwrap(), "a\"b");
    assert_eq!(entry.get("password").unwrap(), "p\\q\nr");
}

#[test]
fn redeem_url_carries_the_batch_size() {
    assert_eq!(
        redeem_url(3),
        "https://api.acedia.gg/trpc/license.claim?batch=3"
    );
    assert_eq!(
        redeem_url(12),
        "https://api.acedia.gg/trpc/license.claim?batch=12"
    );
    assert_eq!(
        redeem_url(0),
        "https://api.acedia.gg/trpc/license.claim?batch=0"
    );
}

#[test]
fn bearer_value_prefixes_the_token() {
    assert_eq!(bearer_value("tok123"), "Bearer tok123");
    assert_eq!(bearer_value(""), "Bearer ");
}
