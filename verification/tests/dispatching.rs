use keysnipe::dispatch::{attachment_keys, origin_allowed, plan_message, Config, Credentials};

fn test_config() -> Config {
    Config {
        discord_token: "chat-token".to_string(),
        api_credentials: Credentials {
            login: "user".to_string(),
            password: "pass".to_string(),
        },
        server_ids: vec![10, 20],
        key_lengths: vec![4],
        snipe_images: true,
        strict: false,
        skip_urls: false,
    }
}

#[test]
fn message_from_a_disallowed_origin_yields_nothing() {
    let config = test_config();
    let (keys, scan) = plan_message(&config, 30, "AB12 CD34");
    assert!(keys.is_empty());
    assert!(!scan);
}

#[test]
fn message_from_an_allowed_origin_yields_its_candidates() {
    let config = test_config();
    let (keys, scan) = plan_message(&config, 10, "AB12 xy CD34");
    assert_eq!(keys, vec!["AB12".to_string(), "CD34".to_string()]);
    assert!(scan);
}

#[test]
fn attachment_scan_follows_the_image_flag() {
    let mut config = test_config();
    config.snipe_images = false;
    let (keys, scan) = plan_message(&config, 20, "AB12");
    assert_eq!(keys, vec!["AB12".to_string()]);
    assert!(!scan);
}

#[test]
fn origin_membership_is_exact() {
    let ids = vec![1i64, -5i64];
    assert!(origin_allowed(1, &ids));
    assert!(origin_allowed(-5, &ids));
    assert!(!origin_allowed(2, &ids));
    assert!(!origin_allowed(5, &ids));
}

#[test]
fn failed_attachment_yields_zero_candidates() {
    let lengths = vec![4usize];
    let keys = attachment_keys(&None, &lengths, false, false);
    assert!(keys.is_empty());
}

#[test]
fn recognized_attachment_text_is_extracted() {
    let lengths = vec![4usize];
    let text = Some("scanned AB12 noise".to_string());
    let keys = attachment_keys(&text, &lengths, false, false);
    assert_eq!(keys, vec!["AB12".to_string()]);
}
