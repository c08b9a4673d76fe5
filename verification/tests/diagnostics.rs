use semi_os::diagnostics::{is_sensitive_key, sanitize_text};
use semi_os::{DiagnosticRecord, DiagnosticStore, JsonValue};
use std::path::PathBuf;

fn object(members: Vec<(&str, JsonValue)>) -> JsonValue {
    JsonValue::object(
        members
            .into_iter()
            .map(|(key, value)| (key.to_owned(), value))
            .collect(),
    )
}

/// Every piece of text a record would be written with.
fn texts(value: &JsonValue, out: &mut Vec<String>) {
    match value {
        JsonValue::String(s) => out.push(s.clone()),
        JsonValue::Array(items) => items.iter().for_each(|item| texts(item, out)),
        JsonValue::Object(members) => members.iter().for_each(|(key, item)| {
            out.push(key.clone());
            texts(item, out);
        }),
        _ => {}
    }
}

#[test]
fn appends_jsonl_and_redacts_common_secret_shapes() {
    let store = DiagnosticStore::new(PathBuf::from("semi-os-diagnostics.jsonl"));
    let written = store.prepare(&DiagnosticRecord {
        timestamp_ms: 1,
        category: "worker".to_owned(),
        message: "authorization:secret token=abc ordinary".to_owned(),
        restart_count: 2,
        details: object(vec![
            ("api_key", JsonValue::string("key-value")),
            ("nested", object(vec![("accessToken", JsonValue::string("token-value"))])),
            ("clientSecret", JsonValue::string("client-secret-value")),
            ("privateKey", JsonValue::string("private-key-value")),
            ("access-key", JsonValue::string("access-key-value")),
            ("cookie", JsonValue::string("session-cookie-value")),
            ("safe", JsonValue::string("visible")),
        ]),
    });

    let mut all = vec![written.category.clone(), written.message.clone()];
    texts(&written.details, &mut all);
    let content = all.join("\n");
    assert!(!content.contains("secret"));
    assert!(!content.contains("abc"));
    assert!(!content.contains("key-value"));
    assert!(!content.contains("token-value"));
    assert!(!content.contains("client-secret-value"));
    assert!(!content.contains("private-key-value"));
    assert!(!content.contains("access-key-value"));
    assert!(!content.contains("session-cookie-value"));
    assert!(content.contains("[REDACTED]"));
    assert!(content.contains("visible"));
    assert_eq!(written.restart_count, 2);
    assert_eq!(store.path(), &PathBuf::from("semi-os-diagnostics.jsonl"));
}

#[test]
fn redacts_secret_words_and_normalizes_spacing() {
    assert_eq!(
        sanitize_text("authorization:secret token=abc ordinary"),
        "authorization=[REDACTED] token=[REDACTED] ordinary"
    );
    assert_eq!(sanitize_text("  API_KEY=xyz\tkeep  me\n"), "API_KEY=[REDACTED] keep me");
    assert_eq!(
        sanitize_text("apikey=1 Authorization: Bearer abc"),
        "apikey=[REDACTED] Authorization=[REDACTED] [REDACTED] [REDACTED]"
    );
    assert_eq!(
        sanitize_text("authorization=Bearer:abc"),
        "authorization=[REDACTED]"
    );
    assert_eq!(sanitize_text("tokens=fine"), "tokens=fine");
    assert_eq!(sanitize_text(""), "");
    assert_eq!(sanitize_text("   "), "");
}

#[test]
fn recognises_sensitive_keys_after_normalization() {
    for key in [
        "api_key", "accessToken", "clientSecret", "privateKey", "access-key", "cookie",
        "Set-Cookie", "Authorization", "PASSWORD", "passwd", "x_refresh_token", "tok en",
    ] {
        assert!(is_sensitive_key(key), "{key} should be sensitive");
    }
    for key in ["safe", "auth", "pass", "cookies", "authorization_mode"] {
        assert!(!is_sensitive_key(key), "{key} should not be sensitive");
    }
}

#[test]
fn redaction_reaches_into_arrays() {
    let store = DiagnosticStore::new(PathBuf::from("d.jsonl"));
    let written = store.prepare(&DiagnosticRecord {
        timestamp_ms: 7,
        category: "c".to_owned(),
        message: "m".to_owned(),
        restart_count: 0,
        details: JsonValue::array(vec![
            object(vec![("password", JsonValue::Bool(true))]),
            JsonValue::string("token=leak"),
        ]),
    });
    assert_eq!(
        written.details,
        JsonValue::array(vec![
            object(vec![("password", JsonValue::string("[REDACTED]"))]),
            JsonValue::string("token=[REDACTED]"),
        ])
    );
    assert_eq!(written.timestamp_ms, 7);
}

#[test]
fn detached_authorization_values_are_redacted() {
    let written = sanitize_text("Authorization: Bearer abc123");
    assert_eq!(written, "Authorization=[REDACTED] [REDACTED] [REDACTED]");
    assert!(!written.contains("abc123"));
    assert_eq!(
        sanitize_text("authorization= sk-live-1 next"),
        "authorization=[REDACTED] [REDACTED] next"
    );
    assert_eq!(
        sanitize_text("AUTHORIZATION: basic dXNlcjpwYXNz done"),
        "AUTHORIZATION=[REDACTED] [REDACTED] [REDACTED] done"
    );
    assert_eq!(sanitize_text("bearer token stays"), "bearer token stays");
}

#[test]
fn redacting_twice_changes_nothing() {
    for text in [
        "Authorization: Bearer abc123 token=x keep",
        "  API_KEY=xyz\tkeep  me\n",
        "authorization:secret token=abc ordinary",
    ] {
        let once = sanitize_text(text);
        assert_eq!(sanitize_text(&once), once);
    }
}
