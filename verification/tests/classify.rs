use pasteboost::classify::{
    appears_sensitive, classify_trimmed, contains_secret_label, infer_type, prepare_text_entry,
    ContentKind,
};

#[test]
fn infer_json() {
    assert_eq!(infer_type("  {\"a\": [1, 2]}  "), "json");
    assert_eq!(infer_type("42"), "json");
    assert_eq!(infer_type("\"quoted\""), "json");
    assert_eq!(infer_type("null"), "json");
}

#[test]
fn infer_url() {
    assert_eq!(infer_type("https://example.com/a?b=c"), "url");
    assert_eq!(infer_type("  http://x "), "url");
    assert_eq!(infer_type("ftp://example.com"), "text");
}

#[test]
fn infer_email() {
    assert_eq!(infer_type("someone@example.com"), "email");
    assert_eq!(infer_type("mail me at someone@example.com"), "text");
}

#[test]
fn infer_code() {
    assert_eq!(infer_type("SELECT * FROM t"), "code");
    assert_eq!(infer_type("const x = 1;"), "code");
    assert_eq!(infer_type("import os"), "code");
    assert_eq!(infer_type("Update the doc"), "code");
    assert_eq!(infer_type("selection"), "text");
}

#[test]
fn infer_text() {
    assert_eq!(infer_type("hello world"), "text");
    assert_eq!(infer_type(""), "text");
    assert_eq!(infer_type("你好"), "text");
}

#[test]
fn classify_with_given_parts() {
    assert_eq!(classify_trimmed("anything", true, "anything"), ContentKind::Json);
    assert_eq!(classify_trimmed("https://a", false, "https://a"), ContentKind::Url);
    assert_eq!(classify_trimmed("a@b", false, "a@b"), ContentKind::Email);
    assert_eq!(classify_trimmed("a @b", false, "a @b"), ContentKind::Text);
    assert_eq!(classify_trimmed("X", false, "insert into"), ContentKind::Code);
    assert_eq!(ContentKind::Code.label(), "code");
}

#[test]
fn sensitive_labels() {
    assert!(appears_sensitive("My PASSWORD is hunter2"));
    assert!(appears_sensitive("passwd: x"));
    assert!(appears_sensitive("url?token=abc"));
    assert!(appears_sensitive("PWD=1"));
    assert!(appears_sensitive("api Secret=1"));
    assert!(appears_sensitive("您的验证码是 1234"));
    assert!(!appears_sensitive("token: abc"));
    assert!(!appears_sensitive("just text"));
}

#[test]
fn sensitive_one_time_codes() {
    assert!(appears_sensitive("123456"));
    assert!(appears_sensitive("  654321\n"));
    assert!(!appears_sensitive("12345"));
    assert!(!appears_sensitive("1234567"));
    assert!(!appears_sensitive("12a456"));
    assert!(!appears_sensitive("１２３４５６"));
}

#[test]
fn secret_label_on_lowered_text() {
    assert!(contains_secret_label("x password y"));
    assert!(!contains_secret_label("PASSWORD"));
}

#[test]
fn text_entry_decisions() {
    assert!(prepare_text_entry("   \n", false).is_none());
    assert!(prepare_text_entry("123456", true).is_none());
    let e = prepare_text_entry(" 123456 ", false).unwrap();
    assert_eq!(e.content, "123456");
    assert_eq!(e.kind, ContentKind::Json);
    let e = prepare_text_entry("  see https://example.com ", true).unwrap();
    assert_eq!(e.content, "see https://example.com");
    assert_eq!(e.kind, ContentKind::Text);
    let e = prepare_text_entry("\thttps://example.com\n", true).unwrap();
    assert_eq!(e.kind.label(), "url");
}

#[test]
fn kind_is_that_of_trimmed_text() {
    for s in ["  https://a ", "\u{3000}{}\n", " x@y ", "\tSELECT 1 ", "  hi  "] {
        assert_eq!(infer_type(s), infer_type(s.trim()));
    }
}
