use wotold_core::notify::{clamp, notification_body, notification_title, MAX_BODY_CHARS, MAX_TITLE_CHARS};

#[test]
fn clamp_cuts_by_chars_not_bytes() {
    assert_eq!(clamp("Привет", 5), "Приве");
    assert_eq!(clamp("Привет", 100), "Привет");
    assert_eq!(clamp("", 10), "");
}

#[test]
fn clamp_is_a_noop_for_short_strings() {
    assert_eq!(clamp("ok", MAX_TITLE_CHARS), "ok");
}

#[test]
fn clamp_prefix_law_on_values() {
    let s = "абвгдеёжз";
    for n in 0..12 {
        let c = clamp(s, n);
        assert!(s.starts_with(&c));
        assert_eq!(c.chars().count(), n.min(9));
    }
}

#[test]
fn notification_texts_are_clamped() {
    let long = "x".repeat(1000);
    assert_eq!(notification_title(&long).chars().count(), MAX_TITLE_CHARS);
    assert_eq!(notification_body(&long).chars().count(), MAX_BODY_CHARS);
    assert_eq!(notification_title("a\nb"), "a b");
}
