use wotold_core::silence::{
    auto_stop_proceeds, parse_auto_stop_min, setting_switched_off, silence_scale,
    silence_thresholds, trimmed_tail_ms, DEFAULT_AUTO_STOP_MIN,
};

#[test]
fn parses_allowed_thresholds() {
    assert_eq!(parse_auto_stop_min(Some("30")), Some(30));
    assert_eq!(parse_auto_stop_min(Some("60")), Some(60));
    assert_eq!(parse_auto_stop_min(Some("120")), Some(120));
}

#[test]
fn never_disables_auto_stop() {
    assert_eq!(parse_auto_stop_min(Some("never")), None);
}

#[test]
fn missing_setting_falls_back_to_default() {
    assert_eq!(parse_auto_stop_min(None), Some(DEFAULT_AUTO_STOP_MIN));
}

#[test]
fn garbage_falls_back_to_default_not_to_never() {
    for raw in ["", "0", "-5", "45", "9999999999999999999999", "тридцать"] {
        assert_eq!(
            parse_auto_stop_min(Some(raw)),
            Some(DEFAULT_AUTO_STOP_MIN),
            "{raw:?}"
        );
    }
}

#[test]
fn switches_turn_off_only_on_zero_or_false() {
    assert!(setting_switched_off(Some("0")));
    assert!(setting_switched_off(Some("false")));
    assert!(!setting_switched_off(Some("1")));
    assert!(!setting_switched_off(None));
}

#[test]
fn thresholds_from_settings() {
    let t = silence_thresholds(None, Some("60"), 1, 15 * 60 * 1000);
    assert_eq!(t.suggest_after_ms, Some(15 * 60 * 1000));
    assert_eq!(t.auto_stop_after_ms, Some(60 * 60 * 1000));
    let off = silence_thresholds(Some("false"), Some("never"), 60, 900_000);
    assert_eq!(off.suggest_after_ms, None);
    assert_eq!(off.auto_stop_after_ms, None);
    let scaled = silence_thresholds(None, None, 60, 900_000);
    assert_eq!(scaled.suggest_after_ms, Some(15_000));
    assert_eq!(scaled.auto_stop_after_ms, Some(30_000));
}

#[test]
fn silence_scale_only_in_debug_and_bounded() {
    assert_eq!(silence_scale(Some("60"), false), 1);
    assert_eq!(silence_scale(Some("60"), true), 60);
    assert_eq!(silence_scale(None, true), 1);
}

#[test]
fn pending_auto_stop_is_cancelled_only_by_never() {
    assert!(!auto_stop_proceeds(Some(None)));
    assert!(auto_stop_proceeds(Some(Some(1_800_000))));
    assert!(auto_stop_proceeds(None));
}

#[test]
fn trimmed_tail_is_time_past_the_cut() {
    assert_eq!(trimmed_tail_ms(1_000_000, 400_000), 600_000);
    assert_eq!(trimmed_tail_ms(100, 400_000), 0);
    assert_eq!(trimmed_tail_ms(-5, 0), 0);
}
