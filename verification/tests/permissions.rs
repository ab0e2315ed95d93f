use wotold_core::error::AppError;
use wotold_core::permissions::{privacy_pane_url, recording_pane_url, reset_failed, tcc_service, TCCUTIL_PATH};

#[test]
fn known_panes_resolve_everywhere() {
    for pane in ["microphone", "screen_recording"] {
        assert!(tcc_service(pane).is_ok(), "нет TCC-сервиса для {pane}");
        assert!(privacy_pane_url(pane).is_ok(), "нет URL панели для {pane}");
    }
}

#[test]
fn unknown_pane_is_rejected_not_passed_through() {
    for pane in ["accessibility", "Camera", "All", "", "microphone; rm -rf /"] {
        assert!(tcc_service(pane).is_err(), "принял сервис {pane:?}");
        assert!(privacy_pane_url(pane).is_err(), "принял URL {pane:?}");
    }
}

#[test]
fn tccutil_is_resolved_by_absolute_path() {
    assert!(TCCUTIL_PATH.starts_with('/'), "PATH-резолвинг запрещён");
}

#[test]
fn reset_error_code_is_distinct_from_permission_denial() {
    let message = reset_failed("Microphone", "exit status: 1");
    assert!(message.starts_with("permission reset failed:"));
    assert!(!message.contains("permission denied"));
}

#[test]
fn pane_values_are_exact() {
    assert_eq!(tcc_service("microphone").unwrap(), "Microphone");
    assert_eq!(tcc_service("screen_recording").unwrap(), "ScreenCapture");
    assert_eq!(
        privacy_pane_url("microphone").unwrap(),
        "x-apple.systempreferences:com.apple.preference.security?Privacy_Microphone"
    );
    match tcc_service("Camera") {
        Err(AppError::Other(m)) => assert_eq!(m, "unknown pane: Camera"),
        _ => panic!("unknown pane must be an Other error"),
    }
    assert_eq!(
        reset_failed("Microphone", "exit status: 1"),
        "permission reset failed: Microphone (exit status: 1)"
    );
}

#[test]
fn recording_window_also_opens_accessibility() {
    assert_eq!(
        recording_pane_url("accessibility").unwrap(),
        "x-apple.systempreferences:com.apple.preference.security?Privacy_Accessibility"
    );
    assert_eq!(
        recording_pane_url("screen_recording").unwrap(),
        "x-apple.systempreferences:com.apple.preference.security?Privacy_ScreenCapture"
    );
    assert!(recording_pane_url("camera").is_err());
}
