use wotold_core::db::calls::{
    call_not_found, call_title_to_store, elapsed_from, elapsed_since, resumed_total, call_transition, finish_refused, page_bounds, select_page,
    pause_outcome, processing_via, resume_update, silence_trim_point, CallStatus,
    CallTransition,
};
use wotold_core::error::AppError;

#[test]
fn status_machine_gates_transitions() {
    assert_eq!(call_transition(CallStatus::Recording, CallTransition::Finish), Some(CallStatus::Processing));
    assert_eq!(call_transition(CallStatus::Ready, CallTransition::Finish), None);
    assert_eq!(call_transition(CallStatus::Processing, CallTransition::Fail), Some(CallStatus::Failed));
    assert_eq!(call_transition(CallStatus::Ready, CallTransition::Fail), None);
    assert_eq!(call_transition(CallStatus::Recording, CallTransition::SweepStale), None);
    assert_eq!(call_transition(CallStatus::Processing, CallTransition::SweepStale), Some(CallStatus::Failed));
    assert_eq!(call_transition(CallStatus::Failed, CallTransition::MarkReady), Some(CallStatus::Ready));
}

#[test]
fn status_text_round_trip() {
    for s in [CallStatus::Recording, CallStatus::Processing, CallStatus::Ready, CallStatus::Failed] {
        assert_eq!(CallStatus::parse(s.as_str()), Some(s));
    }
    assert_eq!(CallStatus::parse("paused"), None);
}

#[test]
fn processing_via_prefers_local() {
    assert_eq!(processing_via(Some("local-qwen-3b"), Some("openai"), "managed"), Some("local"));
    assert_eq!(processing_via(None, Some("local"), "byo"), Some("local"));
    assert_eq!(processing_via(Some("cloud-managed"), Some("openai"), "byo"), Some("cloud_byo"));
    assert_eq!(processing_via(None, Some("openai"), "managed"), Some("cloud_managed"));
    assert_eq!(processing_via(None, None, "managed"), None);
    assert_eq!(processing_via(None, Some(""), "managed"), None);
}

#[test]
fn blank_title_keeps_stored_one() {
    assert_eq!(call_title_to_store("   "), None);
    assert_eq!(call_title_to_store("  Созвон с Анной "), Some("Созвон с Анной".to_string()));
}

#[test]
fn page_bounds_are_clamped() {
    assert_eq!(page_bounds(-1, -5), (0, 0));
    assert_eq!(page_bounds(50, 10), (50, 10));
    assert_eq!(page_bounds(5000, 0), (1000, 0));
}

#[test]
fn silence_trim_point_drops_non_positive() {
    assert_eq!(silence_trim_point(None), None);
    assert_eq!(silence_trim_point(Some(0)), None);
    assert_eq!(silence_trim_point(Some(-3)), None);
    assert_eq!(silence_trim_point(Some(1500)), Some(1500));
}

#[test]
fn error_messages_name_the_call() {
    match finish_refused("c1") {
        AppError::Other(m) => assert_eq!(m, "finish_recording: звонок c1 не в статусе 'recording'"),
        _ => panic!(),
    }
    match call_not_found("c1") {
        AppError::NotFound(m) => assert_eq!(m, "call c1 not found"),
        _ => panic!(),
    }
}

#[test]
fn pause_is_idempotent_and_reports_missing_call() {
    assert!(pause_outcome("c1", 1, true).is_ok());
    assert!(pause_outcome("c1", 0, true).is_ok());
    match pause_outcome("c1", 0, false) {
        Err(AppError::Other(m)) => assert_eq!(m, "pause_call: call c1 not found"),
        _ => panic!(),
    }
}

#[test]
fn resume_adds_the_open_pause() {
    let r = resume_update(
        "c1",
        Some((Some("2024-05-01T10:00:00+00:00".to_string()), 1_000)),
        "2024-05-01T10:00:02.5+00:00",
    )
    .unwrap();
    assert_eq!(r, Some(3_500));
    assert_eq!(resume_update("c1", Some((None, 1_000)), "2024-05-01T10:00:00+00:00").unwrap(), None);
    let back = resume_update(
        "c1",
        Some((Some("2024-05-01T10:00:05+00:00".to_string()), 7)),
        "2024-05-01T10:00:00+00:00",
    )
    .unwrap();
    assert_eq!(back, Some(7));
    match resume_update("c1", None, "2024-05-01T10:00:00+00:00") {
        Err(AppError::Other(m)) => assert_eq!(m, "resume_call: call c1 not found"),
        _ => panic!(),
    }
    match resume_update("c1", Some((Some("вчера".to_string()), 0)), "2024-05-01T10:00:00+00:00") {
        Err(AppError::Other(m)) => assert!(m.starts_with("paused_at parse failed: ")),
        _ => panic!(),
    }
}

#[test]
fn elapsed_since_counts_whole_ms_and_never_negative() {
    assert_eq!(elapsed_since(Some("2024-05-01T10:00:00Z"), "2024-05-01T10:01:00.0009Z"), 60_000);
    assert_eq!(elapsed_since(Some("2024-05-01T10:00:05Z"), "2024-05-01T10:00:00Z"), 0);
    assert_eq!(elapsed_since(None, "2024-05-01T10:00:00Z"), 0);
    assert_eq!(elapsed_since(Some("bad"), "2024-05-01T10:00:00Z"), 0);
}

#[test]
fn resumed_total_saturates_and_ignores_negative_spans() {
    assert_eq!(resumed_total(1_000, 2_500), 3_500);
    assert_eq!(resumed_total(1_000, -50), 1_000);
    assert_eq!(resumed_total(i64::MAX - 1, 10), i64::MAX);
    assert_eq!(elapsed_from(Some(-3)), 0);
    assert_eq!(elapsed_from(Some(42)), 42);
    assert_eq!(elapsed_from(None), 0);
}

#[test]
fn page_is_the_matching_slice_of_the_full_list() {
    let full: Vec<u32> = (0..10).collect();
    assert_eq!(select_page(full.clone(), 3, 0), vec![0, 1, 2]);
    assert_eq!(select_page(full.clone(), 3, 3), vec![3, 4, 5]);
    assert_eq!(select_page(full.clone(), 3, 9), vec![9]);
    assert_eq!(select_page(full.clone(), 3, 10), Vec::<u32>::new());
    assert_eq!(select_page(full.clone(), -1, 0), Vec::<u32>::new());
    assert_eq!(select_page(full.clone(), 2, -5), vec![0, 1]);
    assert_eq!(select_page(full.clone(), 5_000, 0), full);
    let big: Vec<u32> = (0..1_500).collect();
    assert_eq!(select_page(big, i64::MAX, 0).len(), 1_000);
}
