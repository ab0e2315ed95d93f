use wotold_core::db::chunks::ChunkRow;
use wotold_core::error::AppError;
use wotold_core::recording::{
    check_start, check_stop, final_chunk_end_ms, is_accidental_tap, plan_final_chunk, recorded_seconds, stop_timing,
    FinalChunkAction, ALREADY_RECORDING, NOT_RECORDING, NO_MIC_PERMISSION, NO_SCREEN_PERMISSION,
};

#[test]
fn short_tap_is_discarded() {
    assert!(is_accidental_tap(5_000, 0));
    assert!(is_accidental_tap(29_999, 0));
}

#[test]
fn long_recording_is_kept() {
    assert!(!is_accidental_tap(30_000, 0));
    assert!(!is_accidental_tap(30 * 60 * 1_000, 0));
}

#[test]
fn pause_time_does_not_count_towards_the_gate() {
    assert!(is_accidental_tap(60_000, 50_000));
}

#[test]
fn auto_stopped_silent_recording_survives_the_gate() {
    let elapsed_ms = 30 * 60 * 1_000;
    let trimmed_ms = 5_000;
    assert!(!is_accidental_tap(elapsed_ms, 0));
    assert!(
        is_accidental_tap(trimmed_ms, 0),
        "по подрезанной длительности гейт сработал бы — именно это и чинили"
    );
}

fn row(idx: u32, status: &str) -> ChunkRow {
    ChunkRow {
        call_id: "c1".into(),
        chunk_idx: idx,
        start_ms: 0,
        end_ms: None,
        mic_path: String::new(),
        system_path: String::new(),
        status: status.into(),
        transcript_json: None,
        system_transcript_json: None,
        embeddings_json: None,
    }
}

#[test]
fn plan_final_chunk_runs_when_absent() {
    assert_eq!(
        plan_final_chunk(&[row(0, "done")], 1),
        FinalChunkAction::Run
    );
    assert_eq!(plan_final_chunk(&[], 0), FinalChunkAction::Run);
}

#[test]
fn plan_final_chunk_runs_when_pending() {
    assert_eq!(
        plan_final_chunk(&[row(2, "pending")], 2),
        FinalChunkAction::Run
    );
}

#[test]
fn plan_final_chunk_reset_when_failed() {
    assert_eq!(
        plan_final_chunk(&[row(2, "failed")], 2),
        FinalChunkAction::RunAfterReset
    );
}

#[test]
fn plan_final_chunk_skips_when_done_or_processing() {
    assert_eq!(
        plan_final_chunk(&[row(1, "done")], 1),
        FinalChunkAction::Skip
    );
    assert_eq!(
        plan_final_chunk(&[row(1, "processing")], 1),
        FinalChunkAction::Skip
    );
}

#[test]
fn stop_timing_folds_open_pause_and_trim() {
    let t = stop_timing(600_000, 10_000, 5_000, Some(300_000)).unwrap();
    assert_eq!(t.paused_ms, 15_000);
    assert_eq!(t.recorded_ms, 285_000);
    assert!(!t.discard);
    let short = stop_timing(40_000, 20_000, 0, None).unwrap();
    assert_eq!(short.recorded_ms, 20_000);
    assert!(short.discard);
}

#[test]
fn final_chunk_end_uses_duration_or_total() {
    assert_eq!(final_chunk_end_ms(600_000, 12_000, 0), 612_000);
    assert_eq!(final_chunk_end_ms(600_000, 0, 650_000), 650_000);
    assert_eq!(final_chunk_end_ms(600_000, 0, 100), 600_000);
}

fn other_message(r: Result<(), AppError>) -> String {
    match r {
        Err(AppError::Other(m)) => m,
        _ => panic!("expected an Other error"),
    }
}

#[test]
fn start_is_refused_in_order() {
    assert_eq!(other_message(check_start(true, "denied", "denied")), ALREADY_RECORDING);
    assert_eq!(other_message(check_start(false, "denied", "granted")), NO_MIC_PERMISSION);
    assert_eq!(other_message(check_start(false, "granted", "denied")), NO_SCREEN_PERMISSION);
    assert!(check_start(false, "granted", "granted").is_ok());
}

#[test]
fn stop_without_recording_is_refused() {
    assert!(check_stop(true).is_ok());
    match check_stop(false) {
        Err(AppError::Other(m)) => assert_eq!(m, NOT_RECORDING),
        other => panic!("unexpected {other:?}"),
    }
}

#[test]
fn stop_timing_saturates_the_pause_total() {
    let t = stop_timing(60_000, i64::MAX, 5_000, None).unwrap();
    assert_eq!(t.paused_ms, i64::MAX);
    assert_eq!(t.recorded_ms, 0);
    assert!(t.discard);
    // A negative stored total is taken as it is, not refused.
    let n = stop_timing(60_000, -1_000, 0, None).unwrap();
    assert_eq!(n.paused_ms, -1_000);
    assert_eq!(n.recorded_ms, 61_000);
}

#[test]
fn stop_timing_reports_an_overflow_as_none() {
    assert!(stop_timing(i64::MAX, -1, 0, None).is_none());
}

#[test]
fn stop_timing_takes_a_huge_trim_point_as_a_cast_gives_it() {
    // u64::MAX as i64 is -1: the effective end is -1 ms, clamped to nothing.
    let t = stop_timing(60_000, 0, 0, Some(u64::MAX)).unwrap();
    assert_eq!(t.recorded_ms, 0);
    assert!(!t.discard);
}

#[test]
fn stored_duration_rounds_to_whole_seconds() {
    assert_eq!(recorded_seconds(0), 0);
    assert_eq!(recorded_seconds(499), 0);
    assert_eq!(recorded_seconds(500), 1);
    assert_eq!(recorded_seconds(285_000), 285);
    assert_eq!(recorded_seconds(1_499), 1);
    assert_eq!(recorded_seconds(1_500), 2);
    assert_eq!(recorded_seconds(i64::MAX), i64::MAX / 1000 + 1);
    // The same as rounding the seconds as a float, for ordinary durations.
    for ms in [0i64, 1, 499, 500, 501, 59_999, 3_600_500, 86_400_499] {
        assert_eq!(recorded_seconds(ms), ((ms as f64) / 1000.0).round() as i64);
    }
}
