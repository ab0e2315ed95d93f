use wotold_core::call_store::{
    audio_file_name, audio_missing, audio_source_after_merge, audio_source_first, call_has_audio,
    AudioPresence, AudioSource,
};
use wotold_core::db::chunks::{
    all_chunks_done, chunk_gate, chunk_info_views, mark_chunk_done, mark_chunk_failed, mark_chunk_pending,
    mark_chunk_processing, plan_chunk_retry, resume_after_retry, ChunkRow, ChunkStatus, ChunkTransition,
};
use wotold_core::error::AppError;

fn chunk_at(idx: u32, status: &str, start: i64, end: Option<i64>) -> ChunkRow {
    ChunkRow {
        call_id: "c1".into(),
        chunk_idx: idx,
        start_ms: start,
        end_ms: end,
        mic_path: String::new(),
        system_path: String::new(),
        status: status.into(),
        transcript_json: None,
        system_transcript_json: None,
        embeddings_json: None,
    }
}

#[test]
fn chunk_gates_follow_the_state_machine() {
    assert_eq!(chunk_gate(ChunkTransition::ToPending), (Some(ChunkStatus::Failed), ChunkStatus::Pending));
    assert_eq!(chunk_gate(ChunkTransition::ToDone), (Some(ChunkStatus::Processing), ChunkStatus::Done));
    assert_eq!(chunk_gate(ChunkTransition::ToFailed), (None, ChunkStatus::Failed));
    assert_eq!(ChunkStatus::parse("done"), Some(ChunkStatus::Done));
    assert_eq!(ChunkStatus::Processing.as_str(), "processing");
}

#[test]
fn all_done_needs_at_least_one_chunk() {
    assert!(!all_chunks_done(0, 0));
    assert!(all_chunks_done(3, 3));
    assert!(!all_chunks_done(3, 2));
}

#[test]
fn retry_only_of_failed_chunks() {
    let rows = vec![chunk_at(0, "done", 0, Some(600_000)), chunk_at(1, "failed", 600_000, Some(1_200_000))];
    assert_eq!(plan_chunk_retry("c1", &rows, 1).unwrap(), (600_000, 1_200_000));
    match plan_chunk_retry("c1", &rows, 0) {
        Err(AppError::Other(m)) => assert_eq!(m, "retry_chunk: chunk c1/0 status=done (need 'failed')"),
        _ => panic!("only failed chunks are retried"),
    }
    match plan_chunk_retry("c1", &rows, 7) {
        Err(AppError::NotFound(m)) => assert_eq!(m, "chunk c1/7 not found"),
        _ => panic!("missing chunk is NotFound"),
    }
    let open = vec![chunk_at(2, "failed", 5, None)];
    assert_eq!(plan_chunk_retry("c1", &open, 2).unwrap(), (5, 5));
}

#[test]
fn chunk_strip_keeps_rows_in_order() {
    let v = chunk_info_views(vec![chunk_at(0, "done", 0, Some(1)), chunk_at(1, "pending", 1, None)]);
    assert_eq!(v.len(), 2);
    assert_eq!(v[1].chunk_idx, 1);
    assert_eq!(v[1].status, "pending");
}

#[test]
fn audio_presence_counts_chunks() {
    let none = AudioPresence { mic_exists: false, system_exists: false, mic_chunk_wavs: 0, system_chunk_wavs: 0 };
    assert!(!call_has_audio(&none));
    let chunk_only = AudioPresence { system_chunk_wavs: 1, ..none };
    assert!(call_has_audio(&chunk_only));
}

#[test]
fn retry_resumes_pipeline_only_when_everything_is_done() {
    assert!(resume_after_retry(true, "failed", false));
    assert!(resume_after_retry(true, "ready", true));
    assert!(!resume_after_retry(true, "ready", false));
    assert!(!resume_after_retry(true, "recording", true));
    assert!(!resume_after_retry(false, "failed", false));
}

#[test]
fn player_audio_falls_back_to_merge_then_first_chunk() {
    assert_eq!(audio_source_first(true, true), AudioSource::Root);
    assert_eq!(audio_source_first(false, true), AudioSource::MergeChunks);
    assert_eq!(audio_source_first(false, false), AudioSource::Missing);
    assert_eq!(audio_source_after_merge(true, true), AudioSource::Root);
    assert_eq!(audio_source_after_merge(false, true), AudioSource::FirstChunk);
    assert_eq!(audio_source_after_merge(false, false), AudioSource::Missing);
    assert_eq!(audio_file_name("mic").unwrap(), "mic.wav");
    assert_eq!(audio_file_name("system").unwrap(), "system.wav");
    match audio_file_name("camera") {
        Err(AppError::Other(m)) => assert_eq!(m, "unknown audio kind: camera"),
        _ => panic!(),
    }
    match audio_missing("mic.wav", "c1") {
        AppError::Other(m) => assert_eq!(m, "audio file mic.wav не найден для звонка c1"),
        _ => panic!(),
    }
}

fn refusal(r: Result<ChunkRow, AppError>) -> String {
    match r {
        Err(AppError::Other(m)) => m,
        other => panic!("expected a refusal, got {other:?}"),
    }
}

#[test]
fn mark_pending_from_failed_ok() {
    let failed = mark_chunk_failed(Some(chunk_at(0, "pending", 0, None))).unwrap();
    assert_eq!(failed.status, "failed");
    let row = mark_chunk_pending("c1", 0, Some(failed)).unwrap();
    assert_eq!(row.status, "pending");
}

#[test]
fn mark_pending_from_pending_errors() {
    let m = refusal(mark_chunk_pending("c1", 0, Some(chunk_at(0, "pending", 0, None))));
    assert!(m.contains("not in 'failed' status"), "expected FSM err, got: {m}");
}

#[test]
fn mark_pending_from_processing_errors() {
    let running = mark_chunk_processing("c1", 0, Some(chunk_at(0, "pending", 0, None))).unwrap();
    let m = refusal(mark_chunk_pending("c1", 0, Some(running)));
    assert!(m.contains("not in 'failed' status"));
    assert_eq!(m, "mark_chunk_pending: chunk c1/0 not in 'failed' status");
}

#[test]
fn mark_processing_changes_status() {
    let row = mark_chunk_processing("c1", 3, Some(chunk_at(3, "pending", 0, None))).unwrap();
    assert_eq!(row.status, "processing");
    let m = refusal(mark_chunk_processing("c1", 3, Some(row)));
    assert_eq!(m, "mark_chunk_processing: chunk c1/3 not in 'pending' status");
}

#[test]
fn mark_done_sets_end_ms_and_transcript() {
    let running = mark_chunk_processing("c1", 0, Some(chunk_at(0, "pending", 0, None))).unwrap();
    let row = mark_chunk_done("c1", 0, Some(running), 600_000, r#"{"mic":1}"#, Some(r#"{"sys":1}"#), Some("{}"))
        .unwrap();
    assert_eq!(row.status, "done");
    assert_eq!(row.end_ms, Some(600_000));
    assert_eq!(row.transcript_json.as_deref(), Some(r#"{"mic":1}"#));
    assert_eq!(row.system_transcript_json.as_deref(), Some(r#"{"sys":1}"#));
    assert_eq!(row.embeddings_json.as_deref(), Some("{}"));
    assert_eq!(row.start_ms, 0);
}

#[test]
fn mark_done_rejects_non_processing_status() {
    // Skip processing: done straight from pending is refused.
    let res = mark_chunk_done("c1", 0, Some(chunk_at(0, "pending", 0, None)), 600_000, "{}", None, None);
    assert!(res.is_err());
    assert_eq!(refusal(res), "mark_chunk_done: chunk c1/0 not in 'processing' status");
}

#[test]
fn mark_on_a_missing_chunk_is_refused_and_failure_is_a_no_op() {
    assert_eq!(refusal(mark_chunk_pending("c9", 12, None)), "mark_chunk_pending: chunk c9/12 not in 'failed' status");
    assert!(mark_chunk_failed(None).is_none());
}

#[test]
fn mark_failed_accepts_any_status() {
    for s in ["pending", "processing", "done", "failed"] {
        assert_eq!(mark_chunk_failed(Some(chunk_at(0, s, 5, Some(9)))).unwrap().status, "failed");
    }
}
