use wotold_core::bulk_recap::{
    is_bulk_recap_target, select_bulk_recap_targets, BulkRecap, BulkRecapCandidate, BulkRecapDone,
    BulkRecapStep,
};

#[test]
fn bulk_targets_are_ready_with_transcript_and_blank_recap() {
    assert!(is_bulk_recap_target(true, true, true));
    assert!(!is_bulk_recap_target(false, true, true));
    assert!(!is_bulk_recap_target(true, false, true));
    assert!(!is_bulk_recap_target(true, true, false));
}

#[test]
fn bulk_run_counts_every_target() {
    let mut run = BulkRecap::new(vec!["a".into(), "b".into(), "c".into()]);
    assert_eq!(run.total(), 3);
    let mut outcomes = vec![true, false, true].into_iter();
    loop {
        match run.step(false) {
            BulkRecapStep::Regenerate(p) => {
                assert_eq!(p.total, 3);
                run.record(outcomes.next().unwrap());
            }
            BulkRecapStep::Finish(d) => {
                assert_eq!(d, BulkRecapDone { regenerated: 2, failed: 1, cancelled: false });
                break;
            }
        }
    }
}

#[test]
fn bulk_run_stops_on_cancel() {
    let mut run = BulkRecap::new(vec!["a".into(), "b".into()]);
    match run.step(false) {
        BulkRecapStep::Regenerate(p) => {
            assert_eq!((p.done, p.call_id.as_str()), (0, "a"));
            run.record(true);
        }
        _ => panic!(),
    }
    match run.step(true) {
        BulkRecapStep::Finish(d) => assert_eq!(d, BulkRecapDone { regenerated: 1, failed: 0, cancelled: true }),
        _ => panic!(),
    }
}

#[test]
fn bulk_run_without_targets_finishes_at_once() {
    let run = BulkRecap::new(Vec::new());
    match run.step(false) {
        BulkRecapStep::Finish(d) => assert_eq!(d, BulkRecapDone { regenerated: 0, failed: 0, cancelled: false }),
        _ => panic!(),
    }
}

fn cand(id: &str, ready: bool, has_transcript: bool, blank: bool) -> BulkRecapCandidate {
    BulkRecapCandidate {
        call_id: id.into(),
        ready,
        has_transcript,
        recap_missing_or_blank: blank,
    }
}

#[test]
fn bulk_targets_keep_the_list_order() {
    let cs = vec![
        cand("a", true, true, true),
        cand("b", false, true, true),
        cand("c", true, false, true),
        cand("d", true, true, false),
        cand("e", true, true, true),
    ];
    assert_eq!(select_bulk_recap_targets(&cs), vec!["a".to_string(), "e".to_string()]);
    assert!(select_bulk_recap_targets(&[]).is_empty());
}

#[test]
fn empty_bulk_run_is_not_cancelled_by_a_stale_flag() {
    let run = BulkRecap::new(Vec::new());
    match run.step(true) {
        BulkRecapStep::Finish(d) => assert_eq!(d, BulkRecapDone { regenerated: 0, failed: 0, cancelled: false }),
        _ => panic!(),
    }
}

#[test]
fn cancel_during_the_last_regeneration_is_not_reported() {
    let mut run = BulkRecap::new(vec!["a".into()]);
    assert!(matches!(run.step(false), BulkRecapStep::Regenerate(_)));
    run.record(false);
    match run.step(true) {
        BulkRecapStep::Finish(d) => assert_eq!(d, BulkRecapDone { regenerated: 0, failed: 1, cancelled: false }),
        _ => panic!(),
    }
}
