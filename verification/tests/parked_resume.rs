use wotold_core::parked_resume::{
    next_tries_marker, parse_tries_marker, plan_parked_resume, ParkedFacts, ParkedPlan, ParkedResumeRun,
    ParkedStep,
    PARKED_RESUME_MAX_PER_EVENT, PARKED_RESUME_MAX_TRIES,
};

fn facts(has_transcript: bool, has_audio: bool, tries: u32) -> ParkedFacts {
    ParkedFacts {
        has_transcript,
        has_audio,
        tries,
    }
}

#[test]
fn transcript_present_means_plain_reprocess() {
    assert_eq!(
        plan_parked_resume(0, &facts(true, true, 0)),
        ParkedPlan::Reprocess
    );
}

#[test]
fn no_transcript_goes_through_recovery() {
    assert_eq!(
        plan_parked_resume(0, &facts(false, true, 0)),
        ParkedPlan::Recover
    );
}

#[test]
fn without_audio_there_is_nothing_to_resume() {
    assert_eq!(
        plan_parked_resume(0, &facts(true, false, 0)),
        ParkedPlan::SkipNoAudio
    );
    assert_eq!(
        plan_parked_resume(0, &facts(false, false, 0)),
        ParkedPlan::SkipNoAudio
    );
}

#[test]
fn tries_limit_stops_a_permanently_failing_call() {
    assert_eq!(
        plan_parked_resume(0, &facts(true, true, PARKED_RESUME_MAX_TRIES)),
        ParkedPlan::SkipTriesExhausted
    );
    assert_eq!(
        plan_parked_resume(0, &facts(true, true, PARKED_RESUME_MAX_TRIES - 1)),
        ParkedPlan::Reprocess
    );
}

#[test]
fn per_event_cap_wins_over_everything_else() {
    assert_eq!(
        plan_parked_resume(PARKED_RESUME_MAX_PER_EVENT, &facts(true, true, 0)),
        ParkedPlan::StopCapReached
    );
    assert_eq!(
        plan_parked_resume(PARKED_RESUME_MAX_PER_EVENT, &facts(false, false, 99)),
        ParkedPlan::StopCapReached
    );
}

#[test]
fn cap_boundary_lets_the_last_slot_through() {
    assert_eq!(
        plan_parked_resume(PARKED_RESUME_MAX_PER_EVENT - 1, &facts(false, true, 0)),
        ParkedPlan::Recover
    );
}

#[test]
fn tries_marker_round_trip() {
    assert_eq!(parse_tries_marker(None), 0);
    assert_eq!(parse_tries_marker(Some("garbage")), 0);
    let m = next_tries_marker(1);
    assert_eq!(parse_tries_marker(Some(&m)), 2);
}

#[test]
fn parked_run_writes_the_marker_before_each_start_and_keeps_its_cap() {
    let mut run = ParkedResumeRun::new();
    // No audio: skipped, nothing to write.
    match run.on_call(&facts(true, false, 0)) {
        ParkedStep::Skip(ParkedPlan::SkipNoAudio) => {}
        other => panic!("unexpected {other:?}"),
    }
    let mut launched = 0;
    for i in 0..(PARKED_RESUME_MAX_PER_EVENT + 3) {
        match run.on_call(&facts(i % 2 == 0, true, 1)) {
            ParkedStep::Launch { plan, marker } => {
                assert_eq!(marker, "2");
                assert_eq!(plan, if i % 2 == 0 { ParkedPlan::Reprocess } else { ParkedPlan::Recover });
                launched += 1;
                run.on_launched(true);
            }
            ParkedStep::Skip(p) => assert_eq!(p, ParkedPlan::StopCapReached),
        }
    }
    assert_eq!(launched, PARKED_RESUME_MAX_PER_EVENT);
    assert_eq!(run.started(), PARKED_RESUME_MAX_PER_EVENT);
    assert_eq!(run.deferred(), 3);
}

#[test]
fn parked_run_does_not_count_a_failed_start() {
    let mut run = ParkedResumeRun::new();
    assert!(matches!(run.on_call(&facts(false, true, 0)), ParkedStep::Launch { .. }));
    run.on_launched(false);
    assert_eq!(run.started(), 0);
    // A second report without a start asked for changes nothing.
    run.on_launched(true);
    assert_eq!(run.started(), 0);
}
