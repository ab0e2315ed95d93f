use wotold_core::recovery::{
    parse_headless_target, plan_auto_recovery, AutoRecoverPlan, AutoRecoverRun, CandidateFacts,
    RecoverStep,
    AUTO_RECOVER_MAX_PER_STARTUP, AUTO_RECOVER_MAX_TRIES,
};

fn facts() -> CandidateFacts {
    CandidateFacts {
        is_headless_target: false,
        has_transcript: false,
        has_audio: true,
        tries: 0,
    }
}

#[test]
fn plan_recovers_fresh_interrupted_call() {
    assert_eq!(plan_auto_recovery(0, &facts()), AutoRecoverPlan::Recover);
}

#[test]
fn plan_stops_at_startup_cap() {
    assert_eq!(
        plan_auto_recovery(AUTO_RECOVER_MAX_PER_STARTUP, &facts()),
        AutoRecoverPlan::StopCapReached
    );
    assert_eq!(
        plan_auto_recovery(AUTO_RECOVER_MAX_PER_STARTUP - 1, &facts()),
        AutoRecoverPlan::Recover,
        "последний слот под лимитом ещё наш"
    );
}

#[test]
fn plan_cap_wins_over_everything_else() {
    let hopeless = CandidateFacts {
        is_headless_target: true,
        has_transcript: true,
        has_audio: false,
        tries: 99,
    };
    assert_eq!(
        plan_auto_recovery(AUTO_RECOVER_MAX_PER_STARTUP, &hopeless),
        AutoRecoverPlan::StopCapReached
    );
}

#[test]
fn plan_skips_call_owned_by_headless_trigger() {
    let f = CandidateFacts {
        is_headless_target: true,
        ..facts()
    };
    assert_eq!(
        plan_auto_recovery(0, &f),
        AutoRecoverPlan::SkipHeadlessOwned
    );
}

#[test]
fn plan_skips_already_transcribed_call() {
    let f = CandidateFacts {
        has_transcript: true,
        ..facts()
    };
    assert_eq!(
        plan_auto_recovery(0, &f),
        AutoRecoverPlan::SkipAlreadyTranscribed
    );
}

#[test]
fn plan_skips_call_without_audio() {
    let f = CandidateFacts {
        has_audio: false,
        ..facts()
    };
    assert_eq!(plan_auto_recovery(0, &f), AutoRecoverPlan::SkipNoAudio);
}

#[test]
fn plan_stops_retrying_after_limit() {
    let f = CandidateFacts {
        tries: AUTO_RECOVER_MAX_TRIES,
        ..facts()
    };
    assert_eq!(
        plan_auto_recovery(0, &f),
        AutoRecoverPlan::SkipTriesExhausted
    );
    let last = CandidateFacts {
        tries: AUTO_RECOVER_MAX_TRIES - 1,
        ..facts()
    };
    assert_eq!(
        plan_auto_recovery(0, &last),
        AutoRecoverPlan::Recover,
        "последняя попытка ещё разрешена"
    );
}

#[test]
fn headless_target_ignores_blank_value() {
    assert_eq!(parse_headless_target(None), None);
    assert_eq!(parse_headless_target(Some("   ".into())), None);
    assert_eq!(
        parse_headless_target(Some("  call-42 ".into())).as_deref(),
        Some("call-42"),
        "trim обязан совпадать с тем, что использует сам триггер"
    );
}

#[test]
fn recovery_run_stops_at_the_cap_and_stays_stopped() {
    let mut run = AutoRecoverRun::new();
    let mut owned = facts();
    owned.is_headless_target = true;
    assert!(matches!(run.on_candidate(&owned), RecoverStep::Skip(AutoRecoverPlan::SkipHeadlessOwned)));
    for _ in 0..AUTO_RECOVER_MAX_PER_STARTUP {
        match run.on_candidate(&facts()) {
            RecoverStep::Launch { marker } => assert_eq!(marker, "1"),
            other => panic!("unexpected {other:?}"),
        }
        run.on_launched(true);
    }
    assert_eq!(run.started(), AUTO_RECOVER_MAX_PER_STARTUP);
    assert!(matches!(run.on_candidate(&facts()), RecoverStep::Stop));
    assert!(matches!(run.on_candidate(&owned), RecoverStep::Stop));
}

#[test]
fn recovery_run_does_not_count_a_failed_start() {
    let mut run = AutoRecoverRun::new();
    assert!(matches!(run.on_candidate(&facts()), RecoverStep::Launch { .. }));
    run.on_launched(false);
    assert_eq!(run.started(), 0);
}
