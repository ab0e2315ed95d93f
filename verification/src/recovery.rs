//! Automatic recovery of interrupted calls at startup and the headless
//! recovery trigger.
use vstd::prelude::*;

use crate::parked_resume::next_tries_marker;
use crate::text::{chars_to_string, decimal, str_chars, trim, trim_chars};

verus! {

/// At most this many recoveries are started per startup.
pub const AUTO_RECOVER_MAX_PER_STARTUP: usize = 3;

/// Attempts per call before auto-recovery gives up on it.
pub const AUTO_RECOVER_MAX_TRIES: u32 = 2;

/// Name of auto-recovery's attempt-counter file in the call directory.
pub const AUTO_RECOVER_TRIES_MARKER: &'static str = ".auto-recover-tries";

/// What is known of one auto-recovery candidate, from disk and environment.
#[derive(Debug, Clone, Copy, PartialEq, Eq)]
pub struct CandidateFacts {
    /// The headless trigger already owns this call.
    pub is_headless_target: bool,
    /// `transcript.md` exists: the call was transcribed.
    pub has_transcript: bool,
    /// A root or chunk WAV exists.
    pub has_audio: bool,
    /// Attempts made so far (marker file).
    pub tries: u32,
}

/// Verdict for one candidate.
#[derive(Debug, Clone, Copy, PartialEq, Eq)]
pub enum AutoRecoverPlan {
    /// Start recovery.
    Recover,
    /// The startup cap is used up: the remaining candidates are not looked at.
    StopCapReached,
    /// The headless trigger handles this call.
    SkipHeadlessOwned,
    /// A transcript exists: the failure concerns the recap, not the audio.
    SkipAlreadyTranscribed,
    /// No audio to recover.
    SkipNoAudio,
    /// Attempts exhausted.
    SkipTriesExhausted,
}

/// The verdict, in order: cap, headless owner, transcript, audio, attempts.
pub open spec fn auto_recovery_plan(started: nat, f: CandidateFacts) -> AutoRecoverPlan {
    if started >= AUTO_RECOVER_MAX_PER_STARTUP {
        AutoRecoverPlan::StopCapReached
    } else if f.is_headless_target {
        AutoRecoverPlan::SkipHeadlessOwned
    } else if f.has_transcript {
        AutoRecoverPlan::SkipAlreadyTranscribed
    } else if !f.has_audio {
        AutoRecoverPlan::SkipNoAudio
    } else if f.tries >= AUTO_RECOVER_MAX_TRIES {
        AutoRecoverPlan::SkipTriesExhausted
    } else {
        AutoRecoverPlan::Recover
    }
}

/// Decides what auto-recovery does with one candidate (see
/// [`auto_recovery_plan`]).
pub fn plan_auto_recovery(started: usize, facts: &CandidateFacts) -> (plan: AutoRecoverPlan)
    ensures
        plan == auto_recovery_plan(started as nat, *facts),
{
    if started >= AUTO_RECOVER_MAX_PER_STARTUP {
        return AutoRecoverPlan::StopCapReached;
    }
    if facts.is_headless_target {
        return AutoRecoverPlan::SkipHeadlessOwned;
    }
    if facts.has_transcript {
        return AutoRecoverPlan::SkipAlreadyTranscribed;
    }
    if !facts.has_audio {
        return AutoRecoverPlan::SkipNoAudio;
    }
    if facts.tries >= AUTO_RECOVER_MAX_TRIES {
        return AutoRecoverPlan::SkipTriesExhausted;
    }
    AutoRecoverPlan::Recover
}

/// The headless target: the trimmed value, unless it is empty.
pub open spec fn headless_target(raw: Option<Seq<char>>) -> Option<Seq<char>> {
    match raw {
        Some(v) => if trim(v).len() > 0 {
            Some(trim(v))
        } else {
            None
        },
        None => None,
    }
}

/// The call id named by `WOTOLD_RECOVER_CALL_ID`, if it is set to something
/// besides whitespace. Both the trigger and the candidate filter read it
/// through this function, so they trim alike.
pub fn parse_headless_target(raw: Option<String>) -> (res: Option<String>)
    ensures
        match headless_target(match raw {
            Some(s) => Some(s@),
            None => None,
        }) {
            Some(t) => res matches Some(s) && s@ == t,
            None => res is None,
        },
{
    match raw {
        Some(v) => {
            let chars = str_chars(v.as_str());
            let t = trim_chars(&chars);
            if t.len() == 0 {
                None
            } else {
                Some(chars_to_string(&t))
            }
        },
        None => None,
    }
}

/// Law: the startup cap means stop, whatever the candidate.
pub proof fn law_auto_recovery_cap_first(started: nat, f: CandidateFacts)
    requires
        started >= AUTO_RECOVER_MAX_PER_STARTUP,
    ensures
        auto_recovery_plan(started, f) == AutoRecoverPlan::StopCapReached,
{
}

/// Law: recovery starts only for a call that the headless trigger does not
/// own, that has audio and no transcript, and that has attempts left.
pub proof fn law_auto_recovery_only_viable(started: nat, f: CandidateFacts)
    ensures
        auto_recovery_plan(started, f) == AutoRecoverPlan::Recover <==> (started
            < AUTO_RECOVER_MAX_PER_STARTUP && !f.is_headless_target && !f.has_transcript
            && f.has_audio && f.tries < AUTO_RECOVER_MAX_TRIES),
{
}

/// What auto-recovery does with one candidate.
#[derive(Debug)]
pub enum RecoverStep {
    /// The startup cap is reached: look at no further candidate.
    Stop,
    /// Leave the candidate as it is; the verdict says why.
    Skip(AutoRecoverPlan),
    /// Write `marker` to the candidate's attempt counter first, then start
    /// its recovery and report the outcome.
    Launch { marker: String },
}

/// One auto-recovery run over the candidates, in order: the decisions of
/// the loop, while the caller reads the facts, writes the marker, starts the
/// recovery and hands back whether it started.
pub struct AutoRecoverRun {
    started: usize,
    launching: bool,
    stopped: bool,
}

impl AutoRecoverRun {
    /// Recoveries started so far.
    pub closed spec fn started_count(&self) -> nat {
        self.started as nat
    }

    /// A start was asked for and its outcome is not in yet.
    pub closed spec fn awaiting_launch(&self) -> bool {
        self.launching
    }

    /// The run has stopped at the cap.
    pub closed spec fn is_stopped(&self) -> bool {
        self.stopped
    }

    /// The run's invariant: never more starts than the startup cap, a start
    /// asked for only below it.
    #[verifier::type_invariant]
    pub closed spec fn wf(&self) -> bool {
        &&& self.started <= AUTO_RECOVER_MAX_PER_STARTUP
        &&& self.launching ==> self.started < AUTO_RECOVER_MAX_PER_STARTUP
    }

    /// A run that has looked at no candidate yet.
    pub fn new() -> (r: AutoRecoverRun)
        ensures
            r.started_count() == 0,
            !r.awaiting_launch(),
            !r.is_stopped(),
    {
        AutoRecoverRun { started: 0, launching: false, stopped: false }
    }

    /// Recoveries started so far.
    pub fn started(&self) -> (n: usize)
        ensures
            n == self.started_count(),
            n <= AUTO_RECOVER_MAX_PER_STARTUP,
    {
        proof {
            use_type_invariant(self);
        }
        self.started
    }

    /// The step for the next candidate, from its facts (see
    /// [`auto_recovery_plan`]): at the cap the run stops; a candidate the
    /// verdict skips is left alone; otherwise the run asks for the attempt
    /// counter to be written, incremented, before the recovery starts. Once
    /// stopped, the run stays stopped.
    pub fn on_candidate(&mut self, facts: &CandidateFacts) -> (s: RecoverStep)
        ensures
            final(self).started_count() == old(self).started_count(),
            old(self).is_stopped() ==> s is Stop && final(self).is_stopped()
                && !final(self).awaiting_launch(),
            !old(self).is_stopped() ==> ({
                let p = auto_recovery_plan(old(self).started_count(), *facts);
                &&& p == AutoRecoverPlan::StopCapReached ==> s is Stop && final(self).is_stopped()
                    && !final(self).awaiting_launch()
                &&& (p != AutoRecoverPlan::StopCapReached && p != AutoRecoverPlan::Recover) ==> s
                    == RecoverStep::Skip(p) && !final(self).is_stopped()
                    && !final(self).awaiting_launch()
                &&& p == AutoRecoverPlan::Recover ==> (s matches RecoverStep::Launch { marker }
                    && marker@ == decimal(facts.tries as nat + 1)) && !final(self).is_stopped()
                    && final(self).awaiting_launch()
            }),
    {
        proof {
            use_type_invariant(&*self);
        }
        if self.stopped {
            self.launching = false;
            return RecoverStep::Stop;
        }
        let plan = plan_auto_recovery(self.started, facts);
        match plan {
            AutoRecoverPlan::StopCapReached => {
                self.stopped = true;
                self.launching = false;
                RecoverStep::Stop
            },
            AutoRecoverPlan::Recover => {
                self.launching = true;
                RecoverStep::Launch { marker: next_tries_marker(facts.tries) }
            },
            _ => {
                self.launching = false;
                RecoverStep::Skip(plan)
            },
        }
    }

    /// The outcome of the recovery asked for by the last step: one that
    /// started counts towards the cap; a failed one does not. Without a start
    /// asked for, nothing changes.
    pub fn on_launched(&mut self, ok: bool)
        ensures
            final(self).started_count() == old(self).started_count() + (if old(self).awaiting_launch()
                && ok {
                1nat
            } else {
                0nat
            }),
            final(self).is_stopped() == old(self).is_stopped(),
            !final(self).awaiting_launch(),
    {
        proof {
            use_type_invariant(&*self);
        }
        let was_launching = self.launching;
        self.launching = false;
        if was_launching && ok {
            self.started = self.started + 1;
        }
    }

    /// Law: the run keeps its cap, and once it has stopped it starts nothing
    /// more.
    pub proof fn law_auto_recover_run_cap(&self, facts: CandidateFacts)
        requires
            self.wf(),
        ensures
            self.started_count() <= AUTO_RECOVER_MAX_PER_STARTUP,
            self.started_count() == AUTO_RECOVER_MAX_PER_STARTUP ==> auto_recovery_plan(
                self.started_count(),
                facts,
            ) == AutoRecoverPlan::StopCapReached,
    {
    }
}

} // verus!
