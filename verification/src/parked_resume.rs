//! Resuming calls that were parked while the local engine lacked modules.
use vstd::prelude::*;

use crate::text::{
    decimal, lemma_parse_decimal, parse_u32_chars, parse_u32_spec, push_decimal, trim, trim_str,
};

verus! {

/// How many parked calls are started per readiness event.
pub const PARKED_RESUME_MAX_PER_EVENT: usize = 5;

/// How many resumption attempts a call gets before it stays failed.
pub const PARKED_RESUME_MAX_TRIES: u32 = 2;

/// Name of the attempt-counter file in the call directory.
pub const TRIES_MARKER: &'static str = ".parked-resume-tries";

/// What is known of one parked call, gathered from disk.
#[derive(Debug, Clone, Copy, PartialEq, Eq)]
pub struct ParkedFacts {
    /// `transcript.md` exists: speech-to-text already ran.
    pub has_transcript: bool,
    /// A root or chunk WAV exists.
    pub has_audio: bool,
    /// Attempts made so far (marker file).
    pub tries: u32,
}

/// Verdict for one parked call.
#[derive(Debug, Clone, Copy, PartialEq, Eq)]
pub enum ParkedPlan {
    /// Transcript present: plain reprocessing.
    Reprocess,
    /// No transcript: the recovery path (reconstruct + missing STT).
    Recover,
    /// The per-event cap is used up: the remaining calls are not looked at.
    StopCapReached,
    /// No audio: nothing to resume.
    SkipNoAudio,
    /// Attempts exhausted.
    SkipTriesExhausted,
}

/// The verdict, in order: cap, audio, attempts, transcript.
pub open spec fn parked_plan(started: nat, facts: ParkedFacts) -> ParkedPlan {
    if started >= PARKED_RESUME_MAX_PER_EVENT {
        ParkedPlan::StopCapReached
    } else if !facts.has_audio {
        ParkedPlan::SkipNoAudio
    } else if facts.tries >= PARKED_RESUME_MAX_TRIES {
        ParkedPlan::SkipTriesExhausted
    } else if facts.has_transcript {
        ParkedPlan::Reprocess
    } else {
        ParkedPlan::Recover
    }
}

/// Decides what to do with one parked call. The per-event cap is checked
/// first, so that one call that always fails cannot crowd out healthy ones.
pub fn plan_parked_resume(started: usize, facts: &ParkedFacts) -> (plan: ParkedPlan)
    ensures
        plan == parked_plan(started as nat, *facts),
{
    if started >= PARKED_RESUME_MAX_PER_EVENT {
        return ParkedPlan::StopCapReached;
    }
    if !facts.has_audio {
        return ParkedPlan::SkipNoAudio;
    }
    if facts.tries >= PARKED_RESUME_MAX_TRIES {
        return ParkedPlan::SkipTriesExhausted;
    }
    if facts.has_transcript {
        return ParkedPlan::Reprocess;
    }
    ParkedPlan::Recover
}

/// Attempts recorded in a marker file: its trimmed content as a `u32`, or 0
/// when the file is missing or does not hold a number.
pub open spec fn tries_from_marker(raw: Option<Seq<char>>) -> u32 {
    match raw {
        Some(s) => match parse_u32_spec(trim(s)) {
            Some(n) => n,
            None => 0,
        },
        None => 0,
    }
}

/// Reads the attempt counter from the marker file's content (see
/// [`tries_from_marker`]). Shared by parked resumption and auto-recovery.
pub fn parse_tries_marker(raw: Option<&str>) -> (tries: u32)
    ensures
        tries == tries_from_marker(match raw {
            Some(s) => Some(s@),
            None => None,
        }),
{
    match raw {
        Some(s) => {
            let t = trim_str(s);
            match parse_u32_chars(&t) {
                Some(n) => n,
                None => 0,
            }
        },
        None => 0,
    }
}

/// Content written to the marker before an attempt: the incremented count.
pub fn next_tries_marker(tries: u32) -> (text: String)
    requires
        tries < u32::MAX,
    ensures
        text@ == decimal(tries as nat + 1),
{
    let mut text = String::new();
    push_decimal(&mut text, (tries + 1) as u64);
    assert(text@ =~= decimal(tries as nat + 1));
    text
}

/// Law: the per-event cap wins over every fact about the call.
pub proof fn law_parked_cap_first(started: nat, a: ParkedFacts, b: ParkedFacts)
    requires
        started >= PARKED_RESUME_MAX_PER_EVENT,
    ensures
        parked_plan(started, a) == ParkedPlan::StopCapReached,
        parked_plan(started, a) == parked_plan(started, b),
{
}

/// Law: a call is only started (reprocess or recover) when it has audio and
/// attempts left, and never once the cap is reached.
pub proof fn law_parked_starts_only_viable(started: nat, f: ParkedFacts)
    ensures
        (parked_plan(started, f) == ParkedPlan::Reprocess || parked_plan(started, f)
            == ParkedPlan::Recover) ==> (started < PARKED_RESUME_MAX_PER_EVENT && f.has_audio
            && f.tries < PARKED_RESUME_MAX_TRIES),
        parked_plan(started, f) == ParkedPlan::Reprocess ==> f.has_transcript,
        parked_plan(started, f) == ParkedPlan::Recover ==> !f.has_transcript,
{
}

/// Law: the attempt counter survives its marker file. Reading back the text
/// written before attempt `tries + 1` gives `tries + 1`.
pub proof fn law_tries_marker_round_trip(tries: u32)
    requires
        tries < u32::MAX,
    ensures
        tries_from_marker(Some(decimal(tries as nat + 1))) == tries + 1,
{
    lemma_parse_decimal((tries + 1) as u64);
}

/// What the resumption run does with one parked call.
#[derive(Debug)]
pub enum ParkedStep {
    /// Leave the call as it is; the verdict says why.
    Skip(ParkedPlan),
    /// Write `marker` to the call's attempt counter first, then start the
    /// call by `plan` (reprocess or recover) and report the outcome.
    Launch { plan: ParkedPlan, marker: String },
}

/// One resumption run over the parked calls, in order: the decisions of the
/// loop, while the caller reads the facts, writes the marker, starts the
/// call and hands back whether it started.
pub struct ParkedResumeRun {
    started: usize,
    deferred: usize,
    launching: bool,
}

impl ParkedResumeRun {
    /// Calls started so far.
    pub closed spec fn started_count(&self) -> nat {
        self.started as nat
    }

    /// Calls left for a later event because the cap was reached.
    pub closed spec fn deferred_count(&self) -> nat {
        self.deferred as nat
    }

    /// A start was asked for and its outcome is not in yet.
    pub closed spec fn awaiting_launch(&self) -> bool {
        self.launching
    }

    /// The run's invariant: it never starts more calls than the per-event
    /// cap, and asks for a start only below it.
    #[verifier::type_invariant]
    pub closed spec fn wf(&self) -> bool {
        &&& self.started <= PARKED_RESUME_MAX_PER_EVENT
        &&& self.launching ==> self.started < PARKED_RESUME_MAX_PER_EVENT
    }

    /// A run that has looked at no call yet.
    pub fn new() -> (r: ParkedResumeRun)
        ensures
            r.started_count() == 0,
            r.deferred_count() == 0,
            !r.awaiting_launch(),
    {
        ParkedResumeRun { started: 0, deferred: 0, launching: false }
    }

    /// Calls started so far.
    pub fn started(&self) -> (n: usize)
        ensures
            n == self.started_count(),
            n <= PARKED_RESUME_MAX_PER_EVENT,
    {
        proof {
            use_type_invariant(self);
        }
        self.started
    }

    /// Calls deferred so far.
    pub fn deferred(&self) -> (n: usize)
        ensures
            n == self.deferred_count(),
    {
        self.deferred
    }

    /// The step for the next parked call, from its facts (see
    /// [`parked_plan`]): a call past the cap is counted as deferred; a call
    /// without audio or attempts is skipped; otherwise the run asks for the
    /// attempt counter to be written, incremented, before the start.
    pub fn on_call(&mut self, facts: &ParkedFacts) -> (s: ParkedStep)
        ensures
            final(self).started_count() == old(self).started_count(),
            ({
                let p = parked_plan(old(self).started_count(), *facts);
                &&& p == ParkedPlan::StopCapReached ==> s == ParkedStep::Skip(p)
                    && final(self).deferred_count() == (if old(self).deferred_count() < usize::MAX {
                    old(self).deferred_count() + 1
                } else {
                    old(self).deferred_count()
                }) && !final(self).awaiting_launch()
                &&& (p == ParkedPlan::SkipNoAudio || p == ParkedPlan::SkipTriesExhausted) ==> s
                    == ParkedStep::Skip(p) && final(self).deferred_count() == old(self).deferred_count()
                    && !final(self).awaiting_launch()
                &&& (p == ParkedPlan::Reprocess || p == ParkedPlan::Recover) ==> (s matches ParkedStep::Launch {
                    plan,
                    marker,
                } && plan == p && marker@ == decimal(facts.tries as nat + 1))
                    && final(self).deferred_count() == old(self).deferred_count()
                    && final(self).awaiting_launch()
            }),
    {
        proof {
            use_type_invariant(&*self);
        }
        let plan = plan_parked_resume(self.started, facts);
        match plan {
            ParkedPlan::StopCapReached => {
                if self.deferred < usize::MAX {
                    self.deferred = self.deferred + 1;
                }
                self.launching = false;
                ParkedStep::Skip(plan)
            },
            ParkedPlan::SkipNoAudio | ParkedPlan::SkipTriesExhausted => {
                self.launching = false;
                ParkedStep::Skip(plan)
            },
            ParkedPlan::Reprocess | ParkedPlan::Recover => {
                self.launching = true;
                ParkedStep::Launch { plan, marker: next_tries_marker(facts.tries) }
            },
        }
    }

    /// The outcome of the start asked for by the last step: a start that
    /// went through counts towards the cap; a failed one does not. Without a
    /// start asked for, nothing changes.
    pub fn on_launched(&mut self, ok: bool)
        ensures
            final(self).started_count() == old(self).started_count() + (if old(self).awaiting_launch()
                && ok {
                1nat
            } else {
                0nat
            }),
            final(self).deferred_count() == old(self).deferred_count(),
            !final(self).awaiting_launch(),
    {
        proof {
            use_type_invariant(&*self);
        }
        let was_launching = self.launching;
        self.launching = false;
        if was_launching && ok {
            self.started = self.started + 1;
        }
    }

    /// Law: the run keeps its cap. However the calls and the outcomes come,
    /// a run never has more than the cap started, and a run at the cap asks
    /// for no further start.
    pub proof fn law_parked_run_cap(&self, facts: ParkedFacts)
        requires
            self.wf(),
        ensures
            self.started_count() <= PARKED_RESUME_MAX_PER_EVENT,
            self.started_count() == PARKED_RESUME_MAX_PER_EVENT ==> parked_plan(
                self.started_count(),
                facts,
            ) == ParkedPlan::StopCapReached,
    {
    }
}

} // verus!
