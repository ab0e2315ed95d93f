//! The bulk regeneration of empty recaps: which calls it takes, and the run
//! over them as a state machine. The caller performs each step (reading the
//! cancel flag, regenerating one recap, emitting the events) and hands the
//! outcome back.
use vstd::prelude::*;

verus! {

/// Progress of one step of the bulk run.
#[derive(Debug, Clone)]
pub struct BulkRecapProgress {
    /// How many calls were handled before this one.
    pub done: usize,
    pub total: usize,
    pub call_id: String,
}

/// Outcome of the bulk run.
#[derive(Debug, Clone, Copy, PartialEq, Eq)]
pub struct BulkRecapDone {
    pub regenerated: usize,
    pub failed: usize,
    pub cancelled: bool,
}

/// Whether a call is taken by the bulk run: it is `ready`, has a transcript
/// to regenerate from, and its recap is missing or blank.
pub fn is_bulk_recap_target(ready: bool, has_transcript: bool, recap_missing_or_blank: bool) -> (b: bool)
    ensures
        b == (ready && has_transcript && recap_missing_or_blank),
{
    ready && has_transcript && recap_missing_or_blank
}

/// What the run knows of one call when it picks its targets.
#[derive(Debug, Clone)]
pub struct BulkRecapCandidate {
    pub call_id: String,
    /// The call's status is `ready`.
    pub ready: bool,
    /// The call has a stored transcript.
    pub has_transcript: bool,
    /// The call has no stored recap, or a blank one.
    pub recap_missing_or_blank: bool,
}

/// The ids of the calls the run takes, in the order of the call list (see
/// [`is_bulk_recap_target`]).
pub open spec fn bulk_targets(cs: Seq<BulkRecapCandidate>) -> Seq<Seq<char>>
    decreases cs.len(),
{
    if cs.len() == 0 {
        Seq::empty()
    } else {
        let prev = bulk_targets(cs.drop_last());
        let c = cs.last();
        if c.ready && c.has_transcript && c.recap_missing_or_blank {
            prev.push(c.call_id@)
        } else {
            prev
        }
    }
}

/// Picks the targets of a bulk run from the call list, keeping its order
/// (see [`bulk_targets`]).
pub fn select_bulk_recap_targets(candidates: &[BulkRecapCandidate]) -> (ids: Vec<String>)
    ensures
        ids@.map_values(|s: String| s@) == bulk_targets(candidates@),
{
    let mut ids: Vec<String> = Vec::new();
    let mut k: usize = 0;
    while k < candidates.len()
        invariant
            k <= candidates.len(),
            ids@.map_values(|s: String| s@) == bulk_targets(candidates@.take(k as int)),
        decreases candidates.len() - k,
    {
        let ghost prev = ids@.map_values(|s: String| s@);
        assert(candidates@.take(k + 1).drop_last() =~= candidates@.take(k as int));
        assert(candidates@.take(k + 1).last() == candidates@[k as int]);
        let c = &candidates[k];
        if is_bulk_recap_target(c.ready, c.has_transcript, c.recap_missing_or_blank) {
            ids.push(c.call_id.clone());
            assert(ids@.map_values(|s: String| s@) =~= prev.push(c.call_id@));
        }
        k = k + 1;
    }
    assert(candidates@.take(candidates.len() as int) =~= candidates@);
    ids
}

/// Law: the run takes exactly the ready calls with a transcript and a
/// missing or blank recap; a call that is not ready, or has no transcript,
/// or has a recap with content, is never taken.
pub proof fn law_bulk_targets_exact(cs: Seq<BulkRecapCandidate>, id: Seq<char>)
    ensures
        bulk_targets(cs).contains(id) <==> exists|i: int|
            0 <= i < cs.len() && (#[trigger] cs[i]).call_id@ == id && cs[i].ready
                && cs[i].has_transcript && cs[i].recap_missing_or_blank,
    decreases cs.len(),
{
    if cs.len() > 0 {
        law_bulk_targets_exact(cs.drop_last(), id);
        let prev = bulk_targets(cs.drop_last());
        let c = cs.last();
        if bulk_targets(cs).contains(id) {
            if !prev.contains(id) {
                assert(c.ready && c.has_transcript && c.recap_missing_or_blank);
                let t = bulk_targets(cs);
                let j = choose|j: int| 0 <= j < t.len() && t[j] == id;
                if j < prev.len() {
                    assert(t[j] == prev[j]);
                }
                assert(cs[cs.len() - 1] == c);
            } else {
                let i = choose|i: int|
                    0 <= i < cs.drop_last().len() && (#[trigger] cs.drop_last()[i]).call_id@ == id
                        && cs.drop_last()[i].ready && cs.drop_last()[i].has_transcript
                        && cs.drop_last()[i].recap_missing_or_blank;
                assert(cs[i] == cs.drop_last()[i]);
            }
        } else {
            if exists|i: int|
                0 <= i < cs.len() && (#[trigger] cs[i]).call_id@ == id && cs[i].ready
                    && cs[i].has_transcript && cs[i].recap_missing_or_blank {
                let i = choose|i: int|
                    0 <= i < cs.len() && (#[trigger] cs[i]).call_id@ == id && cs[i].ready
                        && cs[i].has_transcript && cs[i].recap_missing_or_blank;
                if i < cs.len() - 1 {
                    assert(cs.drop_last()[i] == cs[i]);
                    let p = choose|j: int| 0 <= j < prev.len() && prev[j] == id;
                    let t = bulk_targets(cs);
                    assert(t[p] == prev[p]);
                    assert(t.contains(id));
                } else {
                    let t = bulk_targets(cs);
                    assert(t[prev.len() as int] == id);
                }
            }
        }
    }
}

/// A bulk run over its target calls, taken in order. The calls handled so
/// far are the first `regenerated + failed` targets.
pub struct BulkRecap {
    targets: Vec<String>,
    regenerated: usize,
    failed: usize,
}

/// What the run asks for next.
#[derive(Debug)]
pub enum BulkRecapStep {
    /// Emit the progress and regenerate the recap of `progress.call_id`.
    Regenerate(BulkRecapProgress),
    /// Emit the outcome; the run is over.
    Finish(BulkRecapDone),
}

impl BulkRecap {
    /// The targets, in order.
    pub closed spec fn targets_view(&self) -> Seq<Seq<char>> {
        self.targets@.map_values(|s: String| s@)
    }

    /// Calls handled so far.
    pub closed spec fn handled(&self) -> nat {
        (self.regenerated + self.failed) as nat
    }

    /// Recaps regenerated so far.
    pub closed spec fn regenerated_count(&self) -> nat {
        self.regenerated as nat
    }

    /// Regenerations that failed so far.
    pub closed spec fn failed_count(&self) -> nat {
        self.failed as nat
    }

    /// The run's invariant: it never handles more calls than it has targets.
    #[verifier::type_invariant]
    pub closed spec fn wf(&self) -> bool {
        self.regenerated + self.failed <= self.targets.len()
    }

    /// A run over `targets` that has handled none of them.
    pub fn new(targets: Vec<String>) -> (r: BulkRecap)
        ensures
            r.targets_view() == targets@.map_values(|s: String| s@),
            r.handled() == 0,
            r.regenerated_count() == 0,
            r.failed_count() == 0,
    {
        BulkRecap { targets, regenerated: 0, failed: 0 }
    }

    /// Number of targets.
    pub fn total(&self) -> (n: usize)
        ensures
            n == self.targets_view().len(),
    {
        self.targets.len()
    }

    /// The next step. While a target is left, a cancel request ends the run
    /// as cancelled and otherwise the next target is regenerated; the cancel
    /// flag is looked at only then. With no target left (an empty run too)
    /// the run ends, not cancelled.
    pub fn step(&self, cancel_requested: bool) -> (s: BulkRecapStep)
        ensures
            self.handled() <= self.targets_view().len(),
            self.handled() < self.targets_view().len() && cancel_requested ==> s == BulkRecapStep::Finish(
                BulkRecapDone {
                    regenerated: self.regenerated_count() as usize,
                    failed: self.failed_count() as usize,
                    cancelled: true,
                },
            ),
            self.handled() < self.targets_view().len() && !cancel_requested ==> (s matches BulkRecapStep::Regenerate(p)
                && p.done == self.handled() && p.total == self.targets_view().len()
                && p.call_id@ == self.targets_view()[self.handled() as int]),
            self.handled() == self.targets_view().len() ==> s == BulkRecapStep::Finish(
                BulkRecapDone {
                    regenerated: self.regenerated_count() as usize,
                    failed: self.failed_count() as usize,
                    cancelled: false,
                },
            ),
    {
        proof {
            use_type_invariant(self);
        }
        let next = self.regenerated + self.failed;
        if next < self.targets.len() {
            if cancel_requested {
                BulkRecapStep::Finish(
                    BulkRecapDone { regenerated: self.regenerated, failed: self.failed, cancelled: true },
                )
            } else {
                let id = self.targets[next].clone();
                BulkRecapStep::Regenerate(
                    BulkRecapProgress { done: next, total: self.targets.len(), call_id: id },
                )
            }
        } else {
            BulkRecapStep::Finish(
                BulkRecapDone { regenerated: self.regenerated, failed: self.failed, cancelled: false },
            )
        }
    }

    /// Records the outcome of the regeneration asked for by the last step.
    pub fn record(&mut self, ok: bool)
        requires
            old(self).handled() < old(self).targets_view().len(),
        ensures
            final(self).targets_view() == old(self).targets_view(),
            final(self).handled() == old(self).handled() + 1,
            final(self).regenerated_count() == old(self).regenerated_count() + if ok {
                1nat
            } else {
                0nat
            },
            final(self).failed_count() == old(self).failed_count() + if ok {
                0nat
            } else {
                1nat
            },
    {
        proof {
            use_type_invariant(&*self);
        }
        if ok {
            self.regenerated = self.regenerated + 1;
        } else {
            self.failed = self.failed + 1;
        }
    }

    /// Law: whatever was recorded, a run accounts for every handled call
    /// exactly once, as regenerated or as failed, and never counts past its
    /// targets.
    pub proof fn law_bulk_recap_accounts(&self)
        requires
            self.wf(),
        ensures
            self.regenerated_count() + self.failed_count() == self.handled(),
            self.handled() <= self.targets_view().len(),
    {
    }
}

/// Law: a run that finishes without a cancel has regenerated or failed every
/// one of its targets.
pub proof fn law_bulk_recap_finish_covers_all(r: BulkRecap, d: BulkRecapDone)
    requires
        r.wf(),
        r.handled() == r.targets_view().len(),
        d == (BulkRecapDone {
            regenerated: r.regenerated_count() as usize,
            failed: r.failed_count() as usize,
            cancelled: false,
        }),
    ensures
        d.regenerated + d.failed == r.targets_view().len(),
{
    r.law_bulk_recap_accounts();
}

} // verus!
