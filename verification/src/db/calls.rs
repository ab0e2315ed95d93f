//! Rules of a call's row: its status machine, the pause ledger, the engine
//! shown for it, the title it keeps, paging bounds and the silence trim point.
use vstd::prelude::*;

use crate::error::AppError;
use crate::recording::sat_add;
use crate::silence::opt_view;
use crate::text::{
    opt_string_view, push_str, starts_with_chars, str_chars, str_is, to_owned_string,
    trimmed_nonempty, trimmed_opt,
};

verus! {

// ───────────────────────── status machine ─────────────────────────

/// Status of a call.
#[derive(Debug, Clone, Copy, PartialEq, Eq)]
pub enum CallStatus {
    Recording,
    Processing,
    Ready,
    Failed,
}

/// The stored text of a status.
pub open spec fn call_status_text(s: CallStatus) -> Seq<char> {
    match s {
        CallStatus::Recording => "recording"@,
        CallStatus::Processing => "processing"@,
        CallStatus::Ready => "ready"@,
        CallStatus::Failed => "failed"@,
    }
}

impl CallStatus {
    /// Stored text of the status.
    pub fn as_str(self) -> (s: &'static str)
        ensures
            s@ == call_status_text(self),
    {
        match self {
            CallStatus::Recording => "recording",
            CallStatus::Processing => "processing",
            CallStatus::Ready => "ready",
            CallStatus::Failed => "failed",
        }
    }

    /// The status a stored text names, if any.
    pub fn parse(s: &str) -> (r: Option<CallStatus>)
        ensures
            r matches Some(st) ==> call_status_text(st) == s@,
            r is None ==> forall|st: CallStatus| call_status_text(st) != s@,
    {
        if str_is(s, "recording") {
            Some(CallStatus::Recording)
        } else if str_is(s, "processing") {
            Some(CallStatus::Processing)
        } else if str_is(s, "ready") {
            Some(CallStatus::Ready)
        } else if str_is(s, "failed") {
            Some(CallStatus::Failed)
        } else {
            None
        }
    }
}

/// What the app does to a call's status.
#[derive(Debug, Clone, Copy, PartialEq, Eq)]
pub enum CallTransition {
    /// Recording stopped: the pipeline takes over.
    Finish,
    /// The recording or its pipeline failed.
    Fail,
    /// The pipeline finished.
    MarkReady,
    /// Start-up sweep of a pipeline a crash interrupted.
    SweepStale,
}

/// The status after a transition, `None` where the store's gate refuses it
/// (the row stays as it is): only a recording call finishes, only an active
/// call (recording or processing) fails, only a processing call is swept,
/// and a finished pipeline marks any call ready.
pub open spec fn call_step(from: CallStatus, t: CallTransition) -> Option<CallStatus> {
    match t {
        CallTransition::Finish => if from == CallStatus::Recording {
            Some(CallStatus::Processing)
        } else {
            None
        },
        CallTransition::Fail => if from == CallStatus::Recording || from == CallStatus::Processing {
            Some(CallStatus::Failed)
        } else {
            None
        },
        CallTransition::SweepStale => if from == CallStatus::Processing {
            Some(CallStatus::Failed)
        } else {
            None
        },
        CallTransition::MarkReady => Some(CallStatus::Ready),
    }
}

/// Applies a transition (see [`call_step`]).
pub fn call_transition(from: CallStatus, t: CallTransition) -> (r: Option<CallStatus>)
    ensures
        r == call_step(from, t),
{
    match t {
        CallTransition::Finish => match from {
            CallStatus::Recording => Some(CallStatus::Processing),
            _ => None,
        },
        CallTransition::Fail => match from {
            CallStatus::Recording | CallStatus::Processing => Some(CallStatus::Failed),
            _ => None,
        },
        CallTransition::SweepStale => match from {
            CallStatus::Processing => Some(CallStatus::Failed),
            _ => None,
        },
        CallTransition::MarkReady => Some(CallStatus::Ready),
    }
}

/// Law: a late stop or failure never drags a finished call back. A ready or
/// failed call refuses `Finish`, `Fail` and the sweep; only a finished
/// pipeline moves it, and only to ready.
pub proof fn law_finished_calls_stay(from: CallStatus, t: CallTransition)
    requires
        from == CallStatus::Ready || from == CallStatus::Failed,
    ensures
        t != CallTransition::MarkReady ==> call_step(from, t) is None,
        t == CallTransition::MarkReady ==> call_step(from, t) == Some(CallStatus::Ready),
{
}

/// Law: every accepted transition out of an active call leads forward:
/// recording goes to processing or failed, processing to failed or ready.
pub proof fn law_calls_move_forward(from: CallStatus, t: CallTransition)
    ensures
        from == CallStatus::Recording && t != CallTransition::MarkReady ==> call_step(from, t)
            is None || call_step(from, t) == Some(CallStatus::Processing) || call_step(from, t)
            == Some(CallStatus::Failed),
        from == CallStatus::Processing ==> call_step(from, t) is None || call_step(from, t) == Some(
            CallStatus::Failed,
        ) || call_step(from, t) == Some(CallStatus::Ready),
{
}

/// The error of a finish whose call is not recording.
pub fn finish_refused(call_id: &str) -> (e: AppError)
    ensures
        e matches AppError::Other(m) && m@ == "finish_recording: звонок "@ + call_id@
            + " не в статусе 'recording'"@,
{
    let mut m = to_owned_string("finish_recording: звонок ");
    push_str(&mut m, call_id);
    push_str(&mut m, " не в статусе 'recording'");
    AppError::Other(m)
}

/// `call <id> not found`, the error of a recovery of a call that is gone.
pub fn call_not_found(call_id: &str) -> (e: AppError)
    ensures
        e matches AppError::NotFound(m) && m@ == "call "@ + call_id@ + " not found"@,
{
    let mut m = to_owned_string("call ");
    push_str(&mut m, call_id);
    push_str(&mut m, " not found");
    AppError::NotFound(m)
}

// ───────────────────────── engine shown for a call ─────────────────────────

/// The engine a call was processed by, for the webview: `local` when the
/// summary engine starts with `local` or the provider is `local`;
/// `cloud_byo` on the own-keys path; `cloud_managed` when some other
/// provider ran; unknown otherwise.
pub open spec fn processing_via_of(
    summary_engine: Option<Seq<char>>,
    provider: Option<Seq<char>>,
    path_label: Seq<char>,
) -> Option<Seq<char>> {
    let eng = match summary_engine {
        Some(e) => e,
        None => Seq::empty(),
    };
    let prov = match provider {
        Some(p) => p,
        None => Seq::empty(),
    };
    if (eng.len() >= 5 && eng.take(5) == "local"@) || prov == "local"@ {
        Some("local"@)
    } else if path_label == "byo"@ {
        Some("cloud_byo"@)
    } else if prov.len() > 0 {
        Some("cloud_managed"@)
    } else {
        None
    }
}

/// Engine shown for a call (see [`processing_via_of`]).
pub fn processing_via(summary_engine: Option<&str>, provider: Option<&str>, path_label: &str) -> (r:
    Option<&'static str>)
    ensures
        opt_view(r) == processing_via_of(opt_view(summary_engine), opt_view(provider), path_label@),
{
    let eng = match summary_engine {
        Some(e) => str_chars(e),
        None => Vec::new(),
    };
    let prov_is_local = match provider {
        Some(p) => str_is(p, "local"),
        None => false,
    };
    let prov_nonempty = match provider {
        Some(p) => str_chars(p).len() > 0,
        None => false,
    };
    let local = str_chars("local");
    proof {
        reveal_strlit("local");
        reveal_strlit("byo");
        reveal_strlit("cloud_byo");
        reveal_strlit("cloud_managed");
    }
    let starts = starts_with_chars(&eng, &local);
    assert(starts == (eng@.len() >= 5 && eng@.take(5) == "local"@)) by {
        assert(eng@.subrange(0, 5) == eng@.take(5));
    }
    if starts || prov_is_local {
        Some("local")
    } else if str_is(path_label, "byo") {
        Some("cloud_byo")
    } else if prov_nonempty {
        Some("cloud_managed")
    } else {
        None
    }
}

/// The title a recap sets: the generated title trimmed; a blank one keeps
/// the stored title (`None`, no write).
pub fn call_title_to_store(title: &str) -> (r: Option<String>)
    ensures
        opt_string_view(r) == trimmed_opt(Some(title@)),
{
    trimmed_nonempty(Some(title))
}

// ───────────────────────── paging and trim point ─────────────────────────

/// Largest page of calls served at once.
pub const MAX_PAGE: i64 = 1000;

/// Bounds of a page of calls: the limit clamped to `0..=1000` (a negative
/// limit would mean no limit to SQLite) and the offset to at least zero.
pub fn page_bounds(limit: i64, offset: i64) -> (b: (i64, i64))
    ensures
        b.0 == (if limit < 0 {
            0
        } else if limit > MAX_PAGE {
            MAX_PAGE
        } else {
            limit
        }),
        b.1 == (if offset < 0 {
            0
        } else {
            offset
        }),
{
    let l = if limit < 0 {
        0
    } else if limit > MAX_PAGE {
        MAX_PAGE
    } else {
        limit
    };
    let o = if offset < 0 {
        0
    } else {
        offset
    };
    (l, o)
}

/// The page of `full` (the whole list, newest first) for `limit` and
/// `offset`, clamped as [`page_bounds`] clamps them: the entries from the
/// offset on, at most `limit` of them.
pub open spec fn page_of<T>(full: Seq<T>, limit: i64, offset: i64) -> Seq<T> {
    let l: int = if limit < 0 {
        0
    } else if limit > MAX_PAGE {
        MAX_PAGE as int
    } else {
        limit as int
    };
    let o: int = if offset < 0 {
        0
    } else {
        offset as int
    };
    let lo = if o < full.len() {
        o
    } else {
        full.len() as int
    };
    let hi = if lo + l < full.len() {
        lo + l
    } else {
        full.len() as int
    };
    full.subrange(lo, hi)
}

/// The page of a list of calls (see [`page_of`]).
pub fn select_page<T>(full: Vec<T>, limit: i64, offset: i64) -> (page: Vec<T>)
    ensures
        page@ == page_of(full@, limit, offset),
{
    let (l, o) = page_bounds(limit, offset);
    let n = full.len();
    let lo: usize = if (o as u64) < (n as u64) {
        o as usize
    } else {
        n
    };
    let room: usize = n - lo;
    let take: usize = if (l as u64) < (room as u64) {
        l as usize
    } else {
        room
    };
    let mut head = full;
    let mut page = head.split_off(lo);
    page.truncate(take);
    page
}

/// Law: a page is the matching slice of the full list. A negative limit
/// gives an empty page (never the whole list), a negative offset reads as 0,
/// no page has more than 1000 calls, and entry `i` of a page is entry
/// `offset + i` of the full list; a page is short only at the list's end.
pub proof fn law_page_is_slice<T>(full: Seq<T>, limit: i64, offset: i64)
    ensures
        limit <= 0 ==> page_of(full, limit, offset).len() == 0,
        offset < 0 ==> page_of(full, limit, offset) == page_of(full, limit, 0),
        page_of(full, limit, offset).len() <= MAX_PAGE,
        offset >= 0 ==> forall|i: int|
            0 <= i < page_of(full, limit, offset).len() ==> #[trigger] page_of(full, limit, offset)[i]
                == full[offset + i],
        (0 <= limit <= MAX_PAGE && 0 <= offset && offset + limit <= full.len()) ==> page_of(
            full,
            limit,
            offset,
        ).len() == limit,
{
}

/// The silence trim point read back: a stored value above zero, else none
/// (a zero or negative value would ask to keep an empty track).
pub fn silence_trim_point(raw: Option<i64>) -> (r: Option<u64>)
    ensures
        match raw {
            Some(ms) => if ms > 0 {
                r == Some(ms as u64)
            } else {
                r is None
            },
            None => r is None,
        },
{
    match raw {
        Some(ms) => if ms > 0 {
            Some(ms as u64)
        } else {
            None
        },
        None => None,
    }
}

// ───────────────────────── pause ledger ─────────────────────────

/// `chrono::ParseError`, carried through to the error message only.
#[verifier::external_type_specification]
#[verifier::external_body]
pub struct ExChronoParseError(chrono::ParseError);

/// Whole milliseconds from the instant `earlier` to the instant `later`,
/// both RFC 3339 texts, as chrono computes them
/// (`DateTime::parse_from_rfc3339` on each, `signed_duration_since`,
/// `num_milliseconds`, which drops a sub-millisecond part towards zero:
/// whole seconds, adjusted up by one for a negative span with nanoseconds,
/// plus the signed sub-second nanoseconds divided by a million); `None`
/// where a text does not parse.
pub uninterp spec fn rfc3339_millis_between(earlier: Seq<char>, later: Seq<char>) -> Option<i64>;

/// Calls chrono as [`rfc3339_millis_between`] says, and claims its outcome
/// is that name applied to the two texts.
#[verifier::external_body]
fn millis_between_rfc3339(earlier: &str, later: &str) -> (r: Result<i64, chrono::ParseError>)
    ensures
        match r {
            Ok(ms) => rfc3339_millis_between(earlier@, later@) == Some(ms),
            Err(_) => rfc3339_millis_between(earlier@, later@) is None,
        },
{
    let a = chrono::DateTime::parse_from_rfc3339(earlier)?;
    let b = chrono::DateTime::parse_from_rfc3339(later)?;
    Ok(b.signed_duration_since(a).num_milliseconds())
}

/// The `Display` text of a `chrono::ParseError`. Nothing is claimed of it.
#[verifier::external_body]
fn chrono_error_text(e: &chrono::ParseError) -> String {
    e.to_string()
}

/// The pause fields of a call: when the open pause began, and the pause time
/// accumulated before it.
pub struct PauseLedger {
    pub paused_at: Option<Seq<char>>,
    pub paused_total_ms: int,
}

/// A pause at `now`: opens one when none is open, otherwise changes nothing.
pub open spec fn pause_ledger(l: PauseLedger, now: Seq<char>) -> PauseLedger {
    if l.paused_at is None {
        PauseLedger { paused_at: Some(now), paused_total_ms: l.paused_total_ms }
    } else {
        l
    }
}

/// A resume after `elapsed_ms` of open pause: closes the pause and adds the
/// elapsed time (negative counts as zero, the sum saturates); without an
/// open pause nothing changes.
pub open spec fn resume_ledger(l: PauseLedger, elapsed_ms: int) -> PauseLedger {
    if l.paused_at is Some {
        PauseLedger {
            paused_at: None,
            paused_total_ms: sat_add(
                l.paused_total_ms,
                if elapsed_ms < 0 {
                    0
                } else {
                    elapsed_ms
                },
            ),
        }
    } else {
        l
    }
}

/// Law: pausing twice is pausing once, and resuming twice is resuming
/// once; a resume never lowers the accumulated pause time below what it was
/// (when that was not negative).
pub proof fn law_pause_resume_idempotent(l: PauseLedger, now: Seq<char>, later: Seq<char>, e1: int, e2: int)
    requires
        i64::MIN <= l.paused_total_ms <= i64::MAX,
    ensures
        pause_ledger(pause_ledger(l, now), later) == pause_ledger(l, now),
        resume_ledger(resume_ledger(l, e1), e2) == resume_ledger(l, e1),
        l.paused_total_ms >= 0 ==> resume_ledger(l, e1).paused_total_ms >= l.paused_total_ms,
        resume_ledger(l, e1).paused_at is None,
{
}

/// The error of a pause of a call that does not exist.
pub fn pause_not_found(call_id: &str) -> (e: AppError)
    ensures
        e matches AppError::Other(m) && m@ == "pause_call: call "@ + call_id@ + " not found"@,
{
    let mut m = to_owned_string("pause_call: call ");
    push_str(&mut m, call_id);
    push_str(&mut m, " not found");
    AppError::Other(m)
}

/// Outcome of a pause whose conditional update touched `rows_affected` rows:
/// none touched and no such call is an error; none touched for an existing
/// call is an already open pause, which is fine.
pub fn pause_outcome(call_id: &str, rows_affected: u64, call_exists: bool) -> (r: Result<(), AppError>)
    ensures
        rows_affected == 0 && !call_exists ==> (r matches Err(e) && e matches AppError::Other(m) && m@
            == "pause_call: call "@ + call_id@ + " not found"@),
        rows_affected > 0 || call_exists ==> r is Ok,
{
    if rows_affected == 0 && !call_exists {
        Err(pause_not_found(call_id))
    } else {
        Ok(())
    }
}

/// The accumulated pause time after closing a pause that lasted
/// `elapsed_ms` (see [`resume_ledger`]).
pub fn resumed_total(paused_total_ms: i64, elapsed_ms: i64) -> (t: i64)
    ensures
        t == resume_ledger(
            PauseLedger { paused_at: Some(Seq::empty()), paused_total_ms: paused_total_ms as int },
            elapsed_ms as int,
        ).paused_total_ms,
{
    let elapsed = if elapsed_ms < 0 {
        0
    } else {
        elapsed_ms
    };
    if paused_total_ms > i64::MAX - elapsed {
        i64::MAX
    } else {
        paused_total_ms + elapsed
    }
}

/// Prefix of the error of a stored pause time that does not parse.
pub const PAUSED_AT_PARSE_FAILED: &'static str = "paused_at parse failed: ";

/// What a resume writes, from the call's row (`None`: no such call; else its
/// open pause and accumulated total) and the current time as RFC 3339:
/// an error for a missing call; nothing (`Ok(None)`) without an open pause;
/// else the new accumulated total (see [`resume_ledger`]). A stored pause
/// time that does not parse is an error.
pub fn resume_update(call_id: &str, row: Option<(Option<String>, i64)>, now: &str) -> (r: Result<
    Option<i64>,
    AppError,
>)
    ensures
        row is None ==> (r matches Err(e) && e matches AppError::Other(m) && m@ == "resume_call: call "@
            + call_id@ + " not found"@),
        row matches Some((None, _)) ==> r == Ok::<Option<i64>, AppError>(None),
        row matches Some((Some(p), total)) ==> match rfc3339_millis_between(p@, now@) {
            Some(ms) => r == Ok::<Option<i64>, AppError>(
                Some(
                    resume_ledger(
                        PauseLedger { paused_at: Some(p@), paused_total_ms: total as int },
                        ms as int,
                    ).paused_total_ms as i64,
                ),
            ),
            None => r matches Err(e) && e matches AppError::Other(m) && m@.take(
                PAUSED_AT_PARSE_FAILED@.len() as int,
            ) == PAUSED_AT_PARSE_FAILED@,
        },
{
    match row {
        None => {
            let mut m = to_owned_string("resume_call: call ");
            push_str(&mut m, call_id);
            push_str(&mut m, " not found");
            Err(AppError::Other(m))
        },
        Some((None, _)) => Ok(None),
        Some((Some(p), total)) => match millis_between_rfc3339(p.as_str(), now) {
            Ok(ms) => Ok(Some(resumed_total(total, ms))),
            Err(e) => {
                let mut m = to_owned_string(PAUSED_AT_PARSE_FAILED);
                let ghost pre = m@;
                push_str(&mut m, &chrono_error_text(&e));
                assert(m@.take(pre.len() as int) =~= pre);
                Err(AppError::Other(m))
            },
        },
    }
}

/// Milliseconds from the instant `earlier` to `now` (both RFC 3339), at
/// least zero; zero when there is no instant or a text does not parse. It is
/// how a stop counts a pause still open, and the wall-clock time of a
/// recording.
pub open spec fn elapsed_ms_of(earlier: Option<Seq<char>>, now: Seq<char>) -> i64 {
    match earlier {
        Some(t) => match rfc3339_millis_between(t, now) {
            Some(ms) => if ms < 0 {
                0
            } else {
                ms
            },
            None => 0,
        },
        None => 0,
    }
}

/// Elapsed time from a measured span: the span when it is not negative,
/// zero for a negative one or none.
pub fn elapsed_from(span_ms: Option<i64>) -> (ms: i64)
    ensures
        ms == (match span_ms {
            Some(s) => if s < 0 {
                0
            } else {
                s
            },
            None => 0,
        }),
{
    match span_ms {
        Some(s) => if s < 0 {
            0
        } else {
            s
        },
        None => 0,
    }
}

/// Time elapsed since an optional instant (see [`elapsed_ms_of`]).
pub fn elapsed_since(earlier: Option<&str>, now: &str) -> (ms: i64)
    ensures
        ms == elapsed_ms_of(opt_view(earlier), now@),
        ms >= 0,
{
    match earlier {
        Some(t) => match millis_between_rfc3339(t, now) {
            Ok(span) => elapsed_from(Some(span)),
            Err(_) => elapsed_from(None),
        },
        None => elapsed_from(None),
    }
}

} // verus!
