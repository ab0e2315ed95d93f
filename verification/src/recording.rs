//! Stop-time decisions of a recording: the accidental-tap gate, the
//! recorded duration, and what to do with the open final chunk.
use vstd::prelude::*;

use crate::db::chunks::{find_chunk_row, first_row_of, lemma_first_row_of, ChunkRow};
use crate::error::AppError;
use crate::text::{str_is, to_owned_string};

verus! {

/// Shortest recording that is kept, in milliseconds (30 seconds).
pub const MIN_RECORDING_MS: i64 = 30_000;

/// State of the active recording as the UI sees it.
#[derive(Debug, Clone)]
pub struct RecordingState {
    pub call_id: String,
    pub started_at: String,
    /// RFC 3339 time of the pause when paused.
    pub paused_at: Option<String>,
    /// Accumulated pause time in milliseconds.
    pub paused_total_ms: i64,
}

/// Refusal of a start while a recording runs.
pub const ALREADY_RECORDING: &'static str = "recording already in progress";

/// Refusal of a start without microphone permission.
pub const NO_MIC_PERMISSION: &'static str =
    "Нет разрешения на микрофон. Открой Настройки → Разрешения.";

/// Refusal of a start without permission to capture system audio.
pub const NO_SCREEN_PERMISSION: &'static str =
    "Нет разрешения на захват системного звука (для записи голоса собеседника в FaceTime, Zoom и т.д.). Открой Настройки → Разрешения.";

/// Status a permission check reports for a granted permission.
pub const PERMISSION_GRANTED: &'static str = "granted";

/// The refusal message of a start, checked in order: a running recording,
/// then the microphone, then system-audio capture; `None` lets it start.
pub open spec fn start_refusal(recording: bool, microphone: Seq<char>, screen_recording: Seq<char>) -> Option<
    Seq<char>,
> {
    if recording {
        Some(ALREADY_RECORDING@)
    } else if microphone != PERMISSION_GRANTED@ {
        Some(NO_MIC_PERMISSION@)
    } else if screen_recording != PERMISSION_GRANTED@ {
        Some(NO_SCREEN_PERMISSION@)
    } else {
        None
    }
}

/// Checks whether a recording may start (see [`start_refusal`]); a refusal
/// is an `Other` error carrying its message.
pub fn check_start(recording: bool, microphone: &str, screen_recording: &str) -> (r: Result<(), AppError>)
    ensures
        match start_refusal(recording, microphone@, screen_recording@) {
            Some(msg) => r matches Err(e) && e matches AppError::Other(m) && m@ == msg,
            None => r is Ok,
        },
{
    if recording {
        Err(AppError::Other(to_owned_string(ALREADY_RECORDING)))
    } else if !str_is(microphone, PERMISSION_GRANTED) {
        Err(AppError::Other(to_owned_string(NO_MIC_PERMISSION)))
    } else if !str_is(screen_recording, PERMISSION_GRANTED) {
        Err(AppError::Other(to_owned_string(NO_SCREEN_PERMISSION)))
    } else {
        Ok(())
    }
}

/// Message of a stop with no recording under way.
pub const NOT_RECORDING: &'static str = "not recording";

/// Whether a stop may go ahead: only while a recording is under way; else
/// it is refused with [`NOT_RECORDING`].
pub fn check_stop(recording: bool) -> (r: Result<(), AppError>)
    ensures
        recording ==> r is Ok,
        !recording ==> (r matches Err(e) && e matches AppError::Other(m) && m@ == NOT_RECORDING@),
{
    if recording {
        Ok(())
    } else {
        Err(AppError::Other(to_owned_string(NOT_RECORDING)))
    }
}

/// Whether a stop ends an accidental tap: wall-clock time minus pauses,
/// clamped at zero, is under 30 seconds. It looks at wall-clock time, never
/// at the silence-trimmed duration, so a long recording with a dead
/// microphone is not deleted.
pub open spec fn accidental_tap(elapsed_ms: int, paused_ms: int) -> bool {
    let d = elapsed_ms - paused_ms;
    (if d < 0 {
        0
    } else {
        d
    }) < MIN_RECORDING_MS
}

/// Accidental-tap gate (see [`accidental_tap`]).
pub fn is_accidental_tap(elapsed_ms: i64, paused_ms: i64) -> (b: bool)
    requires
        i64::MIN <= elapsed_ms - paused_ms <= i64::MAX,
    ensures
        b == accidental_tap(elapsed_ms as int, paused_ms as int),
{
    let d = elapsed_ms - paused_ms;
    let d = if d < 0 {
        0
    } else {
        d
    };
    d < MIN_RECORDING_MS
}

/// Durations computed at stop.
#[derive(Debug, Clone, Copy, PartialEq, Eq)]
pub struct StopTiming {
    /// Pause time: the stored total plus a pause still open at stop.
    pub paused_ms: i64,
    /// Recorded time: up to the silence trim point when auto-stopped,
    /// minus pauses, clamped at zero.
    pub recorded_ms: i64,
    /// The recording is an accidental tap and is discarded.
    pub discard: bool,
}

/// `a + b` saturating at the bounds of `i64`.
pub open spec fn sat_add(a: int, b: int) -> int {
    if a + b > i64::MAX {
        i64::MAX as int
    } else if a + b < i64::MIN {
        i64::MIN as int
    } else {
        a + b
    }
}

/// Pause time at stop: the stored total plus a pause still open, saturating
/// at the bounds of `i64`.
pub open spec fn stop_paused(paused_total_ms: int, lingering_paused_ms: int) -> int {
    sat_add(paused_total_ms, lingering_paused_ms)
}

/// The end of the recording for its duration: the silence trim point of an
/// auto-stop (taken as `i64`, as a cast gives it) when earlier than the
/// wall-clock time, else the wall-clock time.
pub open spec fn stop_effective(elapsed_ms: int, trim_at_ms: Option<u64>) -> int {
    match trim_at_ms {
        Some(t) => if ((t as i64) as int) < elapsed_ms {
            (t as i64) as int
        } else {
            elapsed_ms
        },
        None => elapsed_ms,
    }
}

/// Whether the durations of a stop can be computed in `i64`: wall-clock time
/// minus pauses and the effective end minus pauses both fit.
pub open spec fn stop_timing_fits(
    elapsed_ms: int,
    paused_total_ms: int,
    lingering_paused_ms: int,
    trim_at_ms: Option<u64>,
) -> bool {
    let paused = stop_paused(paused_total_ms, lingering_paused_ms);
    &&& i64::MIN <= elapsed_ms - paused <= i64::MAX
    &&& i64::MIN <= stop_effective(elapsed_ms, trim_at_ms) - paused <= i64::MAX
}

/// The durations of a stop: `elapsed_ms` wall-clock since start,
/// `paused_total_ms` stored, `lingering_paused_ms` of a pause still open,
/// `trim_at_ms` the silence trim point of an auto-stop.
pub open spec fn stop_timing_of(
    elapsed_ms: int,
    paused_total_ms: int,
    lingering_paused_ms: int,
    trim_at_ms: Option<u64>,
) -> StopTiming {
    let paused = stop_paused(paused_total_ms, lingering_paused_ms);
    let rec = stop_effective(elapsed_ms, trim_at_ms) - paused;
    StopTiming {
        paused_ms: paused as i64,
        recorded_ms: (if rec < 0 {
            0
        } else {
            rec
        }) as i64,
        discard: accidental_tap(elapsed_ms, paused),
    }
}

/// Computes the durations of a stop (see [`stop_timing_of`]); `None` where
/// they do not fit in `i64` (see [`stop_timing_fits`]), a case the stop
/// treats as an arithmetic overflow. Both clocks are read clamped at zero.
pub fn stop_timing(
    elapsed_ms: i64,
    paused_total_ms: i64,
    lingering_paused_ms: i64,
    trim_at_ms: Option<u64>,
) -> (t: Option<StopTiming>)
    requires
        elapsed_ms >= 0,
        lingering_paused_ms >= 0,
    ensures
        stop_timing_fits(elapsed_ms as int, paused_total_ms as int, lingering_paused_ms as int, trim_at_ms)
            ==> t == Some(
            stop_timing_of(
                elapsed_ms as int,
                paused_total_ms as int,
                lingering_paused_ms as int,
                trim_at_ms,
            ),
        ),
        !stop_timing_fits(elapsed_ms as int, paused_total_ms as int, lingering_paused_ms as int, trim_at_ms)
            ==> t is None,
        t matches Some(st) ==> 0 <= st.recorded_ms,
{
    let paused: i64 = if paused_total_ms > i64::MAX - lingering_paused_ms {
        i64::MAX
    } else {
        paused_total_ms + lingering_paused_ms
    };
    let effective: i64 = match trim_at_ms {
        Some(t) => if (t as i64) < elapsed_ms {
            t as i64
        } else {
            elapsed_ms
        },
        None => elapsed_ms,
    };
    let wall = elapsed_ms.checked_sub(paused);
    let rec = effective.checked_sub(paused);
    match (wall, rec) {
        (Some(_), Some(rec)) => Some(
            StopTiming {
                paused_ms: paused,
                recorded_ms: if rec < 0 {
                    0
                } else {
                    rec
                },
                discard: is_accidental_tap(elapsed_ms, paused),
            },
        ),
        _ => None,
    }
}

/// The stored duration of a recording in whole seconds: its recorded
/// milliseconds rounded to the nearest second, a half second rounded up.
pub open spec fn recorded_seconds_of(recorded_ms: int) -> int {
    (recorded_ms + 500) / 1000
}

/// The stored duration in whole seconds (see [`recorded_seconds_of`]).
pub fn recorded_seconds(recorded_ms: i64) -> (secs: i64)
    requires
        recorded_ms >= 0,
    ensures
        secs == recorded_seconds_of(recorded_ms as int),
{
    let whole = recorded_ms / 1000;
    let rest = recorded_ms % 1000;
    if rest >= 500 {
        whole + 1
    } else {
        whole
    }
}

/// What to do with the chunk that was still open at stop.
#[derive(Debug, Clone, Copy, PartialEq, Eq)]
pub enum FinalChunkAction {
    /// Insert it if missing, then run it.
    Run,
    /// Put it back from `failed` to `pending`, then run it.
    RunAfterReset,
    /// Already `done` or `processing`: the rotation handled it.
    Skip,
}

/// The action for final chunk `k` from the first row with that index.
pub open spec fn final_chunk_action(rows: Seq<ChunkRow>, k: u32) -> FinalChunkAction {
    match first_row_of(rows, k) {
        None => FinalChunkAction::Run,
        Some(i) => if rows[i].status@ == "pending"@ {
            FinalChunkAction::Run
        } else if rows[i].status@ == "failed"@ {
            FinalChunkAction::RunAfterReset
        } else {
            FinalChunkAction::Skip
        },
    }
}

/// Decides how the open final chunk `k` is processed at stop (see
/// [`final_chunk_action`]).
pub fn plan_final_chunk(rows: &[ChunkRow], k: u32) -> (a: FinalChunkAction)
    ensures
        a == final_chunk_action(rows@, k),
{
    proof {
        lemma_first_row_of(rows@, k);
    }
    match find_chunk_row(rows, k) {
        None => FinalChunkAction::Run,
        Some(i) => {
            let status = rows[i].status.as_str();
            if str_is(status, "pending") {
                FinalChunkAction::Run
            } else if str_is(status, "failed") {
                FinalChunkAction::RunAfterReset
            } else {
                FinalChunkAction::Skip
            }
        },
    }
}

/// End of the final chunk: start plus the WAV's length when that is known
/// (non-zero), else the recorded total but not before the start.
pub fn final_chunk_end_ms(start_ms: u64, chunk_dur_ms: u64, total_ms: u64) -> (end: u64)
    requires
        chunk_dur_ms > 0 ==> start_ms + chunk_dur_ms <= u64::MAX,
    ensures
        end == (if chunk_dur_ms > 0 {
            start_ms + chunk_dur_ms
        } else if total_ms > start_ms {
            total_ms as int
        } else {
            start_ms as int
        }),
{
    if chunk_dur_ms > 0 {
        start_ms + chunk_dur_ms
    } else if total_ms > start_ms {
        total_ms
    } else {
        start_ms
    }
}

/// Law: pause time never makes a recording look longer; a recording whose
/// unpaused wall-clock time reaches 30 seconds is kept, whatever its trim.
pub proof fn law_tap_gate_uses_wall_clock(
    elapsed_ms: int,
    paused_total_ms: int,
    lingering: int,
    t1: Option<u64>,
    t2: Option<u64>,
)
    ensures
        stop_timing_of(elapsed_ms, paused_total_ms, lingering, t1).discard == stop_timing_of(
            elapsed_ms,
            paused_total_ms,
            lingering,
            t2,
        ).discard,
{
}

} // verus!
