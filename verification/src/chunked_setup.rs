//! Setting up a chunked recording: where the recorder writes its first
//! chunk, whether the chunked pipeline is on, and the shortened rotation
//! window that a test run may ask for.
use vstd::prelude::*;

use crate::call_store::{call_dir_spec, chunk_dir_spec, join, CallStore};
use crate::silence::{opt_view, setting_switched_off, switched_off};
use crate::text::{parse_u64_chars, parse_u64_spec, str_chars};

verus! {

/// Settings key of the chunked-pipeline switch.
pub const SETTING_CHUNKED_PIPELINE: &'static str = "recording.chunked_pipeline";

/// Shortest rotation target a test run may ask for, in ms.
pub const MIN_CHUNK_WINDOW_MS: u64 = 2000;

/// Paths the recorder writes its first pair of tracks to: chunk 0 of the call
/// when chunked, the call's root tracks otherwise.
pub fn sidecar_write_paths(store: &CallStore, call_id: &str, chunked: bool) -> (paths: (
    String,
    String,
))
    ensures
        chunked ==> paths.0@ == join(chunk_dir_spec(store.root@, call_id@, 0), "mic.wav"@)
            && paths.1@ == join(chunk_dir_spec(store.root@, call_id@, 0), "system.wav"@),
        !chunked ==> paths.0@ == join(call_dir_spec(store.root@, call_id@), "mic.wav"@)
            && paths.1@ == join(call_dir_spec(store.root@, call_id@), "system.wav"@),
{
    if chunked {
        (store.chunk_mic_path(call_id, 0), store.chunk_system_path(call_id, 0))
    } else {
        (store.mic_path(call_id), store.system_path(call_id))
    }
}

/// Whether the chunked pipeline runs, from the stored switch: on unless it
/// reads `"0"` or `"false"` (a missing value is on).
pub fn chunked_pipeline_on(raw: Option<&str>) -> (on: bool)
    ensures
        on == !switched_off(opt_view(raw)),
{
    !setting_switched_off(raw)
}

/// Rotation timing that replaces the defaults of the chunk orchestrator.
#[derive(Debug, Clone, Copy, PartialEq, Eq)]
pub struct ChunkWindow {
    pub target_chunk_ms: u64,
    pub window_start_offset_ms: u64,
    pub window_end_offset_ms: u64,
    pub tick_interval_ms: u64,
    pub rms_retention_ms: u64,
}

/// `a.max(b)`.
pub open spec fn max_u64(a: u64, b: u64) -> u64 {
    if a >= b {
        a
    } else {
        b
    }
}

/// The window scaled from a rotation target: a tenth of it (at least 200 ms)
/// on each side of the target, a tick of a tenth (at least 500 ms), and
/// twice the target of level history.
pub open spec fn scaled_window(target: u64) -> ChunkWindow {
    let half = max_u64(target / 10, 200);
    ChunkWindow {
        target_chunk_ms: target,
        window_start_offset_ms: if target >= half {
            (target - half) as u64
        } else {
            0
        },
        window_end_offset_ms: (target + half) as u64,
        tick_interval_ms: max_u64(target / 10, 500),
        rms_retention_ms: (target * 2) as u64,
    }
}

/// The override that the test variable asks for: its value parsed as a
/// `u64` and at least [`MIN_CHUNK_WINDOW_MS`]; anything else keeps the
/// defaults.
pub open spec fn chunk_window_of(raw: Option<Seq<char>>) -> Option<ChunkWindow> {
    match raw {
        Some(s) => match parse_u64_spec(s) {
            Some(t) => if t >= MIN_CHUNK_WINDOW_MS {
                Some(scaled_window(t))
            } else {
                None
            },
            None => None,
        },
        None => None,
    }
}

/// Rotation override from the raw test variable (see [`chunk_window_of`]).
/// A target above half of `u64::MAX` overflows the retention span and is
/// left out.
pub fn chunk_window_override(raw: Option<&str>) -> (w: Option<ChunkWindow>)
    requires
        raw matches Some(s) ==> (parse_u64_spec(s@) matches Some(t) ==> t <= u64::MAX / 2),
    ensures
        w == chunk_window_of(opt_view(raw)),
{
    match raw {
        None => None,
        Some(s) => {
            let chars = str_chars(s);
            match parse_u64_chars(&chars) {
                Some(target) => {
                    if target < MIN_CHUNK_WINDOW_MS {
                        return None;
                    }
                    let tenth = target / 10;
                    let half = if tenth >= 200 {
                        tenth
                    } else {
                        200
                    };
                    let start = target.saturating_sub(half);
                    let tick = if tenth >= 500 {
                        tenth
                    } else {
                        500
                    };
                    Some(
                        ChunkWindow {
                            target_chunk_ms: target,
                            window_start_offset_ms: start,
                            window_end_offset_ms: target + half,
                            tick_interval_ms: tick,
                            rms_retention_ms: target * 2,
                        },
                    )
                },
                None => None,
            }
        },
    }
}

} // verus!
