//! Local-only diagnostics: the log of recap generations and of chunk
//! failures. Nothing of it leaves the machine.
use vstd::prelude::*;

use crate::text::{
    chars_to_string, push_signed_decimal, push_str, signed_decimal, str_chars, take_chars,
    take_prefix, to_owned_string,
};

verus! {

/// One recap generation, logged after the recap is stored.
#[derive(Debug, Clone)]
pub struct SummaryLogEntry {
    pub call_id: String,
    pub engine: String,
    pub schema_version: i64,
    pub flag_state: bool,
    pub generation_ms: i64,
}

/// Chunk failures over a window of days.
#[derive(Debug, Clone, PartialEq, Eq)]
pub struct ChunkFailureStats {
    /// All failures, repeats of one chunk included.
    pub failures: i64,
    /// Chunks that failed at least once.
    pub distinct_chunks: i64,
    /// Chunks created in the window.
    pub chunks_total: i64,
    /// `(preset, failures)`, most first.
    pub by_preset: Vec<(String, i64)>,
    /// `(reason, failures)`, most first.
    pub by_reason: Vec<(String, i64)>,
}

/// Longest failure reason kept, in characters.
pub const MAX_REASON_CHARS: usize = 300;

/// Preset recorded when the active one cannot be read.
pub const UNKNOWN_PRESET: &'static str = "unknown";

/// Settings key of the active local-engine preset.
pub const SETTING_ACTIVE_PRESET: &'static str = "local_engine.active_preset";

/// The flag state as the log stores it: 1 or 0.
pub fn flag_state_column(flag_state: bool) -> (v: i64)
    ensures
        v == (if flag_state {
            1i64
        } else {
            0i64
        }),
{
    if flag_state {
        1
    } else {
        0
    }
}

/// The reason stored for a failure: its first 300 characters.
pub fn failure_reason(reason: &str) -> (r: String)
    ensures
        r@ == take_chars(reason@, MAX_REASON_CHARS as nat),
{
    let chars = str_chars(reason);
    let t = take_prefix(&chars, MAX_REASON_CHARS);
    chars_to_string(&t)
}

/// The preset stored for a failure: the active one, or `unknown` when it
/// could not be read.
pub fn failure_preset(active: Option<String>) -> (p: String)
    ensures
        match active {
            Some(a) => p == a,
            None => p@ == UNKNOWN_PRESET@,
        },
{
    match active {
        Some(a) => a,
        None => to_owned_string(UNKNOWN_PRESET),
    }
}

/// The SQLite time modifier of a window of `days` days: `-<days> days`.
pub fn window_modifier(days: i64) -> (m: String)
    ensures
        m@ == seq!['-'] + signed_decimal(days as int) + " days"@,
{
    let mut m = to_owned_string("-");
    push_signed_decimal(&mut m, days);
    push_str(&mut m, " days");
    proof {
        reveal_strlit("-");
    }
    m
}

} // verus!
