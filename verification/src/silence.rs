//! Silence-watch settings: the auto-stop threshold, the prompt switch and
//! the debug time scale, and the watcher configuration built from them.
use vstd::prelude::*;

use crate::text::{parse_u64_chars, parse_u64_spec, str_chars, str_is};

verus! {

/// Settings key of the "silence, stop?" prompt switch.
pub const SETTING_SILENCE_PROMPT: &'static str = "recording.silence_prompt";

/// Settings key of the auto-stop threshold in minutes.
pub const SETTING_SILENCE_AUTO_STOP: &'static str = "recording.silence_auto_stop";

/// Auto-stop threshold when the setting is missing or not allowed.
pub const DEFAULT_AUTO_STOP_MIN: u64 = 30;

/// Upper bound of the debug time scale.
pub const MAX_SILENCE_SCALE: u64 = 3600;

/// Whether `m` is one of the allowed thresholds 30, 60 and 120.
pub open spec fn allowed_auto_stop(m: u64) -> bool {
    m == 30 || m == 60 || m == 120
}

/// The threshold read from the stored setting: missing means the default,
/// `never` turns auto-stop off, an allowed number is taken, anything else
/// falls back to the default (it never turns the protection off).
pub open spec fn auto_stop_min_of(raw: Option<Seq<char>>) -> Option<u64> {
    match raw {
        None => Some(DEFAULT_AUTO_STOP_MIN),
        Some(v) => if v == "never"@ {
            None
        } else {
            match parse_u64_spec(v) {
                Some(m) => if allowed_auto_stop(m) {
                    Some(m)
                } else {
                    Some(DEFAULT_AUTO_STOP_MIN)
                },
                None => Some(DEFAULT_AUTO_STOP_MIN),
            }
        },
    }
}

/// Lifts an optional `&str` to its view.
pub open spec fn opt_view(raw: Option<&str>) -> Option<Seq<char>> {
    match raw {
        Some(s) => Some(s@),
        None => None,
    }
}

/// Auto-stop threshold in minutes (see [`auto_stop_min_of`]); `None` is
/// `never`.
pub fn parse_auto_stop_min(raw: Option<&str>) -> (res: Option<u64>)
    ensures
        res == auto_stop_min_of(opt_view(raw)),
{
    match raw {
        None => Some(DEFAULT_AUTO_STOP_MIN),
        Some(v) => {
            if str_is(v, "never") {
                return None;
            }
            let chars = str_chars(v);
            match parse_u64_chars(&chars) {
                Some(m) => if m == 30 || m == 60 || m == 120 {
                    Some(m)
                } else {
                    Some(DEFAULT_AUTO_STOP_MIN)
                },
                None => Some(DEFAULT_AUTO_STOP_MIN),
            }
        },
    }
}

/// Whether a stored switch value turns the feature off: `"0"` or `"false"`.
/// A missing value leaves it on.
pub open spec fn switched_off(raw: Option<Seq<char>>) -> bool {
    match raw {
        Some(v) => v == "0"@ || v == "false"@,
        None => false,
    }
}

/// Whether a stored switch (prompt, chunked pipeline) is off.
pub fn setting_switched_off(raw: Option<&str>) -> (off: bool)
    ensures
        off == switched_off(opt_view(raw)),
{
    match raw {
        Some(v) => str_is(v, "0") || str_is(v, "false"),
        None => false,
    }
}

/// The debug divider of both silence thresholds: only in debug builds, only
/// a number within `1..=3600`; otherwise 1.
pub open spec fn silence_scale_of(raw: Option<Seq<char>>, debug_build: bool) -> u64 {
    if !debug_build {
        1
    } else {
        match raw {
            Some(v) => match parse_u64_spec(v) {
                Some(n) => if 1 <= n && n <= MAX_SILENCE_SCALE {
                    n
                } else {
                    1
                },
                None => 1,
            },
            None => 1,
        }
    }
}

/// Reads the debug time scale from the environment value (see
/// [`silence_scale_of`]).
pub fn silence_scale(raw: Option<&str>, debug_build: bool) -> (n: u64)
    ensures
        n == silence_scale_of(opt_view(raw), debug_build),
        1 <= n <= MAX_SILENCE_SCALE,
{
    if !debug_build {
        return 1;
    }
    match raw {
        Some(v) => {
            let chars = str_chars(v);
            match parse_u64_chars(&chars) {
                Some(n) => if 1 <= n && n <= MAX_SILENCE_SCALE {
                    n
                } else {
                    1
                },
                None => 1,
            }
        },
        None => 1,
    }
}

/// Thresholds of the silence watcher, in milliseconds; `None` disables one.
#[derive(Debug, Clone, Copy, PartialEq, Eq)]
pub struct SilenceThresholds {
    pub suggest_after_ms: Option<u64>,
    pub auto_stop_after_ms: Option<u64>,
}

/// The thresholds from the stored settings, the time scale and the default
/// prompt delay.
pub open spec fn silence_thresholds_of(
    prompt_raw: Option<Seq<char>>,
    auto_stop_raw: Option<Seq<char>>,
    scale: u64,
    suggest_after_ms: u64,
) -> SilenceThresholds {
    SilenceThresholds {
        suggest_after_ms: if switched_off(prompt_raw) {
            None
        } else {
            Some((suggest_after_ms / scale) as u64)
        },
        auto_stop_after_ms: match auto_stop_min_of(auto_stop_raw) {
            Some(m) => Some(((m * 60 * 1000) / scale as int) as u64),
            None => None,
        },
    }
}

/// Builds the watcher thresholds from the stored prompt switch and auto-stop
/// setting.
pub fn silence_thresholds(
    prompt_raw: Option<&str>,
    auto_stop_raw: Option<&str>,
    scale: u64,
    suggest_after_ms: u64,
) -> (t: SilenceThresholds)
    requires
        scale >= 1,
    ensures
        t == silence_thresholds_of(opt_view(prompt_raw), opt_view(auto_stop_raw), scale, suggest_after_ms),
{
    let prompt_off = setting_switched_off(prompt_raw);
    let auto_stop_min = parse_auto_stop_min(auto_stop_raw);
    SilenceThresholds {
        suggest_after_ms: if prompt_off {
            None
        } else {
            Some(suggest_after_ms / scale)
        },
        auto_stop_after_ms: match auto_stop_min {
            Some(m) => Some((m * 60 * 1000) / scale),
            None => None,
        },
    }
}

/// Law: stored garbage never turns auto-stop off; only `never` does.
pub proof fn law_auto_stop_off_only_by_never(raw: Option<Seq<char>>)
    ensures
        auto_stop_min_of(raw) is None <==> raw == Some("never"@),
        auto_stop_min_of(raw) matches Some(m) ==> allowed_auto_stop(m),
{
}

/// Whether an auto-stop the watcher decided still goes ahead, given the
/// re-read of the setting at that moment (`None`: the read failed, else the
/// auto-stop threshold read, `None` inside for `never`). A setting switched
/// to `never` meanwhile cancels it; a failed read does not.
pub open spec fn auto_stop_goes_ahead(reread: Option<Option<u64>>) -> bool {
    !(reread == Some(None::<u64>))
}

/// Decides a pending auto-stop (see [`auto_stop_goes_ahead`]).
pub fn auto_stop_proceeds(reread: Option<Option<u64>>) -> (go: bool)
    ensures
        go == auto_stop_goes_ahead(reread),
{
    match reread {
        Some(None) => false,
        _ => true,
    }
}

/// Length of the silent tail an auto-stop cut: wall-clock time since the
/// start (negative counts as zero) past the trim point, or zero.
pub fn trimmed_tail_ms(elapsed_ms: i64, trim_at_ms: u64) -> (t: u64)
    ensures
        t == (if elapsed_ms <= 0 || elapsed_ms <= trim_at_ms {
            0
        } else {
            (elapsed_ms - trim_at_ms) as u64
        }),
{
    let e: u64 = if elapsed_ms < 0 {
        0
    } else {
        elapsed_ms as u64
    };
    if e <= trim_at_ms {
        0
    } else {
        e - trim_at_ms
    }
}

/// Law: the opt-out holds the moment it is given. When the setting reads
/// `never` at the moment of an auto-stop, the recording is not stopped;
/// any threshold, or a failed read, lets the stop go ahead.
pub proof fn law_never_cancels_pending_auto_stop(raw: Option<Seq<char>>)
    ensures
        !auto_stop_goes_ahead(Some(auto_stop_min_of(raw))) <==> raw == Some("never"@),
        auto_stop_goes_ahead(None),
{
}

} // verus!
