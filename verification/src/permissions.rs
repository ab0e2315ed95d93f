//! macOS privacy permissions: the whitelist from pane identifiers (sent by
//! the webview) to TCC service names and System Settings URLs.
use vstd::prelude::*;

use crate::error::AppError;
use crate::text::{push_str, str_is, to_owned_string};

verus! {

/// Absolute path of `tccutil`: a binary found through `PATH` would inherit
/// the app's TCC responsibility.
pub const TCCUTIL_PATH: &'static str = "/usr/bin/tccutil";

/// The TCC service of a pane, if the pane is known.
pub open spec fn tcc_service_of(pane: Seq<char>) -> Option<Seq<char>> {
    if pane == "microphone"@ {
        Some("Microphone"@)
    } else if pane == "screen_recording"@ {
        Some("ScreenCapture"@)
    } else {
        None
    }
}

/// The System Settings URL of a pane, if the pane is known.
pub open spec fn privacy_pane_url_of(pane: Seq<char>) -> Option<Seq<char>> {
    if pane == "microphone"@ {
        Some("x-apple.systempreferences:com.apple.preference.security?Privacy_Microphone"@)
    } else if pane == "screen_recording"@ {
        Some("x-apple.systempreferences:com.apple.preference.security?Privacy_ScreenCapture"@)
    } else {
        None
    }
}

/// Message of the unknown-pane error.
pub open spec fn unknown_pane_message(pane: Seq<char>) -> Seq<char> {
    "unknown pane: "@ + pane
}

/// `unknown pane: <pane>` as an error.
fn unknown_pane(pane: &str) -> (e: AppError)
    ensures
        e matches AppError::Other(m) && m@ == unknown_pane_message(pane@),
{
    let mut m = to_owned_string("unknown pane: ");
    push_str(&mut m, pane);
    AppError::Other(m)
}

/// TCC service name for a pane identifier. Unknown identifiers are refused,
/// never passed on to `tccutil`.
pub fn tcc_service(pane: &str) -> (res: Result<&'static str, AppError>)
    ensures
        match tcc_service_of(pane@) {
            Some(s) => res matches Ok(r) && r@ == s,
            None => res matches Err(AppError::Other(m)) && m@ == unknown_pane_message(pane@),
        },
{
    if str_is(pane, "microphone") {
        Ok("Microphone")
    } else if str_is(pane, "screen_recording") {
        Ok("ScreenCapture")
    } else {
        Err(unknown_pane(pane))
    }
}

/// System Settings URL for a pane identifier. Unknown identifiers are
/// refused, never passed on to `open`.
pub fn privacy_pane_url(pane: &str) -> (res: Result<&'static str, AppError>)
    ensures
        match privacy_pane_url_of(pane@) {
            Some(s) => res matches Ok(r) && r@ == s,
            None => res matches Err(AppError::Other(m)) && m@ == unknown_pane_message(pane@),
        },
{
    if str_is(pane, "microphone") {
        Ok("x-apple.systempreferences:com.apple.preference.security?Privacy_Microphone")
    } else if str_is(pane, "screen_recording") {
        Ok("x-apple.systempreferences:com.apple.preference.security?Privacy_ScreenCapture")
    } else {
        Err(unknown_pane(pane))
    }
}

/// The URL table of the recording window, which also knows the
/// accessibility pane.
pub open spec fn recording_pane_url_of(pane: Seq<char>) -> Option<Seq<char>> {
    if pane == "accessibility"@ {
        Some("x-apple.systempreferences:com.apple.preference.security?Privacy_Accessibility"@)
    } else {
        privacy_pane_url_of(pane)
    }
}

/// System Settings URL for the recording window's pane identifiers.
pub fn recording_pane_url(pane: &str) -> (res: Result<&'static str, AppError>)
    ensures
        match recording_pane_url_of(pane@) {
            Some(s) => res matches Ok(r) && r@ == s,
            None => res matches Err(AppError::Other(m)) && m@ == unknown_pane_message(pane@),
        },
{
    if str_is(pane, "accessibility") {
        Ok("x-apple.systempreferences:com.apple.preference.security?Privacy_Accessibility")
    } else {
        privacy_pane_url(pane)
    }
}

/// Message of a failed reset.
pub open spec fn reset_failed_message(service: Seq<char>, cause: Seq<char>) -> Seq<char> {
    "permission reset failed: "@ + service + " ("@ + cause + ")"@
}

/// Error text of a failed permission reset. It is kept apart from the
/// permission-denied texts, so a failed reset is not explained to the user
/// as a missing permission.
pub fn reset_failed(service: &str, cause: &str) -> (m: String)
    ensures
        m@ == reset_failed_message(service@, cause@),
{
    let mut m = to_owned_string("permission reset failed: ");
    push_str(&mut m, service);
    push_str(&mut m, " (");
    push_str(&mut m, cause);
    push_str(&mut m, ")");
    m
}

/// Law: every pane that has a TCC service has a settings URL, and the
/// reverse; nothing else resolves.
pub proof fn law_panes_resolve_together(pane: Seq<char>)
    ensures
        tcc_service_of(pane) is Some <==> privacy_pane_url_of(pane) is Some,
{
}

} // verus!
