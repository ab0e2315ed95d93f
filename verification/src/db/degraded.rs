//! Degraded flags of a call: stable codes of what went less than ideal,
//! kept as a JSON array of codes in one column of the call's row.
use vstd::prelude::*;

use crate::error::AppError;
use crate::json::{
    decode_string_list, encode_string_list, json_error_text, json_string_list,
    json_text_of_string_list,
};
use crate::silence::opt_view;
use crate::text::{push_str, strings_view, to_owned_string};

verus! {

/// What went less than ideal in a call. The codes are stable: they are
/// stored and shown by the webview.
#[derive(Debug, Clone, Copy, PartialEq, Eq)]
pub enum DegradedFlag {
    /// Not every chunk was transcribed.
    PartialTranscript,
    /// The system track was not split into voices.
    SystemTrackNotDiarized,
    /// The microphone track was not split into voices.
    MicTrackNotDiarized,
    /// Voice clustering failed; speakers stayed anonymous.
    SpeakerClusteringFailed,
    /// Re-transcribing in the detected language failed.
    LanguageRepinFailed,
    /// A device gap in the microphone track was filled with silence.
    MicTrackGapPadded,
    /// A device gap in the system track was filled with silence.
    SystemTrackGapPadded,
    /// The app stopped the recording after silence and cut the silent tail.
    AutoStoppedOnSilence,
}

/// The stored code of a flag.
pub open spec fn flag_code(f: DegradedFlag) -> Seq<char> {
    match f {
        DegradedFlag::PartialTranscript => "partial_transcript"@,
        DegradedFlag::SystemTrackNotDiarized => "system_track_not_diarized"@,
        DegradedFlag::MicTrackNotDiarized => "mic_track_not_diarized"@,
        DegradedFlag::SpeakerClusteringFailed => "speaker_clustering_failed"@,
        DegradedFlag::LanguageRepinFailed => "language_repin_failed"@,
        DegradedFlag::MicTrackGapPadded => "mic_track_gap_padded"@,
        DegradedFlag::SystemTrackGapPadded => "system_track_gap_padded"@,
        DegradedFlag::AutoStoppedOnSilence => "auto_stopped_on_silence"@,
    }
}

impl DegradedFlag {
    /// Code of the flag for the store and the webview.
    pub fn as_str(self) -> (s: &'static str)
        ensures
            s@ == flag_code(self),
    {
        match self {
            DegradedFlag::PartialTranscript => "partial_transcript",
            DegradedFlag::SystemTrackNotDiarized => "system_track_not_diarized",
            DegradedFlag::MicTrackNotDiarized => "mic_track_not_diarized",
            DegradedFlag::SpeakerClusteringFailed => "speaker_clustering_failed",
            DegradedFlag::LanguageRepinFailed => "language_repin_failed",
            DegradedFlag::MicTrackGapPadded => "mic_track_gap_padded",
            DegradedFlag::SystemTrackGapPadded => "system_track_gap_padded",
            DegradedFlag::AutoStoppedOnSilence => "auto_stopped_on_silence",
        }
    }
}

/// The flags a stored column holds: its JSON array of strings, and no
/// flags where the column is empty or does not hold such an array.
pub open spec fn parsed_flags(raw: Option<Seq<char>>) -> Seq<Seq<char>> {
    match raw {
        Some(s) => match json_string_list(s) {
            Some(v) => v,
            None => Seq::empty(),
        },
        None => Seq::empty(),
    }
}

/// The flags from a decoded column: the decoded list, or none when the
/// column did not decode.
pub fn flags_from_decoded(decoded: Option<Vec<String>>) -> (flags: Vec<String>)
    ensures
        match decoded {
            Some(v) => flags == v,
            None => flags@.len() == 0,
        },
{
    match decoded {
        Some(v) => v,
        None => Vec::new(),
    }
}

/// Reads the flags column (see [`parsed_flags`]): a broken value reads as
/// no flags rather than an error.
pub fn parse_flags(raw: Option<&str>) -> (flags: Vec<String>)
    ensures
        strings_view(flags@) == parsed_flags(opt_view(raw)),
{
    match raw {
        Some(s) => {
            let v = flags_from_decoded(decode_string_list(s));
            assert(json_string_list(s@) is None ==> strings_view(v@) =~= Seq::<Seq<char>>::empty());
            v
        },
        None => {
            let v: Vec<String> = Vec::new();
            assert(strings_view(v@) =~= Seq::<Seq<char>>::empty());
            v
        },
    }
}

/// The list after adding `code`: unchanged (`None`, nothing to write) when
/// the code is already there, else the code appended at the end.
pub open spec fn flags_after_add(flags: Seq<Seq<char>>, code: Seq<char>) -> Option<Seq<Seq<char>>> {
    if flags.contains(code) {
        None
    } else {
        Some(flags.push(code))
    }
}

/// Adds a flag to a list of codes (see [`flags_after_add`]).
pub fn with_flag(flags: Vec<String>, flag: DegradedFlag) -> (r: Option<Vec<String>>)
    ensures
        match r {
            Some(v) => flags_after_add(strings_view(flags@), flag_code(flag)) == Some(strings_view(v@)),
            None => flags_after_add(strings_view(flags@), flag_code(flag)) is None,
        },
{
    let code = flag.as_str();
    let code_s = to_owned_string(code);
    let ghost fv = strings_view(flags@);
    let mut k: usize = 0;
    while k < flags.len()
        invariant
            k <= flags.len(),
            fv == strings_view(flags@),
            code_s@ == code@,
            code@ == flag_code(flag),
            forall|j: int| 0 <= j < k ==> fv[j] != code@,
        decreases flags.len() - k,
    {
        assert(fv[k as int] == flags@[k as int]@);
        if flags[k] == code_s {
            assert(fv[k as int] == code@);
            assert(fv.contains(code@));
            return None;
        }
        k = k + 1;
    }
    assert(!fv.contains(code@)) by {
        if fv.contains(code@) {
            let j = choose|j: int| 0 <= j < fv.len() && fv[j] == code@;
            assert(fv[j] != code@);
        }
    }
    let mut out = flags;
    out.push(code_s);
    assert(strings_view(out@) =~= fv.push(code@));
    Some(out)
}

/// Prefix of the error of a failed write of the column.
pub const SERIALIZE_ERROR_PREFIX: &'static str = "degraded_flags serialize: ";

/// The column text for a list of codes: its JSON array, which reads back as
/// the same list. Encoding a list of strings does not fail; the error arm,
/// an `Other` error whose message starts with [`SERIALIZE_ERROR_PREFIX`],
/// is kept for the type's sake and is never taken.
pub fn encode_flags(flags: &Vec<String>) -> (r: Result<String, AppError>)
    ensures
        r is Ok,
        r matches Ok(s) ==> s@ == json_text_of_string_list(strings_view(flags@)),
        r matches Ok(s) ==> parsed_flags(Some(s@)) == strings_view(flags@),
        r matches Err(e) ==> (e matches AppError::Other(m) && m@.take(
            SERIALIZE_ERROR_PREFIX@.len() as int,
        ) == SERIALIZE_ERROR_PREFIX@),
{
    match encode_string_list(flags) {
        Ok(s) => Ok(s),
        Err(e) => {
            let mut m = to_owned_string(SERIALIZE_ERROR_PREFIX);
            let ghost p = m@;
            push_str(&mut m, &json_error_text(&e));
            assert(m@.take(p.len() as int) =~= p);
            Err(AppError::Other(m))
        },
    }
}

/// What adding a flag writes to the call's column, read as `raw`: nothing
/// (`Ok(None)`) when the flag is already recorded, else the JSON text of the
/// stored flags with the new code appended. Either way, listing the flags
/// after the write gives the old list, with the code appended if it was new.
pub fn add_flag_update(raw: Option<&str>, flag: DegradedFlag) -> (r: Result<Option<String>, AppError>)
    ensures
        flags_after_add(parsed_flags(opt_view(raw)), flag_code(flag)) is None ==> r == Ok::<
            Option<String>,
            AppError,
        >(None),
        flags_after_add(parsed_flags(opt_view(raw)), flag_code(flag)) matches Some(n) ==> (r matches Ok(
            Some(s),
        ) && s@ == json_text_of_string_list(n) && parsed_flags(Some(s@)) == n),
        r matches Ok(None) ==> parsed_flags(opt_view(raw)).contains(flag_code(flag)),
        r matches Ok(Some(s)) ==> parsed_flags(Some(s@)) == parsed_flags(opt_view(raw)).push(
            flag_code(flag),
        ),
{
    let flags = parse_flags(raw);
    match with_flag(flags, flag) {
        None => Ok(None),
        Some(v) => match encode_flags(&v) {
            Ok(s) => Ok(Some(s)),
            Err(e) => Err(e),
        },
    }
}

/// Law: the stored codes of distinct flags are distinct.
pub proof fn law_flag_codes_distinct(a: DegradedFlag, b: DegradedFlag)
    ensures
        flag_code(a) == flag_code(b) ==> a == b,
{
    reveal_strlit("partial_transcript");
    reveal_strlit("system_track_not_diarized");
    reveal_strlit("mic_track_not_diarized");
    reveal_strlit("speaker_clustering_failed");
    reveal_strlit("language_repin_failed");
    reveal_strlit("mic_track_gap_padded");
    reveal_strlit("system_track_gap_padded");
    reveal_strlit("auto_stopped_on_silence");
    if flag_code(a) == flag_code(b) {
        assert(flag_code(a).len() == flag_code(b).len());
        assert(flag_code(a)[0] == flag_code(b)[0]);
        assert(flag_code(a)[1] == flag_code(b)[1]);
    }
}

/// Law: adding a flag is idempotent. After a flag was added, adding it again
/// changes nothing; and a flag that is not added was already there.
pub proof fn law_add_flag_idempotent(flags: Seq<Seq<char>>, code: Seq<char>)
    ensures
        flags_after_add(flags, code) matches Some(n) ==> flags_after_add(n, code) is None,
        flags_after_add(flags, code) is None ==> flags.contains(code),
{
    if let Some(n) = flags_after_add(flags, code) {
        assert(n[flags.len() as int] == code);
    }
}

/// Law: adding a flag keeps the earlier flags, in their order, and puts the
/// new one last; a list without repeats stays without repeats.
pub proof fn law_add_flag_keeps_order(flags: Seq<Seq<char>>, code: Seq<char>)
    ensures
        flags_after_add(flags, code) matches Some(n) ==> n.len() == flags.len() + 1
            && n.take(flags.len() as int) == flags && n.last() == code,
        flags.no_duplicates() ==> (flags_after_add(flags, code) matches Some(n) ==> n.no_duplicates()),
{
    if let Some(n) = flags_after_add(flags, code) {
        assert(n.take(flags.len() as int) =~= flags);
        if flags.no_duplicates() {
            assert forall|i: int, j: int| 0 <= i < n.len() && 0 <= j < n.len() && i != j implies n[i]
                != n[j] by {
                if i == flags.len() as int {
                    assert(!flags.contains(code));
                    assert(n[j] == flags[j]);
                } else if j == flags.len() as int {
                    assert(!flags.contains(code));
                    assert(n[i] == flags[i]);
                }
            }
        }
    }
}

} // verus!
