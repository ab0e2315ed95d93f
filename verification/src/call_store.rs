//! On-disk layout of a call's directory and the audio-presence rule.
//!
//! `<root>/calls/<id>/{mic,system}.wav` are the root tracks;
//! `<root>/calls/<id>/chunks/<idx>/{mic,system}.wav` are the chunk tracks
//! written while chunked recording is active.
use vstd::prelude::*;

use crate::error::AppError;
use crate::text::{decimal, push_decimal, push_str, str_is, to_owned_string};

verus! {

/// `a` joined with one more path segment.
pub open spec fn join(a: Seq<char>, seg: Seq<char>) -> Seq<char> {
    a + seq!['/'] + seg
}

/// Directory of one call.
pub open spec fn call_dir_spec(root: Seq<char>, id: Seq<char>) -> Seq<char> {
    join(join(root, "calls"@), id)
}

/// Directory holding the chunk directories of a call.
pub open spec fn chunks_dir_spec(root: Seq<char>, id: Seq<char>) -> Seq<char> {
    join(call_dir_spec(root, id), "chunks"@)
}

/// Directory of chunk `idx` of a call.
pub open spec fn chunk_dir_spec(root: Seq<char>, id: Seq<char>, idx: nat) -> Seq<char> {
    join(chunks_dir_spec(root, id), decimal(idx))
}

/// Where the paths of the app's calls are rooted.
#[derive(Debug, Clone)]
pub struct CallStore {
    pub root: String,
}

/// Appends `/` and `seg` to `out`.
fn push_segment(out: &mut String, seg: &str)
    ensures
        final(out)@ == join(old(out)@, seg@),
{
    push_str(out, "/");
    push_str(out, seg);
    proof {
        reveal_strlit("/");
    }
    assert(out@ =~= join(old(out)@, seg@));
}

impl CallStore {
    /// A store rooted at `root`.
    pub fn new(root: String) -> (s: CallStore)
        ensures
            s.root == root,
    {
        CallStore { root }
    }

    /// `<root>/calls/<id>`.
    pub fn call_dir(&self, id: &str) -> (p: String)
        ensures
            p@ == call_dir_spec(self.root@, id@),
    {
        let mut p = self.root.clone();
        push_segment(&mut p, "calls");
        push_segment(&mut p, id);
        p
    }

    /// `<root>/calls/<id>/mic.wav`.
    pub fn mic_path(&self, id: &str) -> (p: String)
        ensures
            p@ == join(call_dir_spec(self.root@, id@), "mic.wav"@),
    {
        let mut p = self.call_dir(id);
        push_segment(&mut p, "mic.wav");
        p
    }

    /// `<root>/calls/<id>/system.wav`.
    pub fn system_path(&self, id: &str) -> (p: String)
        ensures
            p@ == join(call_dir_spec(self.root@, id@), "system.wav"@),
    {
        let mut p = self.call_dir(id);
        push_segment(&mut p, "system.wav");
        p
    }

    /// `<root>/calls/<id>/chunks`.
    pub fn chunks_dir(&self, id: &str) -> (p: String)
        ensures
            p@ == chunks_dir_spec(self.root@, id@),
    {
        let mut p = self.call_dir(id);
        push_segment(&mut p, "chunks");
        p
    }

    /// `<root>/calls/<id>/chunks/<idx>`.
    pub fn chunk_dir(&self, id: &str, idx: u32) -> (p: String)
        ensures
            p@ == chunk_dir_spec(self.root@, id@, idx as nat),
    {
        let mut p = self.chunks_dir(id);
        let ghost before = p@;
        push_str(&mut p, "/");
        push_decimal(&mut p, idx as u64);
        proof {
            reveal_strlit("/");
        }
        assert(p@ =~= join(before, decimal(idx as nat)));
        p
    }

    /// `<root>/calls/<id>/chunks/<idx>/mic.wav`.
    pub fn chunk_mic_path(&self, id: &str, idx: u32) -> (p: String)
        ensures
            p@ == join(chunk_dir_spec(self.root@, id@, idx as nat), "mic.wav"@),
    {
        let mut p = self.chunk_dir(id, idx);
        push_segment(&mut p, "mic.wav");
        p
    }

    /// `<root>/calls/<id>/chunks/<idx>/system.wav`.
    pub fn chunk_system_path(&self, id: &str, idx: u32) -> (p: String)
        ensures
            p@ == join(chunk_dir_spec(self.root@, id@, idx as nat), "system.wav"@),
    {
        let mut p = self.chunk_dir(id, idx);
        push_segment(&mut p, "system.wav");
        p
    }
}

/// What is on disk of a call's audio: the two root tracks and the number of
/// chunk WAVs of each track.
#[derive(Debug, Clone, Copy)]
pub struct AudioPresence {
    pub mic_exists: bool,
    pub system_exists: bool,
    pub mic_chunk_wavs: usize,
    pub system_chunk_wavs: usize,
}

/// Whether a call has any audio on disk: a root WAV of either track or at
/// least one chunk WAV.
pub open spec fn has_audio(p: AudioPresence) -> bool {
    p.mic_exists || p.system_exists || p.mic_chunk_wavs > 0 || p.system_chunk_wavs > 0
}

/// Whether a call has any audio on disk (see [`has_audio`]). Recovery and
/// parked-call resumption use the same rule.
pub fn call_has_audio(p: &AudioPresence) -> (b: bool)
    ensures
        b == has_audio(*p),
{
    p.mic_exists || p.system_exists || p.mic_chunk_wavs != 0 || p.system_chunk_wavs != 0
}

/// File name of a track kind the player asks for: `mic` or `system`.
pub open spec fn audio_file_of(kind: Seq<char>) -> Option<Seq<char>> {
    if kind == "mic"@ {
        Some("mic.wav"@)
    } else if kind == "system"@ {
        Some("system.wav"@)
    } else {
        None
    }
}

/// The WAV file name of a track kind; any other kind is refused with
/// `unknown audio kind: <kind>`.
pub fn audio_file_name(kind: &str) -> (r: Result<&'static str, AppError>)
    ensures
        match audio_file_of(kind@) {
            Some(f) => r matches Ok(n) && n@ == f,
            None => r matches Err(e) && e matches AppError::Other(m) && m@ == "unknown audio kind: "@
                + kind@,
        },
{
    if str_is(kind, "mic") {
        Ok("mic.wav")
    } else if str_is(kind, "system") {
        Ok("system.wav")
    } else {
        let mut m = to_owned_string("unknown audio kind: ");
        push_str(&mut m, kind);
        Err(AppError::Other(m))
    }
}

/// Which file the player gets for a track.
#[derive(Debug, Clone, Copy, PartialEq, Eq)]
pub enum AudioSource {
    /// The root track of the call.
    Root,
    /// Chunk 0's track: partial audio is better than none.
    FirstChunk,
    /// Merge the chunks into the root track first, then look again.
    MergeChunks,
    /// There is no audio to play.
    Missing,
}

/// First look for a track: the root file when it exists; else, when the
/// call has chunks, merge them; else nothing.
pub fn audio_source_first(root_exists: bool, chunks_dir_exists: bool) -> (a: AudioSource)
    ensures
        a == (if root_exists {
            AudioSource::Root
        } else if chunks_dir_exists {
            AudioSource::MergeChunks
        } else {
            AudioSource::Missing
        }),
{
    if root_exists {
        AudioSource::Root
    } else if chunks_dir_exists {
        AudioSource::MergeChunks
    } else {
        AudioSource::Missing
    }
}

/// Look after merging: the root file when the merge produced it, else
/// chunk 0's file when it exists, else nothing.
pub fn audio_source_after_merge(root_exists: bool, first_chunk_exists: bool) -> (a: AudioSource)
    ensures
        a == (if root_exists {
            AudioSource::Root
        } else if first_chunk_exists {
            AudioSource::FirstChunk
        } else {
            AudioSource::Missing
        }),
{
    if root_exists {
        AudioSource::Root
    } else if first_chunk_exists {
        AudioSource::FirstChunk
    } else {
        AudioSource::Missing
    }
}

/// The error of a track with no audio: `audio file <file> не найден для звонка <id>`.
pub fn audio_missing(file_name: &str, call_id: &str) -> (e: AppError)
    ensures
        e matches AppError::Other(m) && m@ == "audio file "@ + file_name@ + " не найден для звонка "@
            + call_id@,
{
    let mut m = to_owned_string("audio file ");
    push_str(&mut m, file_name);
    push_str(&mut m, " не найден для звонка ");
    push_str(&mut m, call_id);
    AppError::Other(m)
}

} // verus!
