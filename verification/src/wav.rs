//! Reading the layout of a WAV file left behind by a crash: where its
//! audio data starts and its byte rate. A crashed recording's header may
//! carry a stale data size, so the audio length comes from the file's size
//! on disk, never from the header.
//!
//! The scan is a state machine: it asks for a span of the file, the caller
//! reads it (or fails to) and hands the bytes back, and so on until it
//! finishes. Only the header chunks are read, never the audio.
use vstd::prelude::*;

use crate::recording::MIN_RECORDING_MS;

verus! {

/// Where a WAV file's audio data begins, and its byte rate.
#[derive(Debug, Clone, Copy, PartialEq, Eq)]
pub struct WavLayout {
    pub byte_rate: u32,
    pub data_offset: u64,
}

/// State of a scan.
#[derive(Debug, Clone, Copy, PartialEq, Eq)]
pub enum WavScan {
    /// Waiting for the 12-byte `RIFF … WAVE` header at offset 0.
    Header,
    /// Waiting for the 8-byte chunk header at `pos`; `byte_rate` is that of
    /// the last `fmt ` chunk seen.
    Chunk { pos: u64, byte_rate: Option<u32> },
    /// Waiting for the first 16 bytes of the body of the `fmt ` chunk of
    /// `size` bytes whose header is at `pos`.
    Fmt { pos: u64, size: u64 },
    /// The scan is over: the layout, or `None` where the file is missing,
    /// not a WAV, broken, or has no `fmt ` before its `data` chunk.
    Done(Option<WavLayout>),
}

/// Largest chunk position a scan follows (no file reaches it); past it the
/// scan ends with no layout rather than overflow.
pub const MAX_SCAN_POS: u64 = 0x4000_0000_0000_0000;

/// The span a scan asks for next: `(offset, length)`, none when it is over.
pub open spec fn scan_request(s: WavScan) -> Option<(u64, nat)> {
    match s {
        WavScan::Header => Some((0, 12)),
        WavScan::Chunk { pos, .. } => Some((pos, 8)),
        WavScan::Fmt { pos, .. } => Some(((pos + 8) as u64, 16)),
        WavScan::Done(_) => None,
    }
}

/// Whether a state holds positions the scan can still add to.
pub open spec fn scan_wf(s: WavScan) -> bool {
    match s {
        WavScan::Chunk { pos, .. } => pos <= MAX_SCAN_POS,
        WavScan::Fmt { pos, size } => pos <= MAX_SCAN_POS && 16 <= size <= 128,
        _ => true,
    }
}

/// Little-endian `u32` at `at` of `b`.
pub open spec fn le_u32(b: Seq<u8>, at: int) -> u32 {
    (b[at] as int + b[at + 1] as int * 0x100 + b[at + 2] as int * 0x1_0000 + b[at + 3] as int
        * 0x100_0000) as u32
}

/// Whether `b` holds the four ASCII characters `tag` at `at`.
pub open spec fn tag_at(b: Seq<u8>, at: int, tag: Seq<u8>) -> bool {
    b.subrange(at, at + 4) == tag
}

/// Position after a chunk whose header is at `pos` with a body of `size`
/// bytes, padded to an even length.
pub open spec fn next_chunk(pos: u64, size: u64) -> int {
    pos + 8 + size + size % 2
}

/// The scan's step on the bytes read for its last request (`None` when the
/// read failed): a bad RIFF header ends it with no layout; an unreadable
/// chunk header ends it (with no layout: no data chunk was found); a `fmt `
/// chunk outside 16..=128 bytes ends it with no layout, else its byte rate
/// is read; the `data` chunk ends it, with a layout when a byte rate is
/// known; any other chunk is skipped.
pub open spec fn scan_step(s: WavScan, got: Option<Seq<u8>>) -> WavScan {
    match s {
        WavScan::Header => match got {
            Some(b) => if tag_at(b, 0, seq![82u8, 73u8, 70u8, 70u8]) && tag_at(
                b,
                8,
                seq![87u8, 65u8, 86u8, 69u8],
            ) {
                WavScan::Chunk { pos: 12, byte_rate: None }
            } else {
                WavScan::Done(None)
            },
            None => WavScan::Done(None),
        },
        WavScan::Chunk { pos, byte_rate } => match got {
            Some(h) => {
                let size = le_u32(h, 4) as u64;
                if tag_at(h, 0, seq![102u8, 109u8, 116u8, 32u8]) {
                    if 16 <= size <= 128 {
                        WavScan::Fmt { pos, size }
                    } else {
                        WavScan::Done(None)
                    }
                } else if tag_at(h, 0, seq![100u8, 97u8, 116u8, 97u8]) {
                    match byte_rate {
                        Some(r) => WavScan::Done(
                            Some(WavLayout { byte_rate: r, data_offset: (pos + 8) as u64 }),
                        ),
                        None => WavScan::Done(None),
                    }
                } else if next_chunk(pos, size) <= MAX_SCAN_POS {
                    WavScan::Chunk { pos: next_chunk(pos, size) as u64, byte_rate }
                } else {
                    WavScan::Done(None)
                }
            },
            None => WavScan::Done(None),
        },
        WavScan::Fmt { pos, size } => match got {
            Some(f) => if next_chunk(pos, size) <= MAX_SCAN_POS {
                WavScan::Chunk { pos: next_chunk(pos, size) as u64, byte_rate: Some(le_u32(f, 8)) }
            } else {
                WavScan::Done(None)
            },
            None => WavScan::Done(None),
        },
        WavScan::Done(r) => WavScan::Done(r),
    }
}

/// The first request: the RIFF header.
pub fn wav_scan_start() -> (s: WavScan)
    ensures
        s == WavScan::Header,
        scan_wf(s),
{
    WavScan::Header
}

/// The span the scan asks for next (see [`scan_request`]).
pub fn wav_scan_request(s: &WavScan) -> (r: Option<(u64, usize)>)
    requires
        scan_wf(*s),
    ensures
        match scan_request(*s) {
            Some((off, len)) => r == Some((off, len as usize)),
            None => r is None,
        },
{
    match s {
        WavScan::Header => Some((0, 12)),
        WavScan::Chunk { pos, .. } => Some((*pos, 8)),
        WavScan::Fmt { pos, .. } => Some((*pos + 8, 16)),
        WavScan::Done(_) => None,
    }
}

fn read_le_u32(b: &[u8], at: usize) -> (v: u32)
    requires
        at + 4 <= b@.len(),
    ensures
        v == le_u32(b@, at as int),
{
    let v = b[at] as u64 + b[at + 1] as u64 * 0x100 + b[at + 2] as u64 * 0x1_0000 + b[at + 3] as u64
        * 0x100_0000;
    (v as u32)
}

fn tag_is(b: &[u8], at: usize, t0: u8, t1: u8, t2: u8, t3: u8) -> (r: bool)
    requires
        at + 4 <= b@.len(),
    ensures
        r == tag_at(b@, at as int, seq![t0, t1, t2, t3]),
{
    let r = b[at] == t0 && b[at + 1] == t1 && b[at + 2] == t2 && b[at + 3] == t3;
    assert(r == (b@.subrange(at as int, at + 4) =~= seq![t0, t1, t2, t3]));
    r
}

/// One step of the scan (see [`scan_step`]). `got` are the bytes read for
/// the last request, all of them, or `None` when the read failed.
pub fn wav_scan_step(s: WavScan, got: Option<&[u8]>) -> (n: WavScan)
    requires
        scan_wf(s),
        got matches Some(b) ==> scan_request(s) matches Some((_, len)) && b@.len() == len,
    ensures
        n == scan_step(
            s,
            match got {
                Some(b) => Some(b@),
                None => None,
            },
        ),
        scan_wf(n),
{
    match s {
        WavScan::Header => match got {
            Some(b) => if tag_is(b, 0, 82, 73, 70, 70) && tag_is(b, 8, 87, 65, 86, 69) {
                WavScan::Chunk { pos: 12, byte_rate: None }
            } else {
                WavScan::Done(None)
            },
            None => WavScan::Done(None),
        },
        WavScan::Chunk { pos, byte_rate } => match got {
            Some(h) => {
                let size = read_le_u32(h, 4) as u64;
                if tag_is(h, 0, 102, 109, 116, 32) {
                    if 16 <= size && size <= 128 {
                        WavScan::Fmt { pos, size }
                    } else {
                        WavScan::Done(None)
                    }
                } else if tag_is(h, 0, 100, 97, 116, 97) {
                    match byte_rate {
                        Some(r) => WavScan::Done(Some(WavLayout { byte_rate: r, data_offset: pos + 8 })),
                        None => WavScan::Done(None),
                    }
                } else {
                    let next = pos + 8 + size + size % 2;
                    if next <= MAX_SCAN_POS {
                        WavScan::Chunk { pos: next, byte_rate }
                    } else {
                        WavScan::Done(None)
                    }
                }
            },
            None => WavScan::Done(None),
        },
        WavScan::Fmt { pos, size } => match got {
            Some(f) => {
                let next = pos + 8 + size + size % 2;
                if next <= MAX_SCAN_POS {
                    WavScan::Chunk { pos: next, byte_rate: Some(read_le_u32(f, 8)) }
                } else {
                    WavScan::Done(None)
                }
            },
            None => WavScan::Done(None),
        },
        WavScan::Done(r) => WavScan::Done(r),
    }
}

/// Position of the chunk a state is reading, `-1` when it reads none.
pub open spec fn scan_pos(s: WavScan) -> int {
    match s {
        WavScan::Chunk { pos, .. } => pos as int,
        WavScan::Fmt { pos, .. } => pos as int,
        _ => -1,
    }
}

/// Law: the scan only moves forward. Every chunk it asks for next lies past
/// the chunk it just read, so it ends on any file; once over, it stays over.
pub proof fn law_wav_scan_moves_forward(s: WavScan, got: Option<Seq<u8>>)
    requires
        scan_wf(s),
    ensures
        (s is Chunk || s is Fmt) && scan_step(s, got) is Chunk ==> scan_pos(scan_step(s, got))
            > scan_pos(s),
        s matches WavScan::Done(r) ==> scan_step(s, got) == WavScan::Done(r),
{
}

/// The bytes a read of `len` bytes at `off` gives on a file holding `file`:
/// all of them, or a failed read past the end.
pub open spec fn read_span(file: Seq<u8>, off: u64, len: nat) -> Option<Seq<u8>> {
    if off + len <= file.len() {
        Some(file.subrange(off as int, off + len))
    } else {
        None
    }
}

/// The scan run on `file` for at most `fuel` steps from `s`.
pub open spec fn scan_run(file: Seq<u8>, s: WavScan, fuel: nat) -> WavScan
    decreases fuel,
{
    if fuel == 0 {
        s
    } else {
        match scan_request(s) {
            None => s,
            Some((off, len)) => scan_run(file, scan_step(s, read_span(file, off, len)), (fuel - 1) as nat),
        }
    }
}

/// How many more steps a scan of a file of `len` bytes can take from `s`.
pub open spec fn scan_potential(len: nat, s: WavScan) -> nat {
    match s {
        WavScan::Header => 2 * len + 4,
        WavScan::Chunk { pos, .. } => if pos + 8 <= len {
            (2 * (len - pos) + 1) as nat
        } else {
            1
        },
        WavScan::Fmt { pos, .. } => if pos + 8 <= len {
            (2 * (len - pos)) as nat
        } else {
            1
        },
        WavScan::Done(_) => 0,
    }
}

proof fn lemma_scan_step_decreases(file: Seq<u8>, s: WavScan, off: u64, len: nat)
    requires
        scan_wf(s),
        scan_request(s) == Some((off, len)),
    ensures
        scan_wf(scan_step(s, read_span(file, off, len))),
        scan_potential(file.len(), scan_step(s, read_span(file, off, len))) < scan_potential(
            file.len(),
            s,
        ),
{
}

proof fn lemma_scan_run_ends(file: Seq<u8>, s: WavScan, fuel: nat)
    requires
        scan_wf(s),
        fuel >= scan_potential(file.len(), s),
    ensures
        scan_run(file, s, fuel) is Done,
    decreases fuel,
{
    if fuel > 0 {
        match scan_request(s) {
            None => {},
            Some((off, len)) => {
                lemma_scan_step_decreases(file, s, off, len);
                lemma_scan_run_ends(file, scan_step(s, read_span(file, off, len)), (fuel - 1) as nat);
            },
        }
    } else {
        assert(scan_potential(file.len(), s) == 0);
    }
}

/// Law: the scan ends on any file. Fed the reads of a file of `n` bytes, it
/// is over after at most `2n + 4` steps, whatever the file holds.
pub proof fn law_wav_scan_ends(file: Seq<u8>)
    ensures
        scan_run(file, WavScan::Header, 2 * file.len() + 4) is Done,
{
    lemma_scan_run_ends(file, WavScan::Header, 2 * file.len() + 4);
}

/// Law: a `fmt ` chunk is stepped over whole. After the body of a `fmt `
/// chunk of `size` bytes whose header is at `pos` was read, the next chunk
/// header the scan asks for starts right after that body and its pad byte,
/// at `pos + 8 + size` rounded up to even, whatever the body holds.
pub proof fn law_wav_scan_skips_whole_fmt(pos: u64, size: u64, body: Seq<u8>)
    requires
        pos <= MAX_SCAN_POS,
        16 <= size <= 128,
        body.len() == 16,
    ensures
        ({
            let n = scan_step(WavScan::Fmt { pos, size }, Some(body));
            let after: int = pos + 8 + size + (if size % 2 == 1 { 1int } else { 0int });
            &&& after <= MAX_SCAN_POS ==> scan_request(n) == Some((after as u64, 8nat))
            &&& after <= MAX_SCAN_POS ==> (n matches WavScan::Chunk { byte_rate: Some(r), .. } && r
                == body[8] as int + body[9] as int * 256 + body[10] as int * 65536 + body[11] as int
                * 16777216)
        }),
{
}

/// Whether `file` is a RIFF/WAVE file whose first chunk is a `fmt ` chunk
/// of `fmt_size` bytes (16 to 128) and whose next chunk, after the `fmt `
/// body and its pad byte, is a `data` chunk with its 8-byte header present.
pub open spec fn riff_fmt_then_data(file: Seq<u8>, fmt_size: nat) -> bool {
    let d: int = (20 + fmt_size + fmt_size % 2) as int;
    &&& 16 <= fmt_size <= 128
    &&& file.len() >= d + 8
    &&& file[0] == 82u8 && file[1] == 73u8 && file[2] == 70u8 && file[3] == 70u8
    &&& file[8] == 87u8 && file[9] == 65u8 && file[10] == 86u8 && file[11] == 69u8
    &&& file[12] == 102u8 && file[13] == 109u8 && file[14] == 116u8 && file[15] == 32u8
    &&& file[16] as int + file[17] as int * 256 + file[18] as int * 65536 + file[19] as int
        * 16777216 == fmt_size
    &&& file[d] == 100u8 && file[d + 1] == 97u8 && file[d + 2] == 116u8 && file[d + 3] == 97u8
}

proof fn lemma_scan_run_done(file: Seq<u8>, r: Option<WavLayout>, fuel: nat)
    ensures
        scan_run(file, WavScan::Done(r), fuel) == WavScan::Done(r),
{
    if fuel > 0 {
    }
}

/// Law: the scan finds the audio of a plain WAV file. On a RIFF/WAVE file
/// whose `fmt ` chunk, of any size from 16 to 128 bytes, is followed by the
/// `data` chunk, the scan ends with the layout: the audio starts 8 bytes
/// after the `data` chunk's header, and the byte rate is the little-endian
/// number at bytes 8..12 of the `fmt ` body.
pub proof fn law_wav_scan_finds_data_after_fmt(file: Seq<u8>, fmt_size: nat)
    requires
        riff_fmt_then_data(file, fmt_size),
    ensures
        scan_run(file, WavScan::Header, 2 * file.len() + 4) == WavScan::Done(
            Some(
                WavLayout {
                    byte_rate: (file[28] as int + file[29] as int * 256 + file[30] as int * 65536
                        + file[31] as int * 16777216) as u32,
                    data_offset: (20 + fmt_size + fmt_size % 2 + 8) as u64,
                },
            ),
        ),
{
    let d: int = (20 + fmt_size + fmt_size % 2) as int;
    let fuel: nat = 2 * file.len() + 4;
    let br: u32 = (file[28] as int + file[29] as int * 256 + file[30] as int * 65536 + file[31] as int
        * 16777216) as u32;
    // The RIFF header.
    let h0 = file.subrange(0, 12);
    assert(h0.subrange(0, 4) =~= seq![82u8, 73u8, 70u8, 70u8]);
    assert(h0.subrange(8, 12) =~= seq![87u8, 65u8, 86u8, 69u8]);
    let s1 = WavScan::Chunk { pos: 12, byte_rate: None };
    assert(read_span(file, 0, 12) == Some(h0));
    assert(scan_step(WavScan::Header, Some(h0)) == s1);
    assert(scan_run(file, WavScan::Header, fuel) == scan_run(file, s1, (fuel - 1) as nat));
    // The `fmt ` chunk header.
    let h1 = file.subrange(12, 20);
    assert(h1.subrange(0, 4) =~= seq![102u8, 109u8, 116u8, 32u8]);
    assert(le_u32(h1, 4) as int == fmt_size) by {
        assert(h1[4] == file[16] && h1[5] == file[17] && h1[6] == file[18] && h1[7] == file[19]);
    }
    let s2 = WavScan::Fmt { pos: 12, size: fmt_size as u64 };
    assert(read_span(file, 12, 8) == Some(h1));
    assert(scan_step(s1, Some(h1)) == s2);
    assert(scan_run(file, s1, (fuel - 1) as nat) == scan_run(file, s2, (fuel - 2) as nat));
    // The `fmt ` body.
    let b = file.subrange(20, 36);
    assert(le_u32(b, 8) == br) by {
        assert(b[8] == file[28] && b[9] == file[29] && b[10] == file[30] && b[11] == file[31]);
    }
    let s3 = WavScan::Chunk { pos: d as u64, byte_rate: Some(br) };
    assert(read_span(file, 20, 16) == Some(b));
    assert(next_chunk(12, fmt_size as u64) == d);
    assert(scan_step(s2, Some(b)) == s3);
    assert(scan_run(file, s2, (fuel - 2) as nat) == scan_run(file, s3, (fuel - 3) as nat));
    // The `data` chunk header.
    let h2 = file.subrange(d, d + 8);
    assert(h2.subrange(0, 4) =~= seq![100u8, 97u8, 116u8, 97u8]);
    assert(!(h2.subrange(0, 4) =~= seq![102u8, 109u8, 116u8, 32u8])) by {
        assert(h2.subrange(0, 4)[0] == 100u8);
    }
    let layout = WavLayout { byte_rate: br, data_offset: (d + 8) as u64 };
    assert(read_span(file, d as u64, 8) == Some(h2));
    assert(scan_step(s3, Some(h2)) == WavScan::Done(Some(layout)));
    assert(scan_run(file, s3, (fuel - 3) as nat) == scan_run(
        file,
        WavScan::Done(Some(layout)),
        (fuel - 4) as nat,
    ));
    lemma_scan_run_done(file, Some(layout), (fuel - 4) as nat);
}

/// Whether an interrupted recording is long enough to keep: its mic track
/// has a layout, a byte rate above zero, audio after the data offset, and at
/// least 30 seconds of it (`(file_len - data_offset) / byte_rate >= 30`).
pub open spec fn orphan_long_enough(layout: Option<WavLayout>, file_len: u64) -> bool {
    match layout {
        Some(l) => l.byte_rate > 0 && file_len > l.data_offset && (file_len - l.data_offset)
            >= (MIN_RECORDING_MS / 1000) * l.byte_rate,
        None => false,
    }
}

/// Decides an interrupted recording (see [`orphan_long_enough`]): kept and
/// marked failed when long enough, discarded otherwise.
pub fn keep_orphan_recording(layout: Option<WavLayout>, file_len: u64) -> (keep: bool)
    ensures
        keep == orphan_long_enough(layout, file_len),
{
    match layout {
        Some(l) => l.byte_rate > 0 && file_len > l.data_offset && (file_len - l.data_offset) >= 30
            * (l.byte_rate as u64),
        None => false,
    }
}

} // verus!
