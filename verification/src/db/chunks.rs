//! Rows of `call_chunks` and their status machine:
//! `pending → processing → done`, `* → failed`, `failed → pending` (retry).
use vstd::prelude::*;

use crate::error::AppError;
use crate::silence::opt_view;
use crate::text::{opt_string_view, push_decimal, push_str, str_is, to_owned_string};

verus! {

/// Snapshot of one `call_chunks` row.
#[derive(Debug, Clone)]
pub struct ChunkRow {
    pub call_id: String,
    pub chunk_idx: u32,
    pub start_ms: i64,
    pub end_ms: Option<i64>,
    pub mic_path: String,
    pub system_path: String,
    pub status: String,
    pub transcript_json: Option<String>,
    pub system_transcript_json: Option<String>,
    pub embeddings_json: Option<String>,
}

/// Status of a chunk.
#[derive(Debug, Clone, Copy, PartialEq, Eq)]
pub enum ChunkStatus {
    Pending,
    Processing,
    Done,
    Failed,
}

/// A requested status change.
#[derive(Debug, Clone, Copy, PartialEq, Eq)]
pub enum ChunkTransition {
    /// Retry: `failed → pending`.
    ToPending,
    /// Runner start: `pending → processing`.
    ToProcessing,
    /// Runner finish: `processing → done`.
    ToDone,
    /// Failure: from any status.
    ToFailed,
}

/// The status after a change, or `None` when the change is illegal from
/// `from` (the store then reports an error, or does nothing for `ToFailed`
/// which is always legal).
pub open spec fn chunk_step(from: ChunkStatus, t: ChunkTransition) -> Option<ChunkStatus> {
    match t {
        ChunkTransition::ToPending => if from == ChunkStatus::Failed {
            Some(ChunkStatus::Pending)
        } else {
            None
        },
        ChunkTransition::ToProcessing => if from == ChunkStatus::Pending {
            Some(ChunkStatus::Processing)
        } else {
            None
        },
        ChunkTransition::ToDone => if from == ChunkStatus::Processing {
            Some(ChunkStatus::Done)
        } else {
            None
        },
        ChunkTransition::ToFailed => Some(ChunkStatus::Failed),
    }
}

/// Text stored for a status.
pub open spec fn chunk_status_text(s: ChunkStatus) -> Seq<char> {
    match s {
        ChunkStatus::Pending => "pending"@,
        ChunkStatus::Processing => "processing"@,
        ChunkStatus::Done => "done"@,
        ChunkStatus::Failed => "failed"@,
    }
}

impl ChunkStatus {
    /// Text stored in `call_chunks.status`.
    pub fn as_str(self) -> (s: &'static str)
        ensures
            s@ == chunk_status_text(self),
    {
        match self {
            ChunkStatus::Pending => "pending",
            ChunkStatus::Processing => "processing",
            ChunkStatus::Done => "done",
            ChunkStatus::Failed => "failed",
        }
    }

    /// The status stored as `s`, if `s` is one of the four.
    pub fn parse(s: &str) -> (r: Option<ChunkStatus>)
        ensures
            r matches Some(st) ==> chunk_status_text(st) == s@,
            r is None ==> forall|st: ChunkStatus| chunk_status_text(st) != s@,
    {
        if str_is(s, "pending") {
            Some(ChunkStatus::Pending)
        } else if str_is(s, "processing") {
            Some(ChunkStatus::Processing)
        } else if str_is(s, "done") {
            Some(ChunkStatus::Done)
        } else if str_is(s, "failed") {
            Some(ChunkStatus::Failed)
        } else {
            proof {
                assert forall|st: ChunkStatus| chunk_status_text(st) != s@ by {
                    match st {
                        ChunkStatus::Pending => {},
                        ChunkStatus::Processing => {},
                        ChunkStatus::Done => {},
                        ChunkStatus::Failed => {},
                    }
                }
            }
            None
        }
    }
}

/// The status a row must have for a change to apply (the `WHERE status = ?`
/// guard), and the status it gets. `None` as guard: any status.
pub fn chunk_gate(t: ChunkTransition) -> (g: (Option<ChunkStatus>, ChunkStatus))
    ensures
        forall|from: ChunkStatus|
            #![auto]
            chunk_step(from, t) == (match g.0 {
                Some(req) => if from == req {
                    Some(g.1)
                } else {
                    None
                },
                None => Some(g.1),
            }),
{
    match t {
        ChunkTransition::ToPending => (Some(ChunkStatus::Failed), ChunkStatus::Pending),
        ChunkTransition::ToProcessing => (Some(ChunkStatus::Pending), ChunkStatus::Processing),
        ChunkTransition::ToDone => (Some(ChunkStatus::Processing), ChunkStatus::Done),
        ChunkTransition::ToFailed => (None, ChunkStatus::Failed),
    }
}

/// Whether every chunk of a call is done, from the row count and the count
/// of done rows: `false` when the call has no chunks at all.
pub fn all_chunks_done(total: i64, done: i64) -> (b: bool)
    ensures
        b == (total > 0 && total == done),
{
    total > 0 && total == done
}

/// Law: `done` is reached only from `processing`, `processing` only from
/// `pending`, `pending` only from `failed`; `failed` from anywhere.
pub proof fn law_chunk_fsm(from: ChunkStatus, t: ChunkTransition)
    ensures
        chunk_step(from, t) == Some(ChunkStatus::Done) ==> from == ChunkStatus::Processing,
        chunk_step(from, t) == Some(ChunkStatus::Processing) ==> from == ChunkStatus::Pending,
        chunk_step(from, t) == Some(ChunkStatus::Pending) ==> from == ChunkStatus::Failed,
        chunk_step(from, ChunkTransition::ToFailed) == Some(ChunkStatus::Failed),
{
}

/// Law: a chunk that is done or running is never put back to pending (a
/// retry cannot race a running chunk).
pub proof fn law_no_retry_of_live_chunk(from: ChunkStatus)
    requires
        from != ChunkStatus::Failed,
    ensures
        chunk_step(from, ChunkTransition::ToPending) is None,
{
}

/// Message of a status change that the chunk's row does not allow: the
/// operation, the chunk, and the status the row must have.
pub open spec fn transition_refused_message(op: Seq<char>, call_id: Seq<char>, k: u32, required: Seq<char>) -> Seq<
    char,
> {
    op + ": chunk "@ + call_id + "/"@ + crate::text::decimal(k as nat) + " not in '"@ + required
        + "' status"@
}

/// Whether `b` is the row `a` with its status changed to `status` and
/// nothing else changed.
pub open spec fn same_but_status(a: ChunkRow, b: ChunkRow, status: Seq<char>) -> bool {
    &&& b.call_id == a.call_id
    &&& b.chunk_idx == a.chunk_idx
    &&& b.start_ms == a.start_ms
    &&& b.end_ms == a.end_ms
    &&& b.mic_path == a.mic_path
    &&& b.system_path == a.system_path
    &&& b.status@ == status
    &&& b.transcript_json == a.transcript_json
    &&& b.system_transcript_json == a.system_transcript_json
    &&& b.embeddings_json == a.embeddings_json
}

/// Whether `r` is what a gated status change gives for `row`: the row with
/// the new status when its status is `required`, else (no such row, or
/// another status) the refusal naming the operation and the chunk.
pub open spec fn gated_change(
    row: Option<ChunkRow>,
    r: Result<ChunkRow, AppError>,
    op: Seq<char>,
    call_id: Seq<char>,
    k: u32,
    required: Seq<char>,
    to: Seq<char>,
) -> bool {
    if row matches Some(a) && a.status@ == required {
        r matches Ok(b) && same_but_status(row->0, b, to)
    } else {
        r matches Err(AppError::Other(m)) && m@ == transition_refused_message(op, call_id, k, required)
    }
}

fn transition_refused(op: &str, call_id: &str, k: u32, required: &str) -> (e: AppError)
    ensures
        e matches AppError::Other(m) && m@ == transition_refused_message(op@, call_id@, k, required@),
{
    let mut m = to_owned_string(op);
    push_str(&mut m, ": chunk ");
    push_str(&mut m, call_id);
    push_str(&mut m, "/");
    push_decimal(&mut m, k as u64);
    push_str(&mut m, " not in '");
    push_str(&mut m, required);
    push_str(&mut m, "' status");
    AppError::Other(m)
}

fn with_status(a: ChunkRow, to: &str) -> (b: ChunkRow)
    ensures
        same_but_status(a, b, to@),
{
    ChunkRow {
        call_id: a.call_id,
        chunk_idx: a.chunk_idx,
        start_ms: a.start_ms,
        end_ms: a.end_ms,
        mic_path: a.mic_path,
        system_path: a.system_path,
        status: to_owned_string(to),
        transcript_json: a.transcript_json,
        system_transcript_json: a.system_transcript_json,
        embeddings_json: a.embeddings_json,
    }
}

fn gated_status_change(op: &str, call_id: &str, k: u32, row: Option<ChunkRow>, required: &str, to: &str) -> (r:
    Result<ChunkRow, AppError>)
    ensures
        gated_change(row, r, op@, call_id@, k, required@, to@),
{
    match row {
        Some(a) => if str_is(a.status.as_str(), required) {
            Ok(with_status(a, to))
        } else {
            Err(transition_refused(op, call_id, k, required))
        },
        None => Err(transition_refused(op, call_id, k, required)),
    }
}

/// Retry, `failed → pending`, on the row of chunk `chunk_idx` (`None`: no
/// such row). A row in any other status, or no row, is refused with
/// `mark_chunk_pending: chunk <call>/<idx> not in 'failed' status`; the
/// refusal writes nothing.
pub fn mark_chunk_pending(call_id: &str, chunk_idx: u32, row: Option<ChunkRow>) -> (r: Result<
    ChunkRow,
    AppError,
>)
    ensures
        gated_change(row, r, "mark_chunk_pending"@, call_id@, chunk_idx, "failed"@, "pending"@),
{
    gated_status_change("mark_chunk_pending", call_id, chunk_idx, row, "failed", "pending")
}

/// Runner start, `pending → processing`, on the row of chunk `chunk_idx`.
/// Any other status, or no row, is refused with
/// `mark_chunk_processing: chunk <call>/<idx> not in 'pending' status`.
pub fn mark_chunk_processing(call_id: &str, chunk_idx: u32, row: Option<ChunkRow>) -> (r: Result<
    ChunkRow,
    AppError,
>)
    ensures
        gated_change(row, r, "mark_chunk_processing"@, call_id@, chunk_idx, "pending"@, "processing"@),
{
    gated_status_change("mark_chunk_processing", call_id, chunk_idx, row, "pending", "processing")
}

/// Runner finish, `processing → done`, on the row of chunk `chunk_idx`: the
/// row also gets its end (the `u64` stored as the column's `i64`, as a cast
/// gives it), the microphone transcript, and the system transcript and
/// embeddings as given (`None` clears them). Any other status, or no row, is
/// refused with `mark_chunk_done: chunk <call>/<idx> not in 'processing'
/// status`, and nothing is written.
pub fn mark_chunk_done(
    call_id: &str,
    chunk_idx: u32,
    row: Option<ChunkRow>,
    end_ms: u64,
    transcript_json: &str,
    system_transcript_json: Option<&str>,
    embeddings_json: Option<&str>,
) -> (r: Result<ChunkRow, AppError>)
    ensures
        (row matches Some(a) && a.status@ == "processing"@) ==> (r matches Ok(b) && {
            let a = row->0;
            &&& b.call_id == a.call_id
            &&& b.chunk_idx == a.chunk_idx
            &&& b.start_ms == a.start_ms
            &&& b.mic_path == a.mic_path
            &&& b.system_path == a.system_path
            &&& b.status@ == "done"@
            &&& b.end_ms == Some(end_ms as i64)
            &&& opt_string_view(b.transcript_json) == Some(transcript_json@)
            &&& opt_string_view(b.system_transcript_json) == opt_view(system_transcript_json)
            &&& opt_string_view(b.embeddings_json) == opt_view(embeddings_json)
        }),
        !(row matches Some(a) && a.status@ == "processing"@) ==> (r matches Err(AppError::Other(m))
            && m@ == transition_refused_message(
            "mark_chunk_done"@,
            call_id@,
            chunk_idx,
            "processing"@,
        )),
{
    match gated_status_change("mark_chunk_done", call_id, chunk_idx, row, "processing", "done") {
        Ok(b) => {
            let system = match system_transcript_json {
                Some(t) => Some(to_owned_string(t)),
                None => None,
            };
            let embeddings = match embeddings_json {
                Some(t) => Some(to_owned_string(t)),
                None => None,
            };
            Ok(ChunkRow {
                call_id: b.call_id,
                chunk_idx: b.chunk_idx,
                start_ms: b.start_ms,
                end_ms: Some(end_ms as i64),
                mic_path: b.mic_path,
                system_path: b.system_path,
                status: b.status,
                transcript_json: Some(to_owned_string(transcript_json)),
                system_transcript_json: system,
                embeddings_json: embeddings,
            })
        },
        Err(e) => Err(e),
    }
}

/// Failure, from any status, on the row of chunk `chunk_idx`: the row gets
/// status `failed`; with no such row nothing changes and nothing is refused.
pub fn mark_chunk_failed(row: Option<ChunkRow>) -> (r: Option<ChunkRow>)
    ensures
        row is None ==> r is None,
        row matches Some(a) ==> (r matches Some(b) && same_but_status(a, b, "failed"@)),
{
    match row {
        Some(a) => Some(with_status(a, "failed")),
        None => None,
    }
}

/// Law: the row-level changes follow the status machine. A retry, a runner
/// start and a runner finish succeed exactly from the status that
/// [`chunk_step`] allows them from, and give the status it gives.
pub proof fn law_marks_follow_fsm(from: ChunkStatus)
    ensures
        (chunk_step(from, ChunkTransition::ToPending) is Some) == (chunk_status_text(from)
            == "failed"@),
        (chunk_step(from, ChunkTransition::ToProcessing) is Some) == (chunk_status_text(from)
            == "pending"@),
        (chunk_step(from, ChunkTransition::ToDone) is Some) == (chunk_status_text(from)
            == "processing"@),
        chunk_step(from, ChunkTransition::ToPending) matches Some(s) ==> chunk_status_text(s)
            == "pending"@,
        chunk_step(from, ChunkTransition::ToProcessing) matches Some(s) ==> chunk_status_text(s)
            == "processing"@,
        chunk_step(from, ChunkTransition::ToDone) matches Some(s) ==> chunk_status_text(s) == "done"@,
{
    reveal_strlit("pending");
    reveal_strlit("processing");
    reveal_strlit("done");
    reveal_strlit("failed");
    assert("pending"@.len() == 7 && "processing"@.len() == 10 && "done"@.len() == 4
        && "failed"@.len() == 6);
}

/// Position of the first row of chunk `k`, if any.
pub open spec fn first_row_of(rows: Seq<ChunkRow>, k: u32) -> Option<int>
    decreases rows.len(),
{
    if rows.len() == 0 {
        None
    } else if rows[0].chunk_idx == k {
        Some(0)
    } else {
        match first_row_of(rows.drop_first(), k) {
            Some(i) => Some(i + 1),
            None => None,
        }
    }
}

pub proof fn lemma_first_row_of(rows: Seq<ChunkRow>, k: u32)
    ensures
        first_row_of(rows, k) matches Some(i) ==> 0 <= i < rows.len() && rows[i].chunk_idx == k
            && forall|j: int| 0 <= j < i ==> (#[trigger] rows[j]).chunk_idx != k,
        first_row_of(rows, k) is None ==> forall|j: int|
            0 <= j < rows.len() ==> (#[trigger] rows[j]).chunk_idx != k,
    decreases rows.len(),
{
    if rows.len() > 0 {
        lemma_first_row_of(rows.drop_first(), k);
        assert forall|j: int| 1 <= j < rows.len() implies rows[j] == rows.drop_first()[j - 1] by {}
    }
}

/// Finds the first row of chunk `k`.
pub fn find_chunk_row(rows: &[ChunkRow], k: u32) -> (r: Option<usize>)
    ensures
        match first_row_of(rows@, k) {
            Some(i) => r == Some(i as usize),
            None => r is None,
        },
        r matches Some(i) ==> i < rows@.len(),
{
    proof {
        lemma_first_row_of(rows@, k);
    }
    let mut i: usize = 0;
    while i < rows.len()
        invariant
            i <= rows@.len(),
            forall|j: int| 0 <= j < i ==> (#[trigger] rows@[j]).chunk_idx != k,
            first_row_of(rows@, k) matches Some(f) ==> 0 <= f < rows@.len() && rows@[f].chunk_idx
                == k && forall|j: int| 0 <= j < f ==> (#[trigger] rows@[j]).chunk_idx != k,
            first_row_of(rows@, k) is None ==> forall|j: int|
                0 <= j < rows@.len() ==> (#[trigger] rows@[j]).chunk_idx != k,
        decreases rows@.len() - i,
    {
        if rows[i].chunk_idx == k {
            return Some(i);
        }
        i = i + 1;
    }
    None
}

/// Start and end of a chunk to retry, in milliseconds: negative starts read
/// as 0, a missing end as the start, negative ends as 0.
pub open spec fn retry_span(row: ChunkRow) -> (u64, u64) {
    let start: int = if row.start_ms < 0 {
        0
    } else {
        row.start_ms as int
    };
    let end_raw: int = match row.end_ms {
        Some(e) => e as int,
        None => start,
    };
    (start as u64, (if end_raw < 0 {
        0
    } else {
        end_raw
    }) as u64)
}

/// Message when the chunk of a retry does not exist.
pub open spec fn retry_missing_message(call_id: Seq<char>, k: u32) -> Seq<char> {
    "chunk "@ + call_id + "/"@ + crate::text::decimal(k as nat) + " not found"@
}

/// Message when the chunk of a retry is not `failed`.
pub open spec fn retry_refused_message(call_id: Seq<char>, k: u32, status: Seq<char>) -> Seq<char> {
    "retry_chunk: chunk "@ + call_id + "/"@ + crate::text::decimal(k as nat) + " status="@ + status
        + " (need 'failed')"@
}

/// Checks a manual retry of chunk `k`: the chunk must exist and be
/// `failed`; gives the span to re-run.
pub fn plan_chunk_retry(call_id: &str, rows: &[ChunkRow], k: u32) -> (res: Result<
    (u64, u64),
    AppError,
>)
    ensures
        match first_row_of(rows@, k) {
            None => res matches Err(AppError::NotFound(m)) && m@ == retry_missing_message(
                call_id@,
                k,
            ),
            Some(i) => if rows@[i].status@ == "failed"@ {
                res == Ok::<(u64, u64), AppError>(retry_span(rows@[i]))
            } else {
                res matches Err(AppError::Other(m)) && m@ == retry_refused_message(
                    call_id@,
                    k,
                    rows@[i].status@,
                )
            },
        },
{
    proof {
        lemma_first_row_of(rows@, k);
    }
    match find_chunk_row(rows, k) {
        None => {
            let mut m = to_owned_string("chunk ");
            push_str(&mut m, call_id);
            push_str(&mut m, "/");
            push_decimal(&mut m, k as u64);
            push_str(&mut m, " not found");
            Err(AppError::NotFound(m))
        },
        Some(i) => {
            let row = &rows[i];
            if !str_is(row.status.as_str(), "failed") {
                let mut m = to_owned_string("retry_chunk: chunk ");
                push_str(&mut m, call_id);
                push_str(&mut m, "/");
                push_decimal(&mut m, k as u64);
                push_str(&mut m, " status=");
                push_str(&mut m, row.status.as_str());
                push_str(&mut m, " (need 'failed')");
                return Err(AppError::Other(m));
            }
            let start: u64 = if row.start_ms < 0 {
                0
            } else {
                row.start_ms as u64
            };
            let end_raw: i64 = match row.end_ms {
                Some(e) => e,
                None => start as i64,
            };
            let end: u64 = if end_raw < 0 {
                0
            } else {
                end_raw as u64
            };
            Ok((start, end))
        },
    }
}

/// What the UI's chunk strip shows of a row.
#[derive(Debug, Clone)]
pub struct ChunkInfoView {
    pub chunk_idx: u32,
    pub status: String,
    pub start_ms: i64,
    pub end_ms: Option<i64>,
}

/// The strip view of every row, in order.
pub fn chunk_info_views(rows: Vec<ChunkRow>) -> (res: Vec<ChunkInfoView>)
    ensures
        res@.len() == rows@.len(),
        forall|i: int|
            0 <= i < rows@.len() ==> {
                let r = rows@[i];
                let v = #[trigger] res@[i];
                v.chunk_idx == r.chunk_idx && v.status == r.status && v.start_ms == r.start_ms
                    && v.end_ms == r.end_ms
            },
{
    let mut res: Vec<ChunkInfoView> = Vec::new();
    let mut i: usize = 0;
    while i < rows.len()
        invariant
            i <= rows@.len(),
            res@.len() == i,
            forall|j: int|
                0 <= j < i ==> {
                    let r = rows@[j];
                    let v = #[trigger] res@[j];
                    v.chunk_idx == r.chunk_idx && v.status == r.status && v.start_ms == r.start_ms
                        && v.end_ms == r.end_ms
                },
        decreases rows@.len() - i,
    {
        let r = &rows[i];
        res.push(
            ChunkInfoView {
                chunk_idx: r.chunk_idx,
                status: r.status.clone(),
                start_ms: r.start_ms,
                end_ms: r.end_ms,
            },
        );
        i = i + 1;
    }
    res
}

/// Whether a successful retry resumes the call's pipeline: every chunk is
/// done, the call is not recording, and it is not already ready with its
/// recap in place.
pub fn resume_after_retry(all_done: bool, status: &str, recap_failed: bool) -> (go: bool)
    ensures
        go == (all_done && status@ != "recording"@ && !(status@ == "ready"@ && !recap_failed)),
{
    all_done && !str_is(status, "recording") && !(str_is(status, "ready") && !recap_failed)
}

} // verus!
