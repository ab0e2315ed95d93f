//! Assistant boundary rules: question validation, fragment previews for the
//! wire, and chat titles derived from the first question.
use vstd::prelude::*;

use crate::error::AppError;
use crate::text::{
    char_is_ws, chars_to_string, is_ws, lemma_trim_end_prefix, lemma_trim_idempotent,
    lemma_trim_start_head, push_chars, push_str, str_chars, take_prefix, to_owned_string, trim,
    trim_end, trim_end_chars, trim_start, trim_str, utf8_len, utf8_len_prefix,
};

verus! {

/// Longest question accepted at the boundary, in characters.
pub const QUESTION_MAX_CHARS: usize = 2000;

/// Preview length of a search-context fragment on the wire, in characters.
pub const FRAGMENT_PREVIEW_CHARS: usize = 280;

/// Texts at most this much longer than the preview are sent whole.
pub const FRAGMENT_PREVIEW_HYSTERESIS: usize = 60;

/// Longest chat title, in characters.
pub const CHAT_TITLE_MAX_CHARS: usize = 42;

/// Message for a question that is blank after trimming.
pub open spec fn empty_question_message() -> Seq<char> {
    "assistant: пустой вопрос"@
}

/// Message for a question over the length limit.
pub open spec fn long_question_message() -> Seq<char> {
    "assistant: вопрос длиннее 2000 символов"@
}

/// What `validate_question` answers for a question.
pub open spec fn question_verdict(question: Seq<char>) -> Result<(), Seq<char>> {
    let q = trim(question);
    if q.len() == 0 {
        Err(empty_question_message())
    } else if q.len() > QUESTION_MAX_CHARS {
        Err(long_question_message())
    } else {
        Ok(())
    }
}

/// Validates a question at the boundary: it must hold something besides
/// whitespace and, once trimmed, be at most `QUESTION_MAX_CHARS` characters.
///
/// A cheap byte-length gate (more than four bytes per allowed character)
/// would refuse nothing more: a trimmed question of at most 2000 characters
/// never exceeds 8000 UTF-8 bytes.
pub fn validate_question(question: &str) -> (res: Result<(), AppError>)
    ensures
        match question_verdict(question@) {
            Ok(()) => res is Ok,
            Err(m) => res matches Err(AppError::Other(s)) && s@ == m,
        },
{
    let q = trim_str(question);
    if q.len() == 0 {
        return Err(AppError::Other(to_owned_string("assistant: пустой вопрос")));
    }
    if q.len() > QUESTION_MAX_CHARS {
        return Err(AppError::Other(to_owned_string("assistant: вопрос длиннее 2000 символов")));
    }
    Ok(())
}

/// Index of the last whitespace character of `s`, if any.
pub open spec fn last_ws(s: Seq<char>) -> Option<int>
    decreases s.len(),
{
    if s.len() == 0 {
        None
    } else if is_ws(s.last()) {
        Some(s.len() - 1)
    } else {
        last_ws(s.drop_last())
    }
}

/// Where the preview ends, in characters of `cut`: at the last whitespace
/// when that lies in the second half of `cut` (measured in UTF-8 bytes, as
/// `str::rfind` and `str::len` do), else at the end of `cut`.
pub open spec fn preview_end(cut: Seq<char>) -> int {
    match last_ws(cut) {
        Some(j) => if utf8_len(cut.take(j)) >= utf8_len(cut) / 2 {
            j
        } else {
            cut.len() as int
        },
        None => cut.len() as int,
    }
}

/// The preview of a fragment text, or `None` when it is short enough to be
/// sent whole.
pub open spec fn fragment_preview(text: Seq<char>) -> Option<Seq<char>> {
    if text.len() <= FRAGMENT_PREVIEW_CHARS + FRAGMENT_PREVIEW_HYSTERESIS {
        None
    } else {
        let cut = text.take(FRAGMENT_PREVIEW_CHARS as int);
        Some(trim_end(cut.take(preview_end(cut))).push('…'))
    }
}

proof fn lemma_last_ws_bounds(s: Seq<char>)
    ensures
        last_ws(s) matches Some(j) ==> 0 <= j < s.len() && is_ws(s[j]),
        last_ws(s) is None ==> forall|k: int| 0 <= k < s.len() ==> !is_ws(#[trigger] s[k]),
    decreases s.len(),
{
    if s.len() > 0 && !is_ws(s.last()) {
        lemma_last_ws_bounds(s.drop_last());
        if last_ws(s.drop_last()) is None {
            assert forall|k: int| 0 <= k < s.len() implies !is_ws(#[trigger] s[k]) by {
                if k < s.len() - 1 {
                    assert(s[k] == s.drop_last()[k]);
                }
            }
        }
    }
}

/// Index of the last whitespace character of `v`.
fn rfind_ws(v: &Vec<char>) -> (r: Option<usize>)
    ensures
        r matches Some(j) ==> last_ws(v@) == Some(j as int) && j < v@.len(),
        r is None ==> last_ws(v@) is None,
{
    let mut j: usize = v.len();
    assert(v@.take(j as int) =~= v@);
    while j > 0
        invariant
            j <= v.len(),
            last_ws(v@) == last_ws(v@.take(j as int)),
        decreases j,
    {
        let ghost t = v@.take(j as int);
        assert(t.last() == v@[j - 1]);
        if char_is_ws(v[j - 1]) {
            return Some(j - 1);
        }
        assert(t.drop_last() =~= v@.take(j - 1));
        j = j - 1;
    }
    assert(v@.take(0) =~= Seq::<char>::empty());
    None
}

proof fn lemma_trim_end_len(s: Seq<char>)
    ensures
        trim_end(s).len() <= s.len(),
    decreases s.len(),
{
    if s.len() > 0 && is_ws(s.last()) {
        lemma_trim_end_len(s.drop_last());
    }
}

/// Truncates a fragment text for the wire: texts longer than 340 characters
/// are cut to their first 280 characters, back to the last whitespace when
/// that keeps at least half of the cut, trailing whitespace dropped, and `…`
/// appended. Shorter texts give `None`.
pub fn truncate_fragment_text(text: &str) -> (res: Option<String>)
    ensures
        match fragment_preview(text@) {
            Some(p) => res matches Some(s) && s@ == p,
            None => res is None,
        },
        res matches Some(s) ==> s@.len() <= FRAGMENT_PREVIEW_CHARS + 1,
{
    let chars = str_chars(text);
    if chars.len() <= FRAGMENT_PREVIEW_CHARS + FRAGMENT_PREVIEW_HYSTERESIS {
        return None;
    }
    let cut = take_prefix(&chars, FRAGMENT_PREVIEW_CHARS);
    assert(cut@ == chars@.take(FRAGMENT_PREVIEW_CHARS as int));
    let end: usize = match rfind_ws(&cut) {
        Some(i) => {
            let ib = utf8_len_prefix(&cut, i);
            let cb = utf8_len_prefix(&cut, cut.len());
            assert(cut@.take(cut.len() as int) =~= cut@);
            if ib >= cb / 2 {
                i
            } else {
                cut.len()
            }
        },
        None => cut.len(),
    };
    assert(end as int == preview_end(cut@));
    let head = take_prefix(&cut, end);
    let trimmed = trim_end_chars(&head);
    let mut out = chars_to_string(&trimmed);
    let ell = vec!['…'];
    push_chars(&mut out, &ell);
    proof {
        assert(seq!['…'] =~= ell@);
        lemma_trim_end_len(head@);
    }
    assert(out@ =~= trimmed@.push('…'));
    Some(out)
}

/// One search-context fragment of an assistant answer as it goes to the
/// webview: its text and whether that text was shortened.
#[derive(Debug, Clone)]
pub struct AnswerFragment {
    pub text: String,
    pub text_truncated: bool,
}

/// Shortens every fragment of an answer before it goes to the webview. The
/// stored answer keeps the full texts.
pub fn truncate_answer_for_wire(fragments: &mut Vec<AnswerFragment>)
    ensures
        final(fragments)@.len() == old(fragments)@.len(),
        forall|i: int|
            0 <= i < old(fragments)@.len() ==> {
                let f = old(fragments)@[i];
                let g = #[trigger] final(fragments)@[i];
                match fragment_preview(f.text@) {
                    Some(p) => g.text@ == p && g.text_truncated,
                    None => g == f,
                }
            },
{
    let ghost orig = fragments@;
    let mut i: usize = 0;
    while i < fragments.len()
        invariant
            fragments@.len() == orig.len(),
            i <= fragments@.len(),
            forall|k: int|
                i <= k < orig.len() ==> #[trigger] fragments@[k] == orig[k],
            forall|k: int|
                0 <= k < i ==> {
                    let f = orig[k];
                    let g = #[trigger] fragments@[k];
                    match fragment_preview(f.text@) {
                        Some(p) => g.text@ == p && g.text_truncated,
                        None => g == f,
                    }
                },
        decreases orig.len() - i,
    {
        let short = truncate_fragment_text(&fragments[i].text);
        match short {
            Some(s) => {
                fragments.set(i, AnswerFragment { text: s, text_truncated: true });
            },
            None => {},
        }
        i = i + 1;
    }
}

/// A chat title from the first question: the trimmed question when it has
/// at most 42 characters, else its first 41 characters, trailing whitespace
/// dropped, followed by `…`.
pub open spec fn chat_title(question: Seq<char>) -> Seq<char> {
    let q = trim(question);
    if q.len() <= CHAT_TITLE_MAX_CHARS {
        q
    } else {
        trim_end(q.take(CHAT_TITLE_MAX_CHARS - 1)).push('…')
    }
}

/// Chat title from the first question (see [`chat_title`]).
pub fn chat_title_from_question(question: &str) -> (title: String)
    ensures
        title@ == chat_title(question@),
        title@.len() <= CHAT_TITLE_MAX_CHARS,
{
    let q = trim_str(question);
    if q.len() <= CHAT_TITLE_MAX_CHARS {
        return chars_to_string(&q);
    }
    let cut = take_prefix(&q, CHAT_TITLE_MAX_CHARS - 1);
    let trimmed = trim_end_chars(&cut);
    let mut out = chars_to_string(&trimmed);
    let ell = vec!['…'];
    push_chars(&mut out, &ell);
    proof {
        assert(seq!['…'] =~= ell@);
        lemma_trim_end_len(cut@);
    }
    assert(out@ =~= trimmed@.push('…'));
    out
}

/// Law: a chat title is its own title. Taking the title of a title changes
/// nothing, and a title has at most 42 characters.
pub proof fn law_chat_title_idempotent(question: Seq<char>)
    ensures
        chat_title(chat_title(question)) == chat_title(question),
        chat_title(question).len() <= CHAT_TITLE_MAX_CHARS,
{
    let q = trim(question);
    lemma_trim_idempotent(question);
    if q.len() > CHAT_TITLE_MAX_CHARS {
        let c = q.take(CHAT_TITLE_MAX_CHARS - 1);
        let h = trim_end(c);
        let t = h.push('…');
        lemma_trim_end_prefix(c);
        lemma_trim_start_head(question);
        lemma_trim_end_prefix(trim_start(question));
        assert(!is_ws('…'));
        if h.len() > 0 {
            assert(t[0] == h[0]);
            assert(h[0] == c[0]);
            assert(c[0] == q[0]);
            assert(q[0] == trim_start(question)[0]);
            assert(!is_ws(t[0]));
        }
        assert(t.last() == '…');
        assert(t.drop_last() =~= h);
        assert(trim_end(t) == t);
        assert(trim_start(t) == t);
        assert(trim(t) == t);
        assert(t.len() <= CHAT_TITLE_MAX_CHARS);
    }
}

// ───────────────────────── chats and messages ─────────────────────────

/// A chat of the assistant: a global one (`call_id` is `None`) or the one
/// thread of a call.
#[derive(Debug, Clone)]
pub struct AssistantChatMeta {
    pub id: String,
    pub call_id: Option<String>,
    pub title: String,
    pub created_at: String,
    pub updated_at: String,
}

/// A new chat opened by `question` at `now`: its title is the question's
/// [`chat_title`], and it was created and updated at `now`.
pub fn new_chat_meta(id: String, call_id: Option<String>, question: &str, now: &str) -> (m: AssistantChatMeta)
    ensures
        m.id == id,
        m.call_id == call_id,
        m.title@ == chat_title(question@),
        m.created_at@ == now@,
        m.updated_at@ == now@,
{
    AssistantChatMeta {
        id,
        call_id,
        title: chat_title_from_question(question),
        created_at: to_owned_string(now),
        updated_at: to_owned_string(now),
    }
}

/// Message when a call's thread disappeared while it was being created.
pub open spec fn call_chat_vanished_message(call_id: Seq<char>) -> Seq<char> {
    "assistant chat for call "@ + call_id + " vanished during creation"@
}

/// Whether `r` is what opening the thread of `call_id` gives. A thread that
/// already exists is returned as it is (its title is not rewritten); else
/// the new thread when its insert went through; else (another opening won
/// the race) the thread read back, and an error naming the call when that
/// read finds none.
pub open spec fn call_chat_outcome(
    call_id: Seq<char>,
    existing: Option<AssistantChatMeta>,
    fresh: AssistantChatMeta,
    inserted: bool,
    reread: Option<AssistantChatMeta>,
    r: Result<AssistantChatMeta, AppError>,
) -> bool {
    match existing {
        Some(e) => r == Ok::<AssistantChatMeta, AppError>(e),
        None => if inserted {
            r == Ok::<AssistantChatMeta, AppError>(fresh)
        } else {
            match reread {
                Some(x) => r == Ok::<AssistantChatMeta, AppError>(x),
                None => r matches Err(AppError::Other(m)) && m@ == call_chat_vanished_message(call_id),
            }
        },
    }
}

/// Settles the opening of a call's thread (see [`call_chat_outcome`]):
/// `existing` is the thread found before the insert, `fresh` the one the
/// insert tried to add, `inserted` whether it was added, `reread` the thread
/// found after an insert that was not.
pub fn settle_call_chat(
    call_id: &str,
    existing: Option<AssistantChatMeta>,
    fresh: AssistantChatMeta,
    inserted: bool,
    reread: Option<AssistantChatMeta>,
) -> (r: Result<AssistantChatMeta, AppError>)
    ensures
        call_chat_outcome(call_id@, existing, fresh, inserted, reread, r),
{
    match existing {
        Some(e) => Ok(e),
        None => if inserted {
            Ok(fresh)
        } else {
            match reread {
                Some(x) => Ok(x),
                None => {
                    let mut m = to_owned_string("assistant chat for call ");
                    push_str(&mut m, call_id);
                    push_str(&mut m, " vanished during creation");
                    Err(AppError::Other(m))
                },
            }
        },
    }
}

/// Law: a call has one thread. Opening it again returns the thread that is
/// there, with its title, whatever the new question; an opening that loses
/// the race returns the winner's thread, never a thread that was not stored.
pub proof fn law_call_thread_unique(
    call_id: Seq<char>,
    e: AssistantChatMeta,
    fresh: AssistantChatMeta,
    inserted: bool,
    reread: Option<AssistantChatMeta>,
    r: Result<AssistantChatMeta, AppError>,
)
    requires
        call_chat_outcome(call_id, Some(e), fresh, inserted, reread, r),
    ensures
        r == Ok::<AssistantChatMeta, AppError>(e),
{
}

/// Position of a message appended to a chat whose highest position is
/// `max_idx` (`None`: no message yet): one past it, and 0 for the first.
pub fn next_order_idx(max_idx: Option<i64>) -> (idx: i64)
    requires
        max_idx matches Some(m) ==> m < i64::MAX,
    ensures
        idx == (match max_idx {
            Some(m) => m + 1,
            None => 0,
        }),
{
    match max_idx {
        Some(m) => m + 1,
        None => 0,
    }
}

/// Law: appending keeps the positions of a chat contiguous. A chat whose
/// messages hold the positions `0..n` in order gets `n` for the next one,
/// so its positions stay `0..n + 1`.
pub proof fn law_append_keeps_positions_contiguous(positions: Seq<i64>)
    requires
        forall|i: int| 0 <= i < positions.len() ==> #[trigger] positions[i] == i,
        positions.len() < i64::MAX,
    ensures
        ({
            let next: i64 = if positions.len() == 0 {
                0
            } else {
                (positions.last() + 1) as i64
            };
            let after = positions.push(next);
            forall|i: int| 0 <= i < after.len() ==> #[trigger] after[i] == i
        }),
{
    let next: i64 = if positions.len() == 0 {
        0
    } else {
        (positions.last() + 1) as i64
    };
    let after = positions.push(next);
    assert forall|i: int| 0 <= i < after.len() implies #[trigger] after[i] == i by {
        if i < positions.len() {
            assert(after[i] == positions[i]);
        }
    }
}

} // verus!
