//! Native notifications with texts from the webview: lengths are bounded by
//! characters and the title is kept on one line.
use vstd::prelude::*;

use crate::text::{chars_to_string, str_chars, take_chars, take_prefix};

verus! {

/// Longest notification title, in characters.
pub const MAX_TITLE_CHARS: usize = 120;

/// Longest notification body, in characters.
pub const MAX_BODY_CHARS: usize = 400;

/// The first `max_chars` characters of `s`. Cutting by characters, never by
/// bytes, cannot split a multi-byte character.
pub fn clamp(s: &str, max_chars: usize) -> (res: String)
    ensures
        res@ == take_chars(s@, max_chars as nat),
        res@.len() <= max_chars,
        res@.len() <= s@.len(),
{
    let v = str_chars(s);
    let t = take_prefix(&v, max_chars);
    chars_to_string(&t)
}

/// A character with line breaks replaced by spaces.
pub open spec fn unbreak(c: char) -> char {
    if c == '\n' || c == '\r' {
        ' '
    } else {
        c
    }
}

/// The title as shown: clamped to `MAX_TITLE_CHARS`, `\n` and `\r` replaced
/// by spaces.
pub open spec fn notification_title_of(title: Seq<char>) -> Seq<char> {
    take_chars(title, MAX_TITLE_CHARS as nat).map_values(|c: char| unbreak(c))
}

/// Title of a notification (see [`notification_title_of`]).
pub fn notification_title(title: &str) -> (res: String)
    ensures
        res@ == notification_title_of(title@),
{
    let v = str_chars(title);
    let t = take_prefix(&v, MAX_TITLE_CHARS);
    let mut out: Vec<char> = Vec::new();
    let mut k: usize = 0;
    while k < t.len()
        invariant
            k <= t.len(),
            out@ == t@.subrange(0, k as int).map_values(|c: char| unbreak(c)),
        decreases t.len() - k,
    {
        let c = t[k];
        let d = if c == '\n' || c == '\r' {
            ' '
        } else {
            c
        };
        out.push(d);
        k = k + 1;
        assert(out@ =~= t@.subrange(0, k as int).map_values(|c: char| unbreak(c)));
    }
    assert(t@.subrange(0, t.len() as int) =~= t@);
    chars_to_string(&out)
}

/// Body of a notification: clamped to `MAX_BODY_CHARS`.
pub fn notification_body(body: &str) -> (res: String)
    ensures
        res@ == take_chars(body@, MAX_BODY_CHARS as nat),
{
    clamp(body, MAX_BODY_CHARS)
}

/// Law: clamping keeps a prefix of the input and is the identity on texts
/// that are short enough.
pub proof fn law_clamp_prefix(s: Seq<char>, n: nat)
    ensures
        take_chars(s, n).len() <= n,
        take_chars(s, n) =~= s.take(take_chars(s, n).len() as int),
        s.len() <= n ==> take_chars(s, n) == s,
{
}

} // verus!
