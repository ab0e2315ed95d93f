//! SQL text built at run time: only the number of bound values ever goes
//! into the text, the values themselves are bound.
use vstd::prelude::*;

use crate::text::{push_str, to_owned_string};

verus! {

/// `n` placeholders joined by commas: `?,?,…,?` (empty for zero).
pub open spec fn placeholders_of(n: nat) -> Seq<char>
    decreases n,
{
    if n == 0 {
        Seq::empty()
    } else if n == 1 {
        seq!['?']
    } else {
        placeholders_of((n - 1) as nat) + seq![',', '?']
    }
}

/// `n` placeholders for an `IN (…)` list (see [`placeholders_of`]).
pub fn placeholders(n: usize) -> (s: String)
    ensures
        s@ == placeholders_of(n as nat),
{
    let mut s = String::new();
    let mut k: usize = 0;
    while k < n
        invariant
            k <= n,
            s@ == placeholders_of(k as nat),
        decreases n - k,
    {
        proof {
            reveal_strlit("?");
            reveal_strlit(",?");
        }
        if k == 0 {
            push_str(&mut s, "?");
        } else {
            push_str(&mut s, ",?");
        }
        k = k + 1;
        assert(s@ =~= placeholders_of(k as nat));
    }
    s
}

/// Law: the placeholder list holds one `?` per value, separated by commas:
/// its length is `2n - 1` for `n` values.
pub proof fn law_placeholders_count(n: nat)
    ensures
        n > 0 ==> placeholders_of(n).len() == 2 * n - 1,
        n == 0 ==> placeholders_of(n).len() == 0,
    decreases n,
{
    if n > 1 {
        law_placeholders_count((n - 1) as nat);
    }
}

/// The clause that limits a passage search to a set of calls: nothing for
/// no limit (`None`), ` AND p.call_id IN (?,…)` for the allowed calls, and
/// `None` overall when the set is empty (the search finds nothing and is not
/// run).
pub fn call_filter_clause(allowed: Option<usize>) -> (c: Option<String>)
    ensures
        allowed is None ==> (c matches Some(s) && s@.len() == 0),
        allowed == Some(0usize) ==> c is None,
        allowed matches Some(n) ==> (n > 0 ==> (c matches Some(s) && s@ == " AND p.call_id IN ("@
            + placeholders_of(n as nat) + ")"@)),
{
    match allowed {
        None => Some(String::new()),
        Some(n) => if n == 0 {
            None
        } else {
            let mut s = to_owned_string(" AND p.call_id IN (");
            push_str(&mut s, &placeholders(n));
            push_str(&mut s, ")");
            Some(s)
        },
    }
}

/// The clause that keeps the speakers still heard in a call: nothing when
/// none is, else ` AND speaker_tag NOT IN (?,…)`.
pub fn present_tags_clause(present: usize) -> (s: String)
    ensures
        present == 0 ==> s@.len() == 0,
        present > 0 ==> s@ == " AND speaker_tag NOT IN ("@ + placeholders_of(present as nat) + ")"@,
{
    if present == 0 {
        String::new()
    } else {
        let mut s = to_owned_string(" AND speaker_tag NOT IN (");
        push_str(&mut s, &placeholders(present));
        push_str(&mut s, ")");
        s
    }
}

} // verus!
