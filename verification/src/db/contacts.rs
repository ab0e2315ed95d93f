//! Contacts: the owner record, the rules on names and optional fields, the
//! normalisation of identifiers, and the diff that keeps the ids of
//! unchanged identifier rows across an update.
use vstd::prelude::*;

use crate::error::AppError;
use crate::json::{json_error_text, json_is_value, json_parses, json_value_text};
use crate::silence::opt_view;
use crate::text::{
    chars_to_string, clone_opt_string, lemma_trim_idempotent, opt_string_eq, opt_string_view, push_str,
    chars_eq, str_chars, to_owned_string, trim, trim_str, trimmed_nonempty, trimmed_opt,
};

verus! {

/// Display name of the owner record created on first start.
pub const OWNER_DEFAULT_NAME: &'static str = "Me";

/// Origin of records created in the app.
pub const LOCAL_SOURCE: &'static str = "local";

/// Message of a name that is blank once trimmed.
pub const DISPLAY_NAME_REQUIRED: &'static str = "display_name required";

/// Message of an attempt to delete the owner record.
pub const OWNER_DELETE_REFUSED: &'static str = "cannot delete owner contact";

/// The owner's contact record.
#[derive(Debug, Clone)]
pub struct OwnerContact {
    pub id: String,
    pub display_name: String,
}

/// An identifier as the webview sends it.
#[derive(Debug, Clone)]
pub struct ContactIdentifierInput {
    pub kind: String,
    pub value: String,
    pub label: Option<String>,
}

/// A stored identifier row.
#[derive(Debug, Clone)]
pub struct ContactIdentifier {
    pub id: String,
    pub kind: String,
    pub value: String,
    pub label: Option<String>,
}

/// An identifier after trimming, filtering and dropping repeats.
#[derive(Debug, Clone)]
pub struct NormalizedIdentifier {
    pub kind: String,
    pub value: String,
    pub label: Option<String>,
}

/// Origin given to a record that does not say: `"local"`.
pub fn default_source() -> (s: String)
    ensures
        s@ == LOCAL_SOURCE@,
{
    to_owned_string(LOCAL_SOURCE)
}

/// The display name to store: the input trimmed; a blank name is refused.
pub fn contact_display_name(raw: &str) -> (r: Result<String, AppError>)
    ensures
        trim(raw@).len() > 0 ==> (r matches Ok(s) && s@ == trim(raw@)),
        trim(raw@).len() == 0 ==> (r matches Err(e) && e matches AppError::Other(m)
            && m@ == DISPLAY_NAME_REQUIRED@),
{
    let t = trim_str(raw);
    if t.len() == 0 {
        Err(AppError::Other(to_owned_string(DISPLAY_NAME_REQUIRED)))
    } else {
        Ok(chars_to_string(&t))
    }
}

/// `NotFound` naming the contact: `contact <id>`.
pub fn contact_not_found(id: &str) -> (e: AppError)
    ensures
        e matches AppError::NotFound(m) && m@ == "contact "@ + id@,
{
    let mut m = to_owned_string("contact ");
    push_str(&mut m, id);
    AppError::NotFound(m)
}

/// Whether a contact may be deleted, given the owner mark of its row
/// (`None`: no such row): a missing contact is `NotFound`, the owner is
/// refused.
pub fn check_contact_delete(id: &str, is_owner: Option<i64>) -> (r: Result<(), AppError>)
    ensures
        is_owner is None ==> (r matches Err(e) && e matches AppError::NotFound(m) && m@
            == "contact "@ + id@),
        is_owner == Some(1i64) ==> (r matches Err(e) && e matches AppError::Other(m) && m@
            == OWNER_DELETE_REFUSED@),
        (is_owner matches Some(v) && v != 1) ==> r is Ok,
{
    match is_owner {
        None => Err(contact_not_found(id)),
        Some(v) => if v == 1 {
            Err(AppError::Other(to_owned_string(OWNER_DELETE_REFUSED)))
        } else {
            Ok(())
        },
    }
}

// ───────────────────────── normalising identifiers ─────────────────────────

/// An identifier by its characters: kind, value, label.
pub open spec fn input_view(i: ContactIdentifierInput) -> (Seq<char>, Seq<char>, Option<Seq<char>>) {
    (i.kind@, i.value@, opt_string_view(i.label))
}

/// A normalised identifier by its characters.
pub open spec fn norm_view(n: NormalizedIdentifier) -> (Seq<char>, Seq<char>, Option<Seq<char>>) {
    (n.kind@, n.value@, opt_string_view(n.label))
}

/// Whether some entry of `s` has the key `(kind, value)`.
pub open spec fn has_key(s: Seq<(Seq<char>, Seq<char>, Option<Seq<char>>)>, kind: Seq<char>, value: Seq<char>) -> bool {
    exists|i: int| 0 <= i < s.len() && (#[trigger] s[i]).0 == kind && s[i].1 == value
}

/// The identifiers to store for a payload, taken in order: kind and value
/// trimmed, entries with a blank kind or value dropped, a key that came
/// before dropped (the first one wins), the label trimmed and dropped when
/// blank.
pub open spec fn normalized(inputs: Seq<(Seq<char>, Seq<char>, Option<Seq<char>>)>) -> Seq<
    (Seq<char>, Seq<char>, Option<Seq<char>>),
>
    decreases inputs.len(),
{
    if inputs.len() == 0 {
        Seq::empty()
    } else {
        let prev = normalized(inputs.drop_last());
        let k = trim(inputs.last().0);
        let v = trim(inputs.last().1);
        if k.len() == 0 || v.len() == 0 || has_key(prev, k, v) {
            prev
        } else {
            prev.push((k, v, trimmed_opt(inputs.last().2)))
        }
    }
}

/// Whether `out` holds the entries of `s` in `out`'s order, by key.
fn find_key(out: &Vec<NormalizedIdentifier>, kind: &String, value: &String) -> (found: bool)
    ensures
        found == has_key(out@.map_values(|n: NormalizedIdentifier| norm_view(n)), kind@, value@),
{
    let ghost ov = out@.map_values(|n: NormalizedIdentifier| norm_view(n));
    let mut j: usize = 0;
    while j < out.len()
        invariant
            j <= out.len(),
            ov == out@.map_values(|n: NormalizedIdentifier| norm_view(n)),
            forall|i: int| 0 <= i < j ==> !((#[trigger] ov[i]).0 == kind@ && ov[i].1 == value@),
        decreases out.len() - j,
    {
        assert(ov[j as int] == norm_view(out@[j as int]));
        if out[j].kind == *kind && out[j].value == *value {
            assert(ov[j as int].0 == kind@ && ov[j as int].1 == value@);
            return true;
        }
        j = j + 1;
    }
    false
}

/// Normalises a payload of identifiers (see [`normalized`]); it must be
/// normalised before any insert, as the store refuses a repeated key.
pub fn normalize_identifiers(identifiers: &[ContactIdentifierInput]) -> (out: Vec<
    NormalizedIdentifier,
>)
    ensures
        out@.map_values(|n: NormalizedIdentifier| norm_view(n)) == normalized(
            identifiers@.map_values(|i: ContactIdentifierInput| input_view(i)),
        ),
{
    let ghost iv = identifiers@.map_values(|i: ContactIdentifierInput| input_view(i));
    let mut out: Vec<NormalizedIdentifier> = Vec::new();
    let mut k: usize = 0;
    while k < identifiers.len()
        invariant
            k <= identifiers.len(),
            iv == identifiers@.map_values(|i: ContactIdentifierInput| input_view(i)),
            out@.map_values(|n: NormalizedIdentifier| norm_view(n)) == normalized(iv.take(k as int)),
        decreases identifiers.len() - k,
    {
        let ghost prev = out@.map_values(|n: NormalizedIdentifier| norm_view(n));
        assert(iv.take(k + 1).drop_last() =~= iv.take(k as int));
        assert(iv.take(k + 1).last() == input_view(identifiers@[k as int]));
        let item = &identifiers[k];
        let kind_c = trim_str(item.kind.as_str());
        let value_c = trim_str(item.value.as_str());
        if kind_c.len() != 0 && value_c.len() != 0 {
            let kind = chars_to_string(&kind_c);
            let value = chars_to_string(&value_c);
            if !find_key(&out, &kind, &value) {
                let label = match &item.label {
                    Some(l) => trimmed_nonempty(Some(l.as_str())),
                    None => None,
                };
                out.push(NormalizedIdentifier { kind, value, label });
                assert(out@.map_values(|n: NormalizedIdentifier| norm_view(n)) =~= prev.push(
                    norm_view(out@[out.len() - 1]),
                ));
            }
        }
        k = k + 1;
    }
    assert(iv.take(identifiers.len() as int) =~= iv);
    out
}

proof fn lemma_normalized_entry(inputs: Seq<(Seq<char>, Seq<char>, Option<Seq<char>>)>, i: int)
    requires
        0 <= i < normalized(inputs).len(),
    ensures
        normalized(inputs)[i].0.len() > 0,
        normalized(inputs)[i].1.len() > 0,
        trim(normalized(inputs)[i].0) == normalized(inputs)[i].0,
        trim(normalized(inputs)[i].1) == normalized(inputs)[i].1,
        exists|j: int|
            0 <= j < inputs.len() && trim((#[trigger] inputs[j]).0) == normalized(inputs)[i].0
                && trim(inputs[j].1) == normalized(inputs)[i].1,
    decreases inputs.len(),
{
    let prev = normalized(inputs.drop_last());
    if i < prev.len() {
        lemma_normalized_entry(inputs.drop_last(), i);
        let j = choose|j: int|
            0 <= j < inputs.drop_last().len() && trim((#[trigger] inputs.drop_last()[j]).0)
                == prev[i].0 && trim(inputs.drop_last()[j].1) == prev[i].1;
        assert(inputs[j] == inputs.drop_last()[j]);
    } else {
        let j = inputs.len() - 1;
        assert(inputs[j] == inputs.last());
        lemma_trim_idempotent(inputs.last().0);
        lemma_trim_idempotent(inputs.last().1);
    }
}

/// Law: after normalisation no key occurs twice, every kind and value is
/// trimmed and non-blank, and each entry comes from an entry of the payload.
pub proof fn law_normalized_keys(inputs: Seq<(Seq<char>, Seq<char>, Option<Seq<char>>)>)
    ensures
        forall|i: int, j: int|
            0 <= i < j < normalized(inputs).len() ==> !(#[trigger] normalized(inputs)[i].0
                == #[trigger] normalized(inputs)[j].0 && normalized(inputs)[i].1 == normalized(
                inputs,
            )[j].1),
        forall|i: int|
            0 <= i < normalized(inputs).len() ==> (#[trigger] normalized(inputs)[i]).0.len() > 0
                && normalized(inputs)[i].1.len() > 0 && trim(normalized(inputs)[i].0)
                == normalized(inputs)[i].0 && trim(normalized(inputs)[i].1) == normalized(
                inputs,
            )[i].1,
        forall|i: int|
            0 <= i < normalized(inputs).len() ==> exists|j: int|
                0 <= j < inputs.len() && trim((#[trigger] inputs[j]).0) == (#[trigger] normalized(
                    inputs,
                )[i]).0 && trim(inputs[j].1) == normalized(inputs)[i].1,
    decreases inputs.len(),
{
    if inputs.len() > 0 {
        law_normalized_keys(inputs.drop_last());
        let prev = normalized(inputs.drop_last());
        let n = normalized(inputs);
        assert forall|i: int, j: int| 0 <= i < j < n.len() implies !(#[trigger] n[i].0
            == #[trigger] n[j].0 && n[i].1 == n[j].1) by {
            if j >= prev.len() {
                assert(n[i] == prev[i]);
                if n[i].0 == n[j].0 && n[i].1 == n[j].1 {
                    assert(has_key(prev, n[j].0, n[j].1));
                }
            } else {
                assert(n[i] == prev[i] && n[j] == prev[j]);
            }
        }
        assert forall|i: int| 0 <= i < n.len() implies (#[trigger] n[i]).0.len() > 0 && n[i].1.len()
            > 0 && trim(n[i].0) == n[i].0 && trim(n[i].1) == n[i].1 by {
            lemma_normalized_entry(inputs, i);
        }
        assert forall|i: int| 0 <= i < n.len() implies exists|j: int|
            0 <= j < inputs.len() && trim((#[trigger] inputs[j]).0) == (#[trigger] n[i]).0 && trim(
                inputs[j].1,
            ) == n[i].1 by {
            lemma_normalized_entry(inputs, i);
        }
    }
}

/// Law: no identifier of the payload is lost. Every entry with a non-blank
/// kind and value has its trimmed key among the normalised identifiers.
pub proof fn law_normalized_complete(inputs: Seq<(Seq<char>, Seq<char>, Option<Seq<char>>)>, j: int)
    requires
        0 <= j < inputs.len(),
        trim(inputs[j].0).len() > 0,
        trim(inputs[j].1).len() > 0,
    ensures
        has_key(normalized(inputs), trim(inputs[j].0), trim(inputs[j].1)),
    decreases inputs.len(),
{
    let prev = normalized(inputs.drop_last());
    let n = normalized(inputs);
    if j < inputs.len() - 1 {
        law_normalized_complete(inputs.drop_last(), j);
        assert(inputs.drop_last()[j] == inputs[j]);
        let i = choose|i: int|
            0 <= i < prev.len() && (#[trigger] prev[i]).0 == trim(inputs[j].0) && prev[i].1 == trim(
                inputs[j].1,
            );
        assert(n[i] == prev[i]);
    } else {
        assert(inputs[j] == inputs.last());
        if !has_key(prev, trim(inputs[j].0), trim(inputs[j].1)) {
            assert(n[prev.len() as int].0 == trim(inputs[j].0));
        } else {
            let i = choose|i: int|
                0 <= i < prev.len() && (#[trigger] prev[i]).0 == trim(inputs[j].0) && prev[i].1
                    == trim(inputs[j].1);
            assert(n[i] == prev[i]);
        }
    }
}

// ───────────────────────── keeping row ids across an update ─────────────────────────

/// A stored identifier row by its characters: id, kind, value, label.
pub open spec fn row_view(r: ContactIdentifier) -> (Seq<char>, Seq<char>, Seq<char>, Option<Seq<char>>) {
    (r.id@, r.kind@, r.value@, opt_string_view(r.label))
}

/// Index of the last row with the key `(kind, value)`: the row whose id a
/// map keyed by `(kind, value)` keeps when it is filled in row order.
pub open spec fn last_row_with(
    rows: Seq<(Seq<char>, Seq<char>, Seq<char>, Option<Seq<char>>)>,
    kind: Seq<char>,
    value: Seq<char>,
) -> Option<int>
    decreases rows.len(),
{
    if rows.len() == 0 {
        None
    } else if rows.last().1 == kind && rows.last().2 == value {
        Some(rows.len() - 1)
    } else {
        last_row_with(rows.drop_last(), kind, value)
    }
}

/// One write of an identifier update.
#[derive(Debug, Clone)]
pub enum IdentifierOp {
    /// Give the row with this id a new label.
    SetLabel { id: String, label: Option<String> },
    /// Insert a new row (with a fresh id) for this identifier.
    Insert(NormalizedIdentifier),
    /// Delete the row with this id.
    Delete { id: String },
}

/// An identifier write by its characters.
pub enum SyncStep {
    SetLabel(Seq<char>, Option<Seq<char>>),
    Insert(Seq<char>, Seq<char>, Option<Seq<char>>),
    Delete(Seq<char>),
}

/// A write by its characters.
pub open spec fn op_view(op: IdentifierOp) -> SyncStep {
    match op {
        IdentifierOp::SetLabel { id, label } => SyncStep::SetLabel(id@, opt_string_view(label)),
        IdentifierOp::Insert(n) => SyncStep::Insert(n.kind@, n.value@, opt_string_view(n.label)),
        IdentifierOp::Delete { id } => SyncStep::Delete(id@),
    }
}

/// The write for incoming identifier `j`: when its key was not taken by an
/// earlier incoming identifier and a stored row has it, that row keeps its id
/// and gets the new label if the label differs (no write if it does not);
/// otherwise a new row is inserted.
pub open spec fn incoming_step(
    rows: Seq<(Seq<char>, Seq<char>, Seq<char>, Option<Seq<char>>)>,
    incoming: Seq<(Seq<char>, Seq<char>, Option<Seq<char>>)>,
    j: int,
) -> Option<SyncStep> {
    let e = incoming[j];
    if !has_key(incoming.take(j), e.0, e.1) && last_row_with(rows, e.0, e.1) is Some {
        let i = last_row_with(rows, e.0, e.1)->0;
        if rows[i].3 != e.2 {
            Some(SyncStep::SetLabel(rows[i].0, e.2))
        } else {
            None
        }
    } else {
        Some(SyncStep::Insert(e.0, e.1, e.2))
    }
}

/// The writes for the first `n` incoming identifiers, in their order.
pub open spec fn incoming_steps(
    rows: Seq<(Seq<char>, Seq<char>, Seq<char>, Option<Seq<char>>)>,
    incoming: Seq<(Seq<char>, Seq<char>, Option<Seq<char>>)>,
    n: int,
) -> Seq<SyncStep>
    decreases n,
{
    if n <= 0 {
        Seq::empty()
    } else {
        let prev = incoming_steps(rows, incoming, n - 1);
        match incoming_step(rows, incoming, n - 1) {
            Some(x) => prev.push(x),
            None => prev,
        }
    }
}

/// Whether stored row `i` is deleted: it is the row kept for its key and no
/// incoming identifier has that key.
pub open spec fn row_deleted(
    rows: Seq<(Seq<char>, Seq<char>, Seq<char>, Option<Seq<char>>)>,
    incoming: Seq<(Seq<char>, Seq<char>, Option<Seq<char>>)>,
    i: int,
) -> bool {
    last_row_with(rows, rows[i].1, rows[i].2) == Some(i) && !has_key(incoming, rows[i].1, rows[i].2)
}

/// The deletes among the first `m` stored rows, in row order.
pub open spec fn delete_steps(
    rows: Seq<(Seq<char>, Seq<char>, Seq<char>, Option<Seq<char>>)>,
    incoming: Seq<(Seq<char>, Seq<char>, Option<Seq<char>>)>,
    m: int,
) -> Seq<SyncStep>
    decreases m,
{
    if m <= 0 {
        Seq::empty()
    } else {
        let prev = delete_steps(rows, incoming, m - 1);
        if row_deleted(rows, incoming, m - 1) {
            prev.push(SyncStep::Delete(rows[m - 1].0))
        } else {
            prev
        }
    }
}

/// All writes of an update: those of the incoming identifiers in their
/// order, then the deletes.
pub open spec fn sync_steps(
    rows: Seq<(Seq<char>, Seq<char>, Seq<char>, Option<Seq<char>>)>,
    incoming: Seq<(Seq<char>, Seq<char>, Option<Seq<char>>)>,
) -> Seq<SyncStep> {
    incoming_steps(rows, incoming, incoming.len() as int) + delete_steps(rows, incoming, rows.len() as int)
}

proof fn lemma_last_row_with(
    rows: Seq<(Seq<char>, Seq<char>, Seq<char>, Option<Seq<char>>)>,
    kind: Seq<char>,
    value: Seq<char>,
)
    ensures
        last_row_with(rows, kind, value) matches Some(i) ==> 0 <= i < rows.len() && rows[i].1 == kind
            && rows[i].2 == value && forall|k: int|
            i < k < rows.len() ==> !((#[trigger] rows[k]).1 == kind && rows[k].2 == value),
        last_row_with(rows, kind, value) is None ==> forall|k: int|
            0 <= k < rows.len() ==> !((#[trigger] rows[k]).1 == kind && rows[k].2 == value),
    decreases rows.len(),
{
    if rows.len() > 0 {
        lemma_last_row_with(rows.drop_last(), kind, value);
        assert forall|k: int| 0 <= k < rows.len() - 1 implies rows[k] == rows.drop_last()[k] by {}
    }
}

/// Index of the last stored row with the key (see [`last_row_with`]).
fn last_row_index(rows: &[ContactIdentifier], kind: &String, value: &String) -> (r: Option<usize>)
    ensures
        match last_row_with(rows@.map_values(|x: ContactIdentifier| row_view(x)), kind@, value@) {
            Some(i) => r == Some(i as usize),
            None => r is None,
        },
{
    let ghost rv = rows@.map_values(|x: ContactIdentifier| row_view(x));
    let mut r: Option<usize> = None;
    let mut m: usize = 0;
    while m < rows.len()
        invariant
            m <= rows.len(),
            rv == rows@.map_values(|x: ContactIdentifier| row_view(x)),
            match last_row_with(rv.take(m as int), kind@, value@) {
                Some(i) => r == Some(i as usize),
                None => r is None,
            },
        decreases rows.len() - m,
    {
        assert(rv.take(m + 1).drop_last() =~= rv.take(m as int));
        assert(rv.take(m + 1).last() == row_view(rows@[m as int]));
        if rows[m].kind == *kind && rows[m].value == *value {
            r = Some(m);
        }
        m = m + 1;
    }
    assert(rv.take(rows.len() as int) =~= rv);
    r
}

/// Whether one of the first `n` incoming identifiers has the key.
fn key_in_prefix(incoming: &[NormalizedIdentifier], n: usize, kind: &String, value: &String) -> (b: bool)
    requires
        n <= incoming.len(),
    ensures
        b == has_key(incoming@.map_values(|x: NormalizedIdentifier| norm_view(x)).take(n as int), kind@, value@),
{
    let ghost iv = incoming@.map_values(|x: NormalizedIdentifier| norm_view(x)).take(n as int);
    let mut j: usize = 0;
    while j < n
        invariant
            j <= n <= incoming.len(),
            iv == incoming@.map_values(|x: NormalizedIdentifier| norm_view(x)).take(n as int),
            forall|i: int| 0 <= i < j ==> !((#[trigger] iv[i]).0 == kind@ && iv[i].1 == value@),
        decreases n - j,
    {
        assert(iv[j as int] == norm_view(incoming@[j as int]));
        if incoming[j].kind == *kind && incoming[j].value == *value {
            assert(iv[j as int].0 == kind@ && iv[j as int].1 == value@);
            return true;
        }
        j = j + 1;
    }
    false
}

/// The writes that bring the stored identifier rows of a contact to the
/// normalised payload (see [`sync_steps`]): rows whose `(kind, value)` is
/// still there keep their id and only get a new label when it changed, new
/// keys are inserted, keys that are gone are deleted.
pub fn plan_identifier_sync(existing: &[ContactIdentifier], incoming: &[NormalizedIdentifier]) -> (ops: Vec<
    IdentifierOp,
>)
    ensures
        ops@.map_values(|o: IdentifierOp| op_view(o)) == sync_steps(
            existing@.map_values(|x: ContactIdentifier| row_view(x)),
            incoming@.map_values(|x: NormalizedIdentifier| norm_view(x)),
        ),
{
    let ghost rv = existing@.map_values(|x: ContactIdentifier| row_view(x));
    let ghost iv = incoming@.map_values(|x: NormalizedIdentifier| norm_view(x));
    let mut ops: Vec<IdentifierOp> = Vec::new();
    let mut j: usize = 0;
    while j < incoming.len()
        invariant
            j <= incoming.len(),
            rv == existing@.map_values(|x: ContactIdentifier| row_view(x)),
            iv == incoming@.map_values(|x: NormalizedIdentifier| norm_view(x)),
            ops@.map_values(|o: IdentifierOp| op_view(o)) == incoming_steps(rv, iv, j as int),
        decreases incoming.len() - j,
    {
        let ghost prev = ops@.map_values(|o: IdentifierOp| op_view(o));
        let e = &incoming[j];
        assert(iv[j as int] == norm_view(incoming@[j as int]));
        let taken = key_in_prefix(incoming, j, &e.kind, &e.value);
        let found = if taken {
            None
        } else {
            last_row_index(existing, &e.kind, &e.value)
        };
        proof {
            lemma_last_row_with(rv, e.kind@, e.value@);
        }
        match found {
            Some(i) => {
                assert(rv[i as int] == row_view(existing@[i as int]));
                if !opt_string_eq(&existing[i].label, &e.label) {
                    ops.push(
                        IdentifierOp::SetLabel {
                            id: existing[i].id.clone(),
                            label: clone_opt_string(&e.label),
                        },
                    );
                    assert(ops@.map_values(|o: IdentifierOp| op_view(o)) =~= prev.push(
                        op_view(ops@[ops.len() - 1]),
                    ));
                }
            },
            None => {
                ops.push(
                    IdentifierOp::Insert(
                        NormalizedIdentifier {
                            kind: e.kind.clone(),
                            value: e.value.clone(),
                            label: clone_opt_string(&e.label),
                        },
                    ),
                );
                assert(ops@.map_values(|o: IdentifierOp| op_view(o)) =~= prev.push(
                    op_view(ops@[ops.len() - 1]),
                ));
            },
        }
        j = j + 1;
    }
    let ghost head = ops@.map_values(|o: IdentifierOp| op_view(o));
    let mut m: usize = 0;
    while m < existing.len()
        invariant
            m <= existing.len(),
            rv == existing@.map_values(|x: ContactIdentifier| row_view(x)),
            iv == incoming@.map_values(|x: NormalizedIdentifier| norm_view(x)),
            head == incoming_steps(rv, iv, iv.len() as int),
            ops@.map_values(|o: IdentifierOp| op_view(o)) == head + delete_steps(rv, iv, m as int),
        decreases existing.len() - m,
    {
        let ghost prev = ops@.map_values(|o: IdentifierOp| op_view(o));
        let r = &existing[m];
        assert(rv[m as int] == row_view(existing@[m as int]));
        let last = last_row_index(existing, &r.kind, &r.value);
        proof {
            lemma_last_row_with(rv, r.kind@, r.value@);
        }
        let kept = key_in_prefix(incoming, incoming.len(), &r.kind, &r.value);
        assert(iv.take(iv.len() as int) =~= iv);
        if last == Some(m) && !kept {
            ops.push(IdentifierOp::Delete { id: r.id.clone() });
            assert(ops@.map_values(|o: IdentifierOp| op_view(o)) =~= prev.push(
                op_view(ops@[ops.len() - 1]),
            ));
            assert(row_deleted(rv, iv, m as int));
            assert(head + delete_steps(rv, iv, m + 1) =~= prev.push(SyncStep::Delete(rv[m as int].0)));
        } else {
            assert(!row_deleted(rv, iv, m as int));
            assert(head + delete_steps(rv, iv, m + 1) =~= prev);
        }
        m = m + 1;
    }
    ops
}

/// What the store guarantees of a contact's identifier rows: ids are
/// distinct and no key `(kind, value)` occurs twice.
pub open spec fn rows_valid(rows: Seq<(Seq<char>, Seq<char>, Seq<char>, Option<Seq<char>>)>) -> bool {
    forall|i: int, j: int|
        0 <= i < j < rows.len() ==> (#[trigger] rows[i]).0 != (#[trigger] rows[j]).0 && !(rows[i].1
            == rows[j].1 && rows[i].2 == rows[j].2)
}

/// No key `(kind, value)` occurs twice (what normalisation gives).
pub open spec fn keys_distinct(s: Seq<(Seq<char>, Seq<char>, Option<Seq<char>>)>) -> bool {
    forall|i: int, j: int|
        0 <= i < j < s.len() ==> !((#[trigger] s[i]).0 == (#[trigger] s[j]).0 && s[i].1 == s[j].1)
}

proof fn lemma_incoming_steps_contains(
    rows: Seq<(Seq<char>, Seq<char>, Seq<char>, Option<Seq<char>>)>,
    incoming: Seq<(Seq<char>, Seq<char>, Option<Seq<char>>)>,
    n: int,
    x: SyncStep,
)
    requires
        0 <= n <= incoming.len(),
    ensures
        incoming_steps(rows, incoming, n).contains(x) <==> exists|j: int|
            0 <= j < n && #[trigger] incoming_step(rows, incoming, j) == Some(x),
    decreases n,
{
    broadcast use vstd::seq_lib::lemma_seq_contains_after_push;

    if n > 0 {
        lemma_incoming_steps_contains(rows, incoming, n - 1, x);
        if incoming_steps(rows, incoming, n).contains(x) {
            if !incoming_steps(rows, incoming, n - 1).contains(x) {
                assert(incoming_step(rows, incoming, n - 1) == Some(x));
            }
        }
        if exists|j: int| 0 <= j < n && #[trigger] incoming_step(rows, incoming, j) == Some(x) {
            let j = choose|j: int| 0 <= j < n && #[trigger] incoming_step(rows, incoming, j) == Some(x);
            if j < n - 1 {
                assert(incoming_steps(rows, incoming, n - 1).contains(x));
            }
        }
    }
}

proof fn lemma_delete_steps_contains(
    rows: Seq<(Seq<char>, Seq<char>, Seq<char>, Option<Seq<char>>)>,
    incoming: Seq<(Seq<char>, Seq<char>, Option<Seq<char>>)>,
    m: int,
    x: SyncStep,
)
    requires
        0 <= m <= rows.len(),
    ensures
        delete_steps(rows, incoming, m).contains(x) <==> exists|i: int|
            0 <= i < m && #[trigger] row_deleted(rows, incoming, i) && x == SyncStep::Delete(rows[i].0),
    decreases m,
{
    broadcast use vstd::seq_lib::lemma_seq_contains_after_push;

    if m > 0 {
        lemma_delete_steps_contains(rows, incoming, m - 1, x);
        if delete_steps(rows, incoming, m).contains(x) {
            if !delete_steps(rows, incoming, m - 1).contains(x) {
                assert(row_deleted(rows, incoming, m - 1));
            }
        }
        if exists|i: int|
            0 <= i < m && #[trigger] row_deleted(rows, incoming, i) && x == SyncStep::Delete(rows[i].0) {
            let i = choose|i: int|
                0 <= i < m && #[trigger] row_deleted(rows, incoming, i) && x == SyncStep::Delete(
                    rows[i].0,
                );
            if i < m - 1 {
                assert(delete_steps(rows, incoming, m - 1).contains(x));
            }
        }
    }
}

proof fn lemma_sync_contains(
    rows: Seq<(Seq<char>, Seq<char>, Seq<char>, Option<Seq<char>>)>,
    incoming: Seq<(Seq<char>, Seq<char>, Option<Seq<char>>)>,
    x: SyncStep,
)
    ensures
        sync_steps(rows, incoming).contains(x) <==> (exists|j: int|
            0 <= j < incoming.len() && #[trigger] incoming_step(rows, incoming, j) == Some(x)) || (
        exists|i: int|
            0 <= i < rows.len() && #[trigger] row_deleted(rows, incoming, i) && x == SyncStep::Delete(
                rows[i].0,
            )),
{
    broadcast use vstd::seq_lib::lemma_seq_concat_contains_all_elements;

    lemma_incoming_steps_contains(rows, incoming, incoming.len() as int, x);
    lemma_delete_steps_contains(rows, incoming, rows.len() as int, x);
}

proof fn lemma_last_row_unique(rows: Seq<(Seq<char>, Seq<char>, Seq<char>, Option<Seq<char>>)>, i: int)
    requires
        rows_valid(rows),
        0 <= i < rows.len(),
    ensures
        last_row_with(rows, rows[i].1, rows[i].2) == Some(i),
{
    lemma_last_row_with(rows, rows[i].1, rows[i].2);
    if let Some(k) = last_row_with(rows, rows[i].1, rows[i].2) {
        if k < i {
            assert(rows[k].0 != rows[i].0);
        } else if k > i {
            assert(rows[i].0 != rows[k].0);
        }
    }
}

proof fn lemma_first_of_key(incoming: Seq<(Seq<char>, Seq<char>, Option<Seq<char>>)>, j: int)
    requires
        keys_distinct(incoming),
        0 <= j < incoming.len(),
    ensures
        !has_key(incoming.take(j), incoming[j].0, incoming[j].1),
{
    if has_key(incoming.take(j), incoming[j].0, incoming[j].1) {
        let k = choose|k: int|
            0 <= k < incoming.take(j).len() && (#[trigger] incoming.take(j)[k]).0 == incoming[j].0
                && incoming.take(j)[k].1 == incoming[j].1;
        assert(incoming.take(j)[k] == incoming[k]);
    }
}

/// Law: an update deletes a stored row exactly when its key is gone from the
/// payload; a row whose key is still there keeps its id.
pub proof fn law_sync_deletes_exactly_gone_keys(
    rows: Seq<(Seq<char>, Seq<char>, Seq<char>, Option<Seq<char>>)>,
    incoming: Seq<(Seq<char>, Seq<char>, Option<Seq<char>>)>,
    i: int,
)
    requires
        rows_valid(rows),
        0 <= i < rows.len(),
    ensures
        sync_steps(rows, incoming).contains(SyncStep::Delete(rows[i].0)) <==> !has_key(
            incoming,
            rows[i].1,
            rows[i].2,
        ),
{
    let x = SyncStep::Delete(rows[i].0);
    lemma_sync_contains(rows, incoming, x);
    lemma_last_row_unique(rows, i);
    if !has_key(incoming, rows[i].1, rows[i].2) {
        assert(row_deleted(rows, incoming, i));
    }
    if sync_steps(rows, incoming).contains(x) {
        if exists|j: int| 0 <= j < incoming.len() && #[trigger] incoming_step(rows, incoming, j) == Some(x) {
            let j = choose|j: int|
                0 <= j < incoming.len() && #[trigger] incoming_step(rows, incoming, j) == Some(x);
            assert(false);
        }
        let k = choose|k: int|
            0 <= k < rows.len() && #[trigger] row_deleted(rows, incoming, k) && x == SyncStep::Delete(
                rows[k].0,
            );
        if k != i {
            if k < i {
                assert(rows[k].0 != rows[i].0);
            } else {
                assert(rows[i].0 != rows[k].0);
            }
        }
    }
}

/// Law: an identifier of the payload is inserted as a new row exactly when
/// no stored row has its key.
pub proof fn law_sync_inserts_exactly_new_keys(
    rows: Seq<(Seq<char>, Seq<char>, Seq<char>, Option<Seq<char>>)>,
    incoming: Seq<(Seq<char>, Seq<char>, Option<Seq<char>>)>,
    j: int,
)
    requires
        keys_distinct(incoming),
        0 <= j < incoming.len(),
    ensures
        sync_steps(rows, incoming).contains(
            SyncStep::Insert(incoming[j].0, incoming[j].1, incoming[j].2),
        ) <==> last_row_with(rows, incoming[j].0, incoming[j].1) is None,
{
    let x = SyncStep::Insert(incoming[j].0, incoming[j].1, incoming[j].2);
    lemma_sync_contains(rows, incoming, x);
    lemma_first_of_key(incoming, j);
    if sync_steps(rows, incoming).contains(x) {
        if exists|k: int|
            0 <= k < rows.len() && #[trigger] row_deleted(rows, incoming, k) && x == SyncStep::Delete(
                rows[k].0,
            ) {
            let k = choose|k: int|
                0 <= k < rows.len() && #[trigger] row_deleted(rows, incoming, k) && x
                    == SyncStep::Delete(rows[k].0);
            assert(false);
        }
        let j2 = choose|j2: int|
            0 <= j2 < incoming.len() && #[trigger] incoming_step(rows, incoming, j2) == Some(x);
        if j2 != j {
            if j2 < j {
                assert(!(incoming[j2].0 == incoming[j].0 && incoming[j2].1 == incoming[j].1));
            } else {
                assert(!(incoming[j].0 == incoming[j2].0 && incoming[j].1 == incoming[j2].1));
            }
        }
    } else {
        assert(incoming_step(rows, incoming, j) != Some(x));
    }
}

/// Law: a stored row whose key is still in the payload keeps its id and is
/// neither deleted nor inserted again; it is written only when its label
/// changed, and then gets the payload's label.
pub proof fn law_sync_relabels_in_place(
    rows: Seq<(Seq<char>, Seq<char>, Seq<char>, Option<Seq<char>>)>,
    incoming: Seq<(Seq<char>, Seq<char>, Option<Seq<char>>)>,
    i: int,
    j: int,
)
    requires
        rows_valid(rows),
        keys_distinct(incoming),
        0 <= i < rows.len(),
        0 <= j < incoming.len(),
        rows[i].1 == incoming[j].0,
        rows[i].2 == incoming[j].1,
    ensures
        sync_steps(rows, incoming).contains(SyncStep::SetLabel(rows[i].0, incoming[j].2)) <==> rows[i].3
            != incoming[j].2,
        !sync_steps(rows, incoming).contains(SyncStep::Delete(rows[i].0)),
        !sync_steps(rows, incoming).contains(
            SyncStep::Insert(incoming[j].0, incoming[j].1, incoming[j].2),
        ),
{
    let x = SyncStep::SetLabel(rows[i].0, incoming[j].2);
    lemma_last_row_unique(rows, i);
    lemma_first_of_key(incoming, j);
    assert(has_key(incoming, rows[i].1, rows[i].2)) by {
        assert(incoming[j].0 == rows[i].1 && incoming[j].1 == rows[i].2);
    }
    law_sync_deletes_exactly_gone_keys(rows, incoming, i);
    law_sync_inserts_exactly_new_keys(rows, incoming, j);
    lemma_sync_contains(rows, incoming, x);
    if sync_steps(rows, incoming).contains(x) {
        if exists|k: int|
            0 <= k < rows.len() && #[trigger] row_deleted(rows, incoming, k) && x == SyncStep::Delete(
                rows[k].0,
            ) {
            let k = choose|k: int|
                0 <= k < rows.len() && #[trigger] row_deleted(rows, incoming, k) && x
                    == SyncStep::Delete(rows[k].0);
            assert(false);
        }
        let j2 = choose|j2: int|
            0 <= j2 < incoming.len() && #[trigger] incoming_step(rows, incoming, j2) == Some(x);
        let e = incoming[j2];
        lemma_last_row_with(rows, e.0, e.1);
        let i2 = last_row_with(rows, e.0, e.1)->0;
        if i2 != i {
            if i2 < i {
                assert(rows[i2].0 != rows[i].0);
            } else {
                assert(rows[i].0 != rows[i2].0);
            }
        }
        if j2 != j {
            if j2 < j {
                assert(!(incoming[j2].0 == incoming[j].0 && incoming[j2].1 == incoming[j].1));
            } else {
                assert(!(incoming[j].0 == incoming[j2].0 && incoming[j].1 == incoming[j2].1));
            }
        }
    } else {
        assert(incoming_step(rows, incoming, j) != Some(x));
    }
}


// ───────────────────────── listing contacts ─────────────────────────

/// A copy of an identifier row.
pub fn clone_identifier(x: &ContactIdentifier) -> (y: ContactIdentifier)
    ensures
        y == *x,
{
    ContactIdentifier {
        id: x.id.clone(),
        kind: x.kind.clone(),
        value: x.value.clone(),
        label: clone_opt_string(&x.label),
    }
}

/// The identifier rows of one contact, in row order, from rows tagged with
/// their contact's id.
pub open spec fn identifiers_of(rows: Seq<(String, ContactIdentifier)>, contact: Seq<char>) -> Seq<
    ContactIdentifier,
>
    decreases rows.len(),
{
    if rows.len() == 0 {
        Seq::empty()
    } else {
        let prev = identifiers_of(rows.drop_last(), contact);
        if rows.last().0@ == contact {
            prev.push(rows.last().1)
        } else {
            prev
        }
    }
}

/// Whether the id at `i` already occurred before it.
pub open spec fn seen_before(ids: Seq<String>, i: int) -> bool {
    exists|j: int| 0 <= j < i && (#[trigger] ids[j])@ == ids[i]@
}

/// The identifiers of each listed contact, in the order of the contacts:
/// the rows of that contact in row order. The rows of an id are handed out
/// once; a repeat of the id gets none.
pub fn group_identifiers(contact_ids: &[String], rows: &[(String, ContactIdentifier)]) -> (out: Vec<
    Vec<ContactIdentifier>,
>)
    ensures
        out.len() == contact_ids.len(),
        forall|i: int|
            0 <= i < contact_ids.len() ==> (#[trigger] out@[i])@ == (if seen_before(contact_ids@, i) {
                Seq::empty()
            } else {
                identifiers_of(rows@, contact_ids@[i]@)
            }),
{
    let mut out: Vec<Vec<ContactIdentifier>> = Vec::new();
    let mut i: usize = 0;
    while i < contact_ids.len()
        invariant
            i <= contact_ids.len(),
            out.len() == i,
            forall|k: int|
                0 <= k < i ==> (#[trigger] out@[k])@ == (if seen_before(contact_ids@, k) {
                    Seq::empty()
                } else {
                    identifiers_of(rows@, contact_ids@[k]@)
                }),
        decreases contact_ids.len() - i,
    {
        let c = &contact_ids[i];
        let mut seen = false;
        let mut j: usize = 0;
        while j < i
            invariant
                j <= i < contact_ids.len(),
                c == contact_ids@[i as int],
                seen ==> seen_before(contact_ids@, i as int),
                !seen ==> forall|k: int| 0 <= k < j ==> (#[trigger] contact_ids@[k])@ != c@,
            decreases i - j,
        {
            if contact_ids[j] == *c {
                seen = true;
            }
            j = j + 1;
        }
        let mut mine: Vec<ContactIdentifier> = Vec::new();
        if !seen {
            let mut m: usize = 0;
            while m < rows.len()
                invariant
                    m <= rows.len(),
                    mine@ == identifiers_of(rows@.take(m as int), c@),
                decreases rows.len() - m,
            {
                assert(rows@.take(m + 1).drop_last() =~= rows@.take(m as int));
                assert(rows@.take(m + 1).last() == rows@[m as int]);
                if rows[m].0 == *c {
                    mine.push(clone_identifier(&rows[m].1));
                }
                m = m + 1;
            }
            assert(rows@.take(rows.len() as int) =~= rows@);
        }
        proof {
            if !seen {
                assert(!seen_before(contact_ids@, i as int));
            }
        }
        out.push(mine);
        i = i + 1;
    }
    out
}


// ───────────────────────── attributes ─────────────────────────

/// Stored text of an empty attributes object.
pub const EMPTY_ATTRIBUTES: &'static str = "{}";

/// The attributes a stored column gives: its text where that is a JSON
/// document, an empty object where the column is missing or broken.
pub open spec fn attributes_text(raw: Option<Seq<char>>) -> Seq<char> {
    match raw {
        Some(s) => if json_is_value(s) {
            s
        } else {
            EMPTY_ATTRIBUTES@
        },
        None => EMPTY_ATTRIBUTES@,
    }
}

/// Reads the attributes column (see [`attributes_text`]).
pub fn attributes_or_empty(raw: Option<&str>) -> (t: String)
    ensures
        t@ == attributes_text(opt_view(raw)),
{
    match raw {
        Some(s) => if json_parses(s) {
            to_owned_string(s)
        } else {
            to_owned_string(EMPTY_ATTRIBUTES)
        },
        None => to_owned_string(EMPTY_ATTRIBUTES),
    }
}

/// The column text for attributes written as `value_json`: a JSON `null`
/// is stored as an empty object, anything else as it is.
pub open spec fn attributes_column_text(value_json: Seq<char>) -> Seq<char> {
    if value_json == "null"@ {
        EMPTY_ATTRIBUTES@
    } else {
        value_json
    }
}

/// The column text for attributes written as `value_json` (see
/// [`attributes_column_text`]).
pub fn attributes_column(value_json: &str) -> (t: String)
    ensures
        t@ == attributes_column_text(value_json@),
{
    let v = str_chars(value_json);
    let null_chars = str_chars("null");
    if chars_eq(&v, &null_chars) {
        to_owned_string(EMPTY_ATTRIBUTES)
    } else {
        to_owned_string(value_json)
    }
}

/// The column text for the attributes of a payload: the value's JSON text,
/// with a `null` stored as an empty object; never `null` itself. (A document
/// too deeply nested for the reader is stored as written and reads back as
/// an empty object, see [`attributes_text`].)
pub fn serialize_attributes(value: &serde_json::Value) -> (r: Result<String, AppError>)
    ensures
        r is Ok,
        r matches Ok(s) ==> s@ != "null"@,
{
    match json_value_text(value) {
        Ok(t) => {
            let c = attributes_column(t.as_str());
            proof {
                reveal_strlit("null");
                reveal_strlit("{}");
                assert("{}"@.len() != "null"@.len());
            }
            Ok(c)
        },
        Err(e) => Err(AppError::Other(json_error_text(&e))),
    }
}

/// Law: stored attributes that the reader accepts read back unchanged, and
/// a column read back is written back unchanged; a `null` column is never
/// written, and a column the reader refuses reads as an empty object.
pub proof fn law_attributes_read_back(stored: Seq<char>)
    ensures
        (json_is_value(stored) || stored == EMPTY_ATTRIBUTES@) ==> attributes_text(Some(stored))
            == stored,
        (json_is_value(stored) || stored == EMPTY_ATTRIBUTES@) && stored != "null"@
            ==> attributes_column_text(attributes_text(Some(stored))) == stored,
        !json_is_value(stored) ==> attributes_text(Some(stored)) == EMPTY_ATTRIBUTES@,
{
}

// ───────────────────────── contact records ─────────────────────────

/// A contact as the webview sends it for a create or an update.
pub struct ContactInput {
    pub display_name: String,
    pub org: Option<String>,
    pub role: Option<String>,
    pub notes: Option<String>,
    pub identifiers: Vec<ContactIdentifierInput>,
    pub attributes: serde_json::Value,
}

/// What a create or an update writes to the contact's row and its
/// identifier rows.
#[derive(Debug, Clone)]
pub struct ContactWrite {
    pub display_name: String,
    pub org: Option<String>,
    pub role: Option<String>,
    pub notes: Option<String>,
    pub attributes: String,
    pub identifiers: Vec<NormalizedIdentifier>,
}

/// The optional text fields as stored: trimmed, and dropped when blank.
fn stored_opt(raw: &Option<String>) -> (r: Option<String>)
    ensures
        opt_string_view(r) == trimmed_opt(opt_string_view(*raw)),
{
    match raw {
        Some(s) => trimmed_nonempty(Some(s.as_str())),
        None => None,
    }
}

/// What a create or an update of a contact writes: the name trimmed (a
/// blank name is refused), org, role and notes trimmed and dropped when
/// blank, the attributes as [`serialize_attributes`] writes them, and the
/// identifiers normalised.
pub fn prepare_contact_write(input: &ContactInput) -> (r: Result<ContactWrite, AppError>)
    ensures
        trim(input.display_name@).len() == 0 ==> (r matches Err(e) && e matches AppError::Other(m)
            && m@ == DISPLAY_NAME_REQUIRED@),
        trim(input.display_name@).len() > 0 ==> r is Ok,
        r matches Ok(w) ==> {
            &&& w.display_name@ == trim(input.display_name@)
            &&& opt_string_view(w.org) == trimmed_opt(opt_string_view(input.org))
            &&& opt_string_view(w.role) == trimmed_opt(opt_string_view(input.role))
            &&& opt_string_view(w.notes) == trimmed_opt(opt_string_view(input.notes))
            &&& w.attributes@ != "null"@
            &&& w.identifiers@.map_values(|n: NormalizedIdentifier| norm_view(n)) == normalized(
                input.identifiers@.map_values(|i: ContactIdentifierInput| input_view(i)),
            )
        },
{
    let display_name = contact_display_name(input.display_name.as_str())?;
    let attributes = serialize_attributes(&input.attributes)?;
    let org = stored_opt(&input.org);
    let role = stored_opt(&input.role);
    let notes = stored_opt(&input.notes);
    let identifiers = normalize_identifiers(input.identifiers.as_slice());
    Ok(ContactWrite { display_name, org, role, notes, attributes, identifiers })
}

/// A contact's row as the store returns it.
#[derive(Debug, Clone)]
pub struct ContactRow {
    pub id: String,
    pub display_name: String,
    pub is_owner: i64,
    pub org: Option<String>,
    pub role: Option<String>,
    pub attributes: Option<String>,
    pub notes: Option<String>,
    pub created_at: String,
    pub updated_at: String,
    pub source: String,
    pub external_id: Option<String>,
    pub external_etag: Option<String>,
}

/// A contact with its identifiers, as the webview shows it. `attributes` is
/// the JSON text of the attributes object.
#[derive(Debug, Clone)]
pub struct Contact {
    pub id: String,
    pub display_name: String,
    pub is_owner: bool,
    pub org: Option<String>,
    pub role: Option<String>,
    pub attributes: String,
    pub notes: Option<String>,
    pub created_at: String,
    pub updated_at: String,
    pub source: String,
    pub external_id: Option<String>,
    pub external_etag: Option<String>,
    pub identifiers: Vec<ContactIdentifier>,
}

/// Whether `c` is the contact that `row` and `identifiers` make: the row's
/// fields, the owner mark read as `is_owner == 1`, the attributes as
/// [`attributes_text`] reads the column.
pub open spec fn contact_of(c: Contact, row: ContactRow, identifiers: Seq<ContactIdentifier>) -> bool {
    &&& c.id == row.id
    &&& c.display_name == row.display_name
    &&& c.is_owner == (row.is_owner == 1)
    &&& c.org == row.org
    &&& c.role == row.role
    &&& c.attributes@ == attributes_text(opt_string_view(row.attributes))
    &&& c.notes == row.notes
    &&& c.created_at == row.created_at
    &&& c.updated_at == row.updated_at
    &&& c.source == row.source
    &&& c.external_id == row.external_id
    &&& c.external_etag == row.external_etag
    &&& c.identifiers@ == identifiers
}

/// The contact that a row and its identifier rows make (see [`contact_of`]).
pub fn contact_from_row(row: ContactRow, identifiers: Vec<ContactIdentifier>) -> (c: Contact)
    ensures
        contact_of(c, row, identifiers@),
{
    let attributes = match &row.attributes {
        Some(a) => attributes_or_empty(Some(a.as_str())),
        None => attributes_or_empty(None),
    };
    Contact {
        id: row.id,
        display_name: row.display_name,
        is_owner: row.is_owner == 1,
        org: row.org,
        role: row.role,
        attributes,
        notes: row.notes,
        created_at: row.created_at,
        updated_at: row.updated_at,
        source: row.source,
        external_id: row.external_id,
        external_etag: row.external_etag,
        identifiers,
    }
}

/// The contact list from the contact rows, in their order, and all
/// identifier rows tagged with their contact's id: each contact gets its
/// own identifier rows in row order (a repeated contact id gets none the
/// second time).
pub fn contacts_from_rows(rows: Vec<ContactRow>, id_rows: &[(String, ContactIdentifier)]) -> (out: Vec<
    Contact,
>)
    ensures
        out.len() == rows.len(),
        forall|i: int|
            0 <= i < rows.len() ==> contact_of(
                #[trigger] out@[i],
                rows@[i],
                if seen_before(rows@.map_values(|r: ContactRow| r.id), i) {
                    Seq::empty()
                } else {
                    identifiers_of(id_rows@, rows@[i].id@)
                },
            ),
{
    let mut ids: Vec<String> = Vec::new();
    let mut k: usize = 0;
    while k < rows.len()
        invariant
            k <= rows.len(),
            ids@ == rows@.take(k as int).map_values(|r: ContactRow| r.id),
        decreases rows.len() - k,
    {
        ids.push(rows[k].id.clone());
        assert(rows@.take(k + 1).map_values(|r: ContactRow| r.id) =~= rows@.take(k as int).map_values(
            |r: ContactRow| r.id,
        ).push(rows@[k as int].id));
        k = k + 1;
    }
    assert(rows@.take(rows.len() as int) =~= rows@);
    let ghost idv = rows@.map_values(|r: ContactRow| r.id);
    let mut groups = group_identifiers(ids.as_slice(), id_rows);
    let ghost gv = groups@;
    let ghost rv = rows@;
    let n = rows.len();
    let mut rest = rows;
    // Rows and their groups are taken from the back, then handed out front
    // first.
    let mut rev: Vec<Contact> = Vec::new();
    while rest.len() > 0
        invariant
            rest.len() + rev.len() == n,
            n == rv.len(),
            gv.len() == n,
            groups@ == gv.take(rest.len() as int),
            rest@ == rv.take(rest.len() as int),
            forall|j: int|
                0 <= j < rev.len() ==> contact_of(#[trigger] rev@[j], rv[n - 1 - j], gv[n - 1 - j]@),
        decreases rest.len(),
    {
        let row = rest.pop().unwrap();
        let g = groups.pop().unwrap();
        let c = contact_from_row(row, g);
        rev.push(c);
    }
    let mut out: Vec<Contact> = Vec::new();
    while rev.len() > 0
        invariant
            out.len() + rev.len() == n,
            n == rv.len(),
            gv.len() == n,
            forall|j: int|
                0 <= j < rev.len() ==> contact_of(#[trigger] rev@[j], rv[n - 1 - j], gv[n - 1 - j]@),
            forall|j: int| 0 <= j < out.len() ==> contact_of(#[trigger] out@[j], rv[j], gv[j]@),
        decreases rev.len(),
    {
        let c = rev.pop().unwrap();
        out.push(c);
    }
    proof {
        assert forall|j: int| 0 <= j < rv.len() implies contact_of(
            #[trigger] out@[j],
            rv[j],
            if seen_before(idv, j) {
                Seq::empty()
            } else {
                identifiers_of(id_rows@, rv[j].id@)
            },
        ) by {
            assert(idv[j] == rv[j].id);
            assert(ids@[j] == idv[j]);
        }
    }
    out
}

} // verus!
