//! Rules of the SQLite store: row shapes, state machines of calls and
//! chunks, normalisation of what gets written, and the paths of the
//! database files.
use vstd::prelude::*;

use crate::error::AppError;
use crate::text::{push_str, str_is, to_owned_string};

pub mod calls;
pub mod chunks;
pub mod contacts;
pub mod degraded;
pub mod passages;
pub mod recap_items;
pub mod speakers;
pub mod sql;
pub mod telemetry;

verus! {

/// File name of the database in the app data directory.
pub const DB_FILE: &'static str = "app.db";

/// Path of a SQLite side file (`-wal`, `-shm`): the suffix is appended to the
/// whole file name, so `app.db` + `-wal` is `app.db-wal` (the extension is
/// kept, not replaced).
pub fn sidecar_path(base: &str, suffix: &str) -> (p: String)
    ensures
        p@ == base@ + suffix@,
{
    let mut p = to_owned_string(base);
    push_str(&mut p, suffix);
    p
}

/// Law: a side file's path starts with the database path.
pub proof fn law_sidecar_extends_base(base: Seq<char>, suffix: Seq<char>)
    ensures
        (base + suffix).subrange(0, base.len() as int) == base,
        (base + suffix).len() == base.len() + suffix.len(),
{
    assert((base + suffix).subrange(0, base.len() as int) =~= base);
}

/// Name of the file a corrupt database is moved to: `app.db.corrupt-<ts>`.
pub fn corrupt_db_file_name(ts: &str) -> (name: String)
    ensures
        name@ == DB_FILE@ + ".corrupt-"@ + ts@,
{
    let mut n = to_owned_string(DB_FILE);
    push_str(&mut n, ".corrupt-");
    push_str(&mut n, ts);
    n
}

/// The moves that quarantine a corrupt database: the file itself, then its
/// `-wal` and `-shm` side files to the same name with the same suffix, so a
/// fresh database never replays the old log.
pub fn quarantine_moves(db_path: &str, corrupt_path: &str) -> (moves: Vec<(String, String)>)
    ensures
        moves@.len() == 3,
        moves@[0].0@ == db_path@ && moves@[0].1@ == corrupt_path@,
        moves@[1].0@ == db_path@ + "-wal"@ && moves@[1].1@ == corrupt_path@ + "-wal"@,
        moves@[2].0@ == db_path@ + "-shm"@ && moves@[2].1@ == corrupt_path@ + "-shm"@,
{
    let mut moves: Vec<(String, String)> = Vec::new();
    moves.push((to_owned_string(db_path), to_owned_string(corrupt_path)));
    moves.push((sidecar_path(db_path, "-wal"), sidecar_path(corrupt_path, "-wal")));
    moves.push((sidecar_path(db_path, "-shm"), sidecar_path(corrupt_path, "-shm")));
    moves
}

/// Verdict of `PRAGMA integrity_check`: only `ok` passes; anything else is an
/// error naming what it returned.
pub fn integrity_verdict(result: &str) -> (r: Result<(), AppError>)
    ensures
        result@ == "ok"@ ==> r is Ok,
        result@ != "ok"@ ==> (r matches Err(e) && e matches AppError::Other(m) && m@
            == "integrity_check returned: "@ + result@),
{
    if str_is(result, "ok") {
        Ok(())
    } else {
        let mut m = to_owned_string("integrity_check returned: ");
        push_str(&mut m, result);
        Err(AppError::Other(m))
    }
}

} // verus!
