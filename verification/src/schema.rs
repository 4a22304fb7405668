//! Schema bootstrap and store handles.
//!
//! The schema is a fixed, versionless set of table definitions applied
//! idempotently at startup; cascade constraints mirror the ownership
//! hierarchy, and the per-connection foreign-key pragma that makes them
//! effective is part of opening the store.

use vstd::prelude::*;
use crate::error::StoreError;
use crate::model::{Db, Tables, ready, inv};
use crate::store::{
    db, pragma_foreign_keys_raw, open_memory_raw, open_path_raw,
    create_subjects_table, create_topics_table, create_questions_table,
    create_question_options_table, create_question_blanks_table,
    create_question_order_items_table, create_question_matches_table,
    create_quizzes_table, create_quiz_attempts_table, create_exams_table,
    create_exam_topics_table, create_exam_attempts_table,
};

verus! {

/// Applies the schema to the connection: turns foreign-key enforcement on
/// and creates any table that does not exist yet.  Idempotent; never
/// changes row contents.
pub fn init_database(conn: &mut rusqlite::Connection) -> (r: Result<(), StoreError>)
    requires
        !db(*old(conn)).in_tx,
    ensures
        db(*final(conn)).cur == db(*old(conn)).cur,
        db(*final(conn)).base == db(*old(conn)).base,
        db(*final(conn)).in_tx == db(*old(conn)).in_tx,
        r is Ok ==> db(*final(conn)) == (Db { fk_on: true, ..db(*old(conn)) }),
        r matches Err(e) ==> !(e is NotFound),
{
    if let Err(e) = pragma_foreign_keys_raw(conn) {
        return Err(e);
    }
    if let Err(e) = create_subjects_table(conn) {
        return Err(e);
    }
    if let Err(e) = create_topics_table(conn) {
        return Err(e);
    }
    if let Err(e) = create_questions_table(conn) {
        return Err(e);
    }
    if let Err(e) = create_question_options_table(conn) {
        return Err(e);
    }
    if let Err(e) = create_question_blanks_table(conn) {
        return Err(e);
    }
    if let Err(e) = create_question_order_items_table(conn) {
        return Err(e);
    }
    if let Err(e) = create_question_matches_table(conn) {
        return Err(e);
    }
    if let Err(e) = create_quizzes_table(conn) {
        return Err(e);
    }
    if let Err(e) = create_quiz_attempts_table(conn) {
        return Err(e);
    }
    if let Err(e) = create_exams_table(conn) {
        return Err(e);
    }
    if let Err(e) = create_exam_topics_table(conn) {
        return Err(e);
    }
    if let Err(e) = create_exam_attempts_table(conn) {
        return Err(e);
    }
    Ok(())
}

/// Opens a fresh, empty in-memory store with the schema applied: the
/// resulting connection satisfies the repository invariant.
pub fn open_store_in_memory() -> (r: Result<rusqlite::Connection, StoreError>)
    ensures
        r matches Ok(c) ==> inv(db(c)) && db(c).cur == Tables::empty(),
{
    let mut conn = match open_memory_raw() {
        Ok(c) => c,
        Err(e) => return Err(e),
    };
    if let Err(e) = init_database(&mut conn) {
        return Err(e);
    }
    Ok(conn)
}

/// Opens the store at a database file, creating it if absent, and applies
/// the schema.  The file's contents are whatever is on disk, so only
/// readiness — no open transaction, cascades on — is promised.
pub fn open_store_at(path: &str) -> (r: Result<rusqlite::Connection, StoreError>)
    ensures
        r matches Ok(c) ==> ready(db(c)),
{
    let mut conn = match open_path_raw(path) {
        Ok(c) => c,
        Err(e) => return Err(e),
    };
    if let Err(e) = init_database(&mut conn) {
        return Err(e);
    }
    Ok(conn)
}

} // verus!
