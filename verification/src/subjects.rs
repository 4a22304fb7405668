//! Subject records: the root of the content hierarchy.

use vstd::prelude::*;
use crate::error::StoreError;
use crate::model::{Tables, inv, cascade_delete_subject, wf};
use crate::types::{Subject, CreateSubjectData, UpdateSubjectData};
use crate::store::{
    db, lists_subjects,
    begin_raw, commit_raw, rollback_raw, pragma_foreign_keys_raw,
    insert_subject_raw, update_subject_raw, delete_subject_raw,
    select_subjects_raw, select_subject_raw,
};

verus! {

/// Every stored subject, once each; an empty store yields an empty list.
pub fn get_subjects(conn: &rusqlite::Connection) -> (r: Result<Vec<Subject>, StoreError>)
    ensures
        r matches Ok(v) ==> lists_subjects(db(*conn).cur, v@),
        r matches Err(e) ==> !(e is NotFound),
{
    select_subjects_raw(conn)
}

/// The stored subject keyed by `id`; `NotFound` exactly when no row has it.
pub fn get_subject(conn: &rusqlite::Connection, id: i64) -> (r: Result<Subject, StoreError>)
    ensures
        r matches Ok(s) ==> s.id == id && s.in_table(db(*conn).cur),
        r matches Err(e) ==> (e is NotFound ==> !db(*conn).cur.subjects.dom().contains(id)),
{
    select_subject_raw(conn, id)
}

/// Writes one subject row in an atomic unit and returns it as re-read, so
/// the caller observes the server-assigned id and timestamps.  On failure
/// the store is exactly as before.
pub fn create_subject(conn: &mut rusqlite::Connection, data: &CreateSubjectData) -> (r: Result<Subject, StoreError>)
    requires
        inv(db(*old(conn))),
    ensures
        inv(db(*final(conn))),
        r matches Ok(s) ==> !db(*old(conn)).cur.subjects.dom().contains(s.id)
            && s.row() == data.row()
            && db(*final(conn)).cur == (Tables {
                subjects: db(*old(conn)).cur.subjects.insert(s.id, data.row()),
                ..db(*old(conn)).cur
            }),
        r matches Err(e) ==> db(*final(conn)) == db(*old(conn)) && !(e is NotFound),
{
    if let Err(e) = begin_raw(conn) {
        return Err(e);
    }
    let id = match insert_subject_raw(conn, data) {
        Ok(id) => id,
        Err(e) => {
            rollback_raw(conn);
            return Err(e);
        },
    };
    let s = match select_subject_raw(&*conn, id) {
        Ok(s) => s,
        Err(e) => {
            rollback_raw(conn);
            return Err(e);
        },
    };
    match commit_raw(conn) {
        Ok(_) => Ok(s),
        Err(e) => {
            rollback_raw(conn);
            Err(e)
        },
    }
}

/// Rewrites the subject row keyed by `id` in an atomic unit; `NotFound`
/// (and no change) when the id has no row, detected as zero rows affected.
pub fn update_subject(conn: &mut rusqlite::Connection, id: i64, data: &UpdateSubjectData) -> (r: Result<Subject, StoreError>)
    requires
        inv(db(*old(conn))),
    ensures
        inv(db(*final(conn))),
        r matches Ok(s) ==> db(*old(conn)).cur.subjects.dom().contains(id)
            && s.id == id && s.row() == data.row()
            && db(*final(conn)).cur == (Tables {
                subjects: db(*old(conn)).cur.subjects.insert(id, data.row()),
                ..db(*old(conn)).cur
            }),
        r matches Err(e) ==> db(*final(conn)) == db(*old(conn))
            && (e is NotFound ==> !db(*old(conn)).cur.subjects.dom().contains(id)),
{
    if let Err(e) = begin_raw(conn) {
        return Err(e);
    }
    let n = match update_subject_raw(conn, id, data) {
        Ok(n) => n,
        Err(e) => {
            rollback_raw(conn);
            return Err(e);
        },
    };
    if n == 0 {
        rollback_raw(conn);
        return Err(StoreError::NotFound);
    }
    let s = match select_subject_raw(&*conn, id) {
        Ok(s) => s,
        Err(e) => {
            rollback_raw(conn);
            return Err(e);
        },
    };
    match commit_raw(conn) {
        Ok(_) => Ok(s),
        Err(e) => {
            rollback_raw(conn);
            Err(e)
        },
    }
}

/// Deletes the subject keyed by `id` and, by cascade, every topic, question,
/// variant row, quiz, exam and attempt under it.  Deleting a missing id is
/// not an error.
pub fn delete_subject(conn: &mut rusqlite::Connection, id: i64) -> (r: Result<(), StoreError>)
    requires
        inv(db(*old(conn))),
    ensures
        inv(db(*final(conn))),
        r is Ok ==> db(*final(conn)).cur == cascade_delete_subject(db(*old(conn)).cur, id),
        r matches Err(e) ==> db(*final(conn)) == db(*old(conn)) && !(e is NotFound),
{
    let ghost t0 = db(*conn).cur;
    if let Err(e) = pragma_foreign_keys_raw(conn) {
        return Err(e);
    }
    let r = delete_subject_raw(conn, id);
    proof {
        if r is Ok {
            crate::lemmas::lemma_cascade_subject_wf(t0, id);
        }
    }
    r
}

} // verus!
