//! Topic records: each belongs to exactly one subject.

use vstd::prelude::*;
use crate::error::StoreError;
use crate::model::{Tables, inv, cascade_delete_topic};
use crate::types::{Topic, CreateTopicData, UpdateTopicData};
use crate::store::{
    db, lists_topics,
    begin_raw, commit_raw, rollback_raw, pragma_foreign_keys_raw,
    insert_topic_raw, update_topic_raw, delete_topic_raw,
    select_topics_raw, select_topic_raw,
};

verus! {

/// Every topic under one subject, once each.  A subject with no topics — or
/// no subject at all under that id — yields an empty list, never an error.
pub fn get_topics(conn: &rusqlite::Connection, subject_id: i64) -> (r: Result<Vec<Topic>, StoreError>)
    ensures
        r matches Ok(v) ==> lists_topics(db(*conn).cur, subject_id, v@),
        r matches Ok(v) ==> (v@.len() == 0 <==> (forall|id: i64|
            #[trigger] db(*conn).cur.topics.dom().contains(id)
                ==> db(*conn).cur.topics[id].subject_id != subject_id)),
        r matches Err(e) ==> !(e is NotFound),
{
    let r = select_topics_raw(conn, subject_id);
    proof {
        if r is Ok {
            let v = r->Ok_0;
            if v@.len() > 0 {
                assert(v@[0].in_table(db(*conn).cur));
            }
        }
    }
    r
}

/// The stored topic keyed by `id`; `NotFound` exactly when no row has it.
pub fn get_topic(conn: &rusqlite::Connection, id: i64) -> (r: Result<Topic, StoreError>)
    ensures
        r matches Ok(s) ==> s.id == id && s.in_table(db(*conn).cur),
        r matches Err(e) ==> (e is NotFound ==> !db(*conn).cur.topics.dom().contains(id)),
{
    select_topic_raw(conn, id)
}

/// Writes one topic row in an atomic unit and returns it as re-read.  A
/// successful write implies the parent subject existed (foreign keys are
/// on); on failure the store is exactly as before.
pub fn create_topic(conn: &mut rusqlite::Connection, data: &CreateTopicData) -> (r: Result<Topic, StoreError>)
    requires
        inv(db(*old(conn))),
    ensures
        inv(db(*final(conn))),
        r matches Ok(s) ==> !db(*old(conn)).cur.topics.dom().contains(s.id)
            && db(*old(conn)).cur.subjects.dom().contains(data.subject_id)
            && s.row() == data.row()
            && db(*final(conn)).cur == (Tables {
                topics: db(*old(conn)).cur.topics.insert(s.id, data.row()),
                ..db(*old(conn)).cur
            }),
        r matches Err(e) ==> db(*final(conn)) == db(*old(conn)) && !(e is NotFound),
{
    if let Err(e) = begin_raw(conn) {
        return Err(e);
    }
    let id = match insert_topic_raw(conn, data) {
        Ok(id) => id,
        Err(e) => {
            rollback_raw(conn);
            return Err(e);
        },
    };
    let s = match select_topic_raw(&*conn, id) {
        Ok(s) => s,
        Err(e) => {
            rollback_raw(conn);
            return Err(e);
        },
    };
    match commit_raw(conn) {
        Ok(_) => Ok(s),
        Err(e) => {
            rollback_raw(conn);
            Err(e)
        },
    }
}

/// Rewrites the topic row keyed by `id`, keeping its parent subject;
/// `NotFound` (and no change) when the id has no row.
pub fn update_topic(conn: &mut rusqlite::Connection, id: i64, data: &UpdateTopicData) -> (r: Result<Topic, StoreError>)
    requires
        inv(db(*old(conn))),
    ensures
        inv(db(*final(conn))),
        r matches Ok(s) ==> db(*old(conn)).cur.topics.dom().contains(id)
            && s.id == id
            && s.row() == data.row(db(*old(conn)).cur.topics[id].subject_id)
            && db(*final(conn)).cur == (Tables {
                topics: db(*old(conn)).cur.topics.insert(id,
                    data.row(db(*old(conn)).cur.topics[id].subject_id)),
                ..db(*old(conn)).cur
            }),
        r matches Err(e) ==> db(*final(conn)) == db(*old(conn))
            && (e is NotFound ==> !db(*old(conn)).cur.topics.dom().contains(id)),
{
    if let Err(e) = begin_raw(conn) {
        return Err(e);
    }
    let n = match update_topic_raw(conn, id, data) {
        Ok(n) => n,
        Err(e) => {
            rollback_raw(conn);
            return Err(e);
        },
    };
    if n == 0 {
        rollback_raw(conn);
        return Err(StoreError::NotFound);
    }
    let s = match select_topic_raw(&*conn, id) {
        Ok(s) => s,
        Err(e) => {
            rollback_raw(conn);
            return Err(e);
        },
    };
    match commit_raw(conn) {
        Ok(_) => Ok(s),
        Err(e) => {
            rollback_raw(conn);
            Err(e)
        },
    }
}

/// Deletes the topic keyed by `id` and, by cascade, its questions with their
/// variant rows, its quizzes with their attempts, and any exam quota rows
/// naming it.  Deleting a missing id is not an error.
pub fn delete_topic(conn: &mut rusqlite::Connection, id: i64) -> (r: Result<(), StoreError>)
    requires
        inv(db(*old(conn))),
    ensures
        inv(db(*final(conn))),
        r is Ok ==> db(*final(conn)).cur == cascade_delete_topic(db(*old(conn)).cur, id),
        r matches Err(e) ==> db(*final(conn)) == db(*old(conn)) && !(e is NotFound),
{
    let ghost t0 = db(*conn).cur;
    if let Err(e) = pragma_foreign_keys_raw(conn) {
        return Err(e);
    }
    let r = delete_topic_raw(conn, id);
    proof {
        if r is Ok {
            crate::lemmas::lemma_cascade_topic_wf(t0, id);
        }
    }
    r
}

} // verus!
