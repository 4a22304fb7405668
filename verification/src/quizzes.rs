//! Quiz records and quiz attempts.

use vstd::prelude::*;
use crate::error::StoreError;
use crate::model::{Tables, inv, cascade_delete_quiz};
use crate::types::{
    Quiz, CreateQuizData, UpdateQuizData,
    SaveQuizAttemptData, QuizAttemptRecord, QuizAttemptWithDetails,
};
use crate::store::{
    db, lists_quizzes, lists_quiz_attempt_records,
    begin_raw, commit_raw, rollback_raw, pragma_foreign_keys_raw,
    insert_quiz_raw, update_quiz_raw, delete_quiz_raw,
    select_quizzes_raw, select_quiz_raw,
    insert_quiz_attempt_raw, select_quiz_attempt_records_raw,
};

verus! {

/// Every quiz under one topic, once each; an empty topic yields an empty
/// list, never an error.
pub fn get_quizzes(conn: &rusqlite::Connection, topic_id: i64) -> (r: Result<Vec<Quiz>, StoreError>)
    ensures
        r matches Ok(v) ==> lists_quizzes(db(*conn).cur, topic_id, v@),
        r matches Err(e) ==> !(e is NotFound),
{
    select_quizzes_raw(conn, topic_id)
}

/// The stored quiz keyed by `id`; `NotFound` exactly when no row has it.
pub fn get_quiz(conn: &rusqlite::Connection, id: i64) -> (r: Result<Quiz, StoreError>)
    ensures
        r matches Ok(s) ==> s.id == id && s.in_table(db(*conn).cur),
        r matches Err(e) ==> (e is NotFound ==> !db(*conn).cur.quizzes.dom().contains(id)),
{
    select_quiz_raw(conn, id)
}

/// Writes one quiz row in an atomic unit and returns it as re-read.  A
/// successful write implies the parent topic existed; on failure the store
/// is exactly as before.
pub fn create_quiz(conn: &mut rusqlite::Connection, data: &CreateQuizData) -> (r: Result<Quiz, StoreError>)
    requires
        inv(db(*old(conn))),
    ensures
        inv(db(*final(conn))),
        r matches Ok(s) ==> !db(*old(conn)).cur.quizzes.dom().contains(s.id)
            && db(*old(conn)).cur.topics.dom().contains(data.topic_id)
            && s.row() == data.row()
            && db(*final(conn)).cur == (Tables {
                quizzes: db(*old(conn)).cur.quizzes.insert(s.id, data.row()),
                ..db(*old(conn)).cur
            }),
        r matches Err(e) ==> db(*final(conn)) == db(*old(conn)) && !(e is NotFound),
{
    if let Err(e) = begin_raw(conn) {
        return Err(e);
    }
    let id = match insert_quiz_raw(conn, data) {
        Ok(id) => id,
        Err(e) => {
            rollback_raw(conn);
            return Err(e);
        },
    };
    let s = match select_quiz_raw(&*conn, id) {
        Ok(s) => s,
        Err(e) => {
            rollback_raw(conn);
            return Err(e);
        },
    };
    match commit_raw(conn) {
        Ok(_) => Ok(s),
        Err(e) => {
            rollback_raw(conn);
            Err(e)
        },
    }
}

/// Rewrites the quiz row keyed by `id`, keeping its parent topic;
/// `NotFound` (and no change) when the id has no row.
pub fn update_quiz(conn: &mut rusqlite::Connection, id: i64, data: &UpdateQuizData) -> (r: Result<Quiz, StoreError>)
    requires
        inv(db(*old(conn))),
    ensures
        inv(db(*final(conn))),
        r matches Ok(s) ==> db(*old(conn)).cur.quizzes.dom().contains(id)
            && s.id == id
            && s.row() == data.row(db(*old(conn)).cur.quizzes[id].topic_id)
            && db(*final(conn)).cur == (Tables {
                quizzes: db(*old(conn)).cur.quizzes.insert(id,
                    data.row(db(*old(conn)).cur.quizzes[id].topic_id)),
                ..db(*old(conn)).cur
            }),
        r matches Err(e) ==> db(*final(conn)) == db(*old(conn))
            && (e is NotFound ==> !db(*old(conn)).cur.quizzes.dom().contains(id)),
{
    if let Err(e) = begin_raw(conn) {
        return Err(e);
    }
    let n = match update_quiz_raw(conn, id, data) {
        Ok(n) => n,
        Err(e) => {
            rollback_raw(conn);
            return Err(e);
        },
    };
    if n == 0 {
        rollback_raw(conn);
        return Err(StoreError::NotFound);
    }
    let s = match select_quiz_raw(&*conn, id) {
        Ok(s) => s,
        Err(e) => {
            rollback_raw(conn);
            return Err(e);
        },
    };
    match commit_raw(conn) {
        Ok(_) => Ok(s),
        Err(e) => {
            rollback_raw(conn);
            Err(e)
        },
    }
}

/// Deletes the quiz keyed by `id` and, by cascade, its attempts.  Deleting
/// a missing id is not an error.
pub fn delete_quiz(conn: &mut rusqlite::Connection, id: i64) -> (r: Result<(), StoreError>)
    requires
        inv(db(*old(conn))),
    ensures
        inv(db(*final(conn))),
        r is Ok ==> db(*final(conn)).cur == cascade_delete_quiz(db(*old(conn)).cur, id),
        r matches Err(e) ==> db(*final(conn)) == db(*old(conn)) && !(e is NotFound),
{
    let ghost t0 = db(*conn).cur;
    if let Err(e) = pragma_foreign_keys_raw(conn) {
        return Err(e);
    }
    let r = delete_quiz_raw(conn, id);
    proof {
        if r is Ok {
            crate::lemmas::lemma_cascade_quiz_wf(t0, id);
        }
    }
    r
}

/// Appends one immutable quiz-attempt record — a single insert, no
/// transaction — and returns its server-assigned id.  The caller-computed
/// percentage (hundredths) is stored verbatim; nothing is recomputed.
pub fn save_quiz_attempt(conn: &mut rusqlite::Connection, data: &SaveQuizAttemptData) -> (r: Result<i64, StoreError>)
    requires
        inv(db(*old(conn))),
    ensures
        inv(db(*final(conn))),
        r matches Ok(id) ==> !db(*old(conn)).cur.quiz_attempts.dom().contains(id)
            && db(*old(conn)).cur.quizzes.dom().contains(data.quiz_id)
            && db(*final(conn)).cur == (Tables {
                quiz_attempts: db(*old(conn)).cur.quiz_attempts.insert(id, data.row()),
                ..db(*old(conn)).cur
            }),
        r matches Err(e) ==> db(*final(conn)) == db(*old(conn)) && !(e is NotFound),
{
    insert_quiz_attempt_raw(conn, data)
}

/// A sequence that restates every stored quiz attempt whose joins resolve,
/// each classified as passed at read time.
pub open spec fn lists_quiz_attempt_details(t: Tables, v: Seq<QuizAttemptWithDetails>) -> bool {
    &&& forall|i: int| 0 <= i < v.len() ==> (#[trigger] v[i]).ok_in(t)
    &&& forall|i: int, j: int| 0 <= i < j < v.len() ==> v[i].id != v[j].id
    &&& forall|id: i64| #[trigger] t.quiz_attempts.dom().contains(id)
            && t.quizzes.dom().contains(t.quiz_attempts[id].quiz_id)
            && t.topics.dom().contains(t.quizzes[t.quiz_attempts[id].quiz_id].topic_id)
            && t.subjects.dom().contains(t.topics[t.quizzes[t.quiz_attempts[id].quiz_id].topic_id].subject_id)
            ==> exists|i: int| 0 <= i < v.len() && v[i].id == id
}

/// Every stored quiz attempt (all of whose joins resolve, which the
/// invariant guarantees), joined with its quiz, topic and subject names and
/// classified as passed at read time: the stored percentage meets or
/// exceeds the owning quiz's passing score.
pub fn get_all_quiz_attempts(conn: &rusqlite::Connection) -> (r: Result<Vec<QuizAttemptWithDetails>, StoreError>)
    ensures
        r matches Ok(v) ==> lists_quiz_attempt_details(db(*conn).cur, v@),
        r matches Err(e) ==> !(e is NotFound),
{
    let ghost t = db(*conn).cur;
    let recs = match select_quiz_attempt_records_raw(conn) {
        Ok(recs) => recs,
        Err(e) => return Err(e),
    };
    let mut out: Vec<QuizAttemptWithDetails> = Vec::new();
    let mut i: usize = 0;
    while i < recs.len()
        invariant
            t == db(*conn).cur,
            i <= recs@.len(),
            out@.len() == i,
            lists_quiz_attempt_records(t, recs@),
            forall|k: int| 0 <= k < i ==> (#[trigger] out@[k]).ok_in(t) && out@[k].id == recs@[k].id,
        decreases recs@.len() - i,
    {
        let rec = &recs[i];
        let passed = rec.percentage >= (rec.passing_score_percent as i64) * 100;
        out.push(QuizAttemptWithDetails {
            id: rec.id,
            quiz_id: rec.quiz_id,
            quiz_name: rec.quiz_name.clone(),
            topic_name: rec.topic_name.clone(),
            subject_name: rec.subject_name.clone(),
            started_at: rec.started_at.clone(),
            completed_at: rec.completed_at.clone(),
            score: rec.score,
            max_score: rec.max_score,
            percentage: rec.percentage,
            time_taken_seconds: rec.time_taken_seconds,
            passed: passed,
        });
        i += 1;
    }
    proof {
        assert forall|id: i64| #[trigger] t.quiz_attempts.dom().contains(id)
                && t.quizzes.dom().contains(t.quiz_attempts[id].quiz_id)
                && t.topics.dom().contains(t.quizzes[t.quiz_attempts[id].quiz_id].topic_id)
                && t.subjects.dom().contains(t.topics[t.quizzes[t.quiz_attempts[id].quiz_id].topic_id].subject_id)
            implies exists|k: int| 0 <= k < out@.len() && out@[k].id == id by {
            assert(exists|k: int| 0 <= k < recs@.len() && recs@[k].id == id);
            let k = choose|k: int| 0 <= k < recs@.len() && recs@[k].id == id;
            assert(out@[k].id == id);
        }
        assert forall|i2: int, j2: int| 0 <= i2 < j2 < out@.len()
            implies out@[i2].id != out@[j2].id by {
            assert(recs@[i2].id != recs@[j2].id);
        }
        assert(lists_quiz_attempt_details(t, out@));
    }
    Ok(out)
}

} // verus!
