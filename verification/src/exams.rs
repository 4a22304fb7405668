//! Exam aggregates: a base record plus topic-quota rows — the one
//! many-to-many relation of the model, an exam drawing a caller-supplied
//! question quota from each of several topics.

use vstd::prelude::*;
use crate::error::StoreError;
use crate::model::{
    Db, Tables, inv, wf, cascade_delete_exam, ExamRow, ExamTopicRow,
};
use crate::types::{
    Exam, ExamWithTopics, ExamTopicWithName, CreateExamData, UpdateExamData, CreateExamTopicData,
    SaveExamAttemptData, ExamAttemptRecord, ExamAttemptWithDetails,
};
use crate::questions::rows_replaced;
use crate::store::{
    db, lists_exams, lists_exam_topics, lists_exam_attempt_records,
    begin_raw, commit_raw, rollback_raw, pragma_foreign_keys_raw,
    insert_exam_raw, update_exam_raw, delete_exam_raw,
    insert_exam_topic_raw, delete_exam_topics_for_raw,
    select_exams_raw, select_exam_raw, select_exam_topics_raw,
    insert_exam_attempt_raw, select_exam_attempt_records_raw,
};

verus! {

/// The aggregate restates the stored exam row and exactly its quota rows.
pub open spec fn exam_details_ok(t: Tables, e: ExamWithTopics) -> bool {
    &&& t.exams.dom().contains(e.id)
    &&& t.exams[e.id] == e.base_row()
    &&& lists_exam_topics(t, e.id, e.topics@)
}

/// A sequence that restates every exam aggregate under one subject.
pub open spec fn lists_exam_details(t: Tables, subject_id: i64, v: Seq<ExamWithTopics>) -> bool {
    &&& forall|i: int| 0 <= i < v.len()
            ==> exam_details_ok(t, #[trigger] v[i]) && v[i].subject_id == subject_id
    &&& forall|i: int, j: int| 0 <= i < j < v.len() ==> v[i].id != v[j].id
    &&& forall|id: i64| #[trigger] t.exams.dom().contains(id) && t.exams[id].subject_id == subject_id
            ==> exists|i: int| 0 <= i < v.len() && v[i].id == id
}

pub open spec fn exam_topics_replaced(
    m0: Map<i64, ExamTopicRow>,
    m1: Map<i64, ExamTopicRow>,
    ids: Seq<i64>,
    rows: Seq<ExamTopicRow>,
    eid: i64,
) -> bool {
    rows_replaced(m0, m1, ids, rows, eid, |r: ExamTopicRow| r.exam_id)
}

/// The quota rows a payload stands for, in payload order.
pub open spec fn exam_topic_rows_of(items: Seq<CreateExamTopicData>, eid: i64) -> Seq<ExamTopicRow> {
    Seq::new(items.len(), |k: int| items[k].row(eid))
}

/// What a successful exam create left behind.
pub open spec fn created_exam(t0: Tables, t1: Tables, data: CreateExamData, e: ExamWithTopics) -> bool {
    let eid = e.id;
    &&& !t0.exams.dom().contains(eid)
    &&& t0.subjects.dom().contains(data.subject_id)
    &&& e.base_row() == data.base_row()
    &&& t1.exams == t0.exams.insert(eid, data.base_row())
    &&& t1 == (Tables { exams: t1.exams, exam_topics: t1.exam_topics, ..t0 })
    &&& exists|ids: Seq<i64>| #[trigger] exam_topics_replaced(t0.exam_topics, t1.exam_topics, ids,
            exam_topic_rows_of(data.topics@, eid), eid)
    &&& exam_details_ok(t1, e)
    &&& e.topics@.len() == data.topics@.len()
}

/// What a successful exam update left behind: the base row rewritten in
/// place, keeping its subject, and the quota rows replaced wholesale.
pub open spec fn updated_exam(t0: Tables, t1: Tables, id: i64, data: UpdateExamData, e: ExamWithTopics) -> bool {
    let b = data.base_row(t0.exams[id].subject_id);
    &&& t0.exams.dom().contains(id)
    &&& e.id == id
    &&& e.base_row() == b
    &&& t1.exams == t0.exams.insert(id, b)
    &&& t1 == (Tables { exams: t1.exams, exam_topics: t1.exam_topics, ..t0 })
    &&& exists|ids: Seq<i64>| #[trigger] exam_topics_replaced(t0.exam_topics, t1.exam_topics, ids,
            exam_topic_rows_of(data.topics@, id), id)
    &&& exam_details_ok(t1, e)
    &&& e.topics@.len() == data.topics@.len()
}

/// After an exam write, every table still satisfies referential integrity.
proof fn lemma_exam_written_wf(t0: Tables, t1: Tables, eid: i64, row: ExamRow)
    requires
        wf(t0),
        t0.subjects.dom().contains(row.subject_id),
        t1.exams == t0.exams.insert(eid, row),
        t1 == (Tables { exams: t1.exams, exam_topics: t1.exam_topics, ..t0 }),
        forall|oid: i64| #[trigger] t1.exam_topics.dom().contains(oid)
            ==> (t1.exam_topics[oid].exam_id == eid
                    && t0.topics.dom().contains(t1.exam_topics[oid].topic_id))
                || (t0.exam_topics.dom().contains(oid) && t1.exam_topics[oid] == t0.exam_topics[oid]),
    ensures
        wf(t1),
{
    assert forall|id: i64| #[trigger] t1.exams.dom().contains(id)
        implies t1.subjects.dom().contains(t1.exams[id].subject_id) by {
        if id != eid {
            assert(t0.exams.dom().contains(id));
        }
    }
    assert forall|id: i64| #[trigger] t1.exam_topics.dom().contains(id)
        implies t1.exams.dom().contains(t1.exam_topics[id].exam_id)
            && t1.topics.dom().contains(t1.exam_topics[id].topic_id) by {
        if !(t1.exam_topics[id].exam_id == eid && t0.topics.dom().contains(
            t1.exam_topics[id].topic_id)) {
            assert(t0.exam_topics.dom().contains(id));
            assert(t0.exams.dom().contains(t0.exam_topics[id].exam_id));
        }
    }
    assert forall|id: i64| #[trigger] t1.exam_attempts.dom().contains(id)
        implies t1.exams.dom().contains(t1.exam_attempts[id].exam_id) by {
        assert(t0.exams.dom().contains(t0.exam_attempts[id].exam_id));
    }
}

/// Reads one exam aggregate: the base row and its quota rows with names.
fn read_exam_details(conn: &rusqlite::Connection, id: i64) -> (r: Result<ExamWithTopics, StoreError>)
    ensures
        r matches Ok(e) ==> e.id == id && exam_details_ok(db(*conn).cur, e),
        r matches Err(e) ==> (e is NotFound ==> !db(*conn).cur.exams.dom().contains(id)),
{
    let exam = match select_exam_raw(conn, id) {
        Ok(e) => e,
        Err(e) => return Err(e),
    };
    let topics = match select_exam_topics_raw(conn, id) {
        Ok(v) => v,
        Err(e) => return Err(e),
    };
    Ok(ExamWithTopics {
        id: exam.id,
        subject_id: exam.subject_id,
        name: exam.name,
        description: exam.description,
        total_question_count: exam.total_question_count,
        time_limit_minutes: exam.time_limit_minutes,
        shuffle_questions: exam.shuffle_questions,
        shuffle_options: exam.shuffle_options,
        show_answers_after: exam.show_answers_after,
        passing_score_percent: exam.passing_score_percent,
        created_at: exam.created_at,
        updated_at: exam.updated_at,
        topics: topics,
    })
}

/// The stored exam aggregate keyed by `id`; `NotFound` exactly when no base
/// row has it.
pub fn get_exam(conn: &rusqlite::Connection, id: i64) -> (r: Result<ExamWithTopics, StoreError>)
    ensures
        r matches Ok(e) ==> e.id == id && exam_details_ok(db(*conn).cur, e),
        r matches Err(e) ==> (e is NotFound ==> !db(*conn).cur.exams.dom().contains(id)),
{
    read_exam_details(conn, id)
}

/// Every exam aggregate under one subject, once each; an empty subject
/// yields an empty list, never an error.
pub fn get_exams(conn: &rusqlite::Connection, subject_id: i64) -> (r: Result<Vec<ExamWithTopics>, StoreError>)
    ensures
        r matches Ok(v) ==> lists_exam_details(db(*conn).cur, subject_id, v@),
        r matches Err(e) ==> !(e is NotFound),
{
    let ghost t = db(*conn).cur;
    let bases = match select_exams_raw(conn, subject_id) {
        Ok(v) => v,
        Err(e) => return Err(e),
    };
    let mut out: Vec<ExamWithTopics> = Vec::new();
    let mut i: usize = 0;
    while i < bases.len()
        invariant
            t == db(*conn).cur,
            i <= bases@.len(),
            out@.len() == i,
            lists_exams(t, subject_id, bases@),
            forall|k: int| 0 <= k < i ==> exam_details_ok(t, #[trigger] out@[k])
                && out@[k].subject_id == subject_id
                && out@[k].id == bases@[k].id,
        decreases bases@.len() - i,
    {
        let id = bases[i].id;
        let e = match read_exam_details(conn, id) {
            Ok(e) => e,
            Err(e) => {
                proof {
                    assert(bases@[i as int].in_table(t));
                    assert(db(*conn).cur.exams.dom().contains(id));
                }
                return Err(e);
            },
        };
        proof {
            assert(bases@[i as int].in_table(t));
            assert(t.exams[id] == bases@[i as int].row());
            assert(t.exams[id] == e.base_row());
            assert(e.subject_id == subject_id);
        }
        out.push(e);
        i += 1;
    }
    proof {
        assert forall|id: i64| #[trigger] t.exams.dom().contains(id)
                && t.exams[id].subject_id == subject_id
            implies exists|k: int| 0 <= k < out@.len() && out@[k].id == id by {
            assert(exists|k: int| 0 <= k < bases@.len() && bases@[k].id == id);
            let k = choose|k: int| 0 <= k < bases@.len() && bases@[k].id == id;
            assert(out@[k].id == id);
        }
    }
    Ok(out)
}

/// Writes one exam aggregate inside one atomic unit: the base row, then one
/// quota row per payload topic; then re-reads the aggregate and commits.  On
/// any failure — among them a quota row naming a missing topic — the whole
/// unit rolls back and the store is exactly as before.
#[verifier::loop_isolation(false)]
#[verifier::rlimit(60)]
pub fn create_exam(conn: &mut rusqlite::Connection, data: CreateExamData) -> (r: Result<ExamWithTopics, StoreError>)
    requires
        inv(db(*old(conn))),
    ensures
        inv(db(*final(conn))),
        r matches Ok(e) ==> created_exam(db(*old(conn)).cur, db(*final(conn)).cur, data, e),
        r matches Err(e) ==> db(*final(conn)) == db(*old(conn)) && !(e is NotFound),
{
    let ghost payload = data;
    let ghost t0 = db(*conn).cur;
    if let Err(e) = begin_raw(conn) {
        return Err(e);
    }
    let eid = match insert_exam_raw(conn, &data) {
        Ok(id) => id,
        Err(e) => {
            rollback_raw(conn);
            return Err(e);
        },
    };
    let ghost t1 = db(*conn).cur;
    let ghost erows = exam_topic_rows_of(payload.topics@, eid);
    let ghost mut eids: Seq<i64> = Seq::empty();
    let mut k: usize = 0;
    while k < data.topics.len()
        invariant
            eids.len() == k,
            k <= data.topics@.len(),
            eids.no_duplicates(),
            db(*conn) == (Db {
                cur: Tables { exam_topics: db(*conn).cur.exam_topics, ..t1 },
                base: t0,
                in_tx: true,
                fk_on: true,
            }),
            forall|j: int| 0 <= j < k
                ==> db(*conn).cur.exam_topics.dom().contains(#[trigger] eids[j])
                    && db(*conn).cur.exam_topics[eids[j]] == erows[j]
                    && t0.topics.dom().contains(erows[j].topic_id),
            forall|oid: i64| #[trigger] t1.exam_topics.dom().contains(oid)
                ==> db(*conn).cur.exam_topics.dom().contains(oid)
                    && db(*conn).cur.exam_topics[oid] == t1.exam_topics[oid],
            forall|oid: i64| #[trigger] db(*conn).cur.exam_topics.dom().contains(oid)
                ==> t1.exam_topics.dom().contains(oid) || eids.contains(oid),
        decreases data.topics@.len() - k,
    {
        let id = match insert_exam_topic_raw(conn, eid, &data.topics[k]) {
            Ok(id) => id,
            Err(e) => {
                rollback_raw(conn);
                return Err(e);
            },
        };
        proof {
            assert(!eids.contains(id)) by {
                if eids.contains(id) {
                    let j = choose|j: int| 0 <= j < eids.len() && eids[j] == id;
                }
            }
            let ids0 = eids;
            crate::questions::lemma_push_no_dup(ids0, id);
            eids = ids0.push(id);
            assert forall|oid: i64| #[trigger] db(*conn).cur.exam_topics.dom().contains(oid)
                implies t1.exam_topics.dom().contains(oid) || eids.contains(oid) by {
                if oid == id {
                    crate::questions::lemma_push_contains(ids0, id, oid);
                } else if !t1.exam_topics.dom().contains(oid) {
                    assert(ids0.contains(oid));
                    crate::questions::lemma_push_contains(ids0, id, oid);
                }
            }
        }
        k += 1;
    }
    let e = match read_exam_details(&*conn, eid) {
        Ok(e) => e,
        Err(e) => {
            proof {
                assert(db(*conn).cur.exams.dom().contains(eid));
            }
            rollback_raw(conn);
            return Err(e);
        },
    };
    let ghost tf = db(*conn).cur;
    proof {
        lemma_exam_tables_final(t0, t1, tf, eid, payload.base_row(), eids, erows);
        lemma_exam_written_wf(t0, tf, eid, payload.base_row());
        assert forall|j: int| 0 <= j < erows.len() implies tf.topics.dom().contains(
            (#[trigger] erows[j]).topic_id) by {
            assert(tf.exam_topics.dom().contains(eids[j]));
            assert(t0.topics.dom().contains(erows[j].topic_id));
        }
        lemma_exam_topic_count(t0, tf, e, eids, erows, eid);
        assert(tf.exams[eid] == payload.base_row());
        assert(payload == data);
        assert(created_exam(t0, tf, data, e)) by {
            assert(exam_topics_replaced(t0.exam_topics, tf.exam_topics, eids,
                exam_topic_rows_of(data.topics@, eid), eid));
        }
    }
    match commit_raw(conn) {
        Ok(_) => Ok(e),
        Err(e) => {
            rollback_raw(conn);
            Err(e)
        },
    }
}

/// The frame of the quota-row loop, chained to the start of the unit.
proof fn lemma_exam_tables_final(
    t0: Tables, t1: Tables, tf: Tables,
    eid: i64, row: ExamRow,
    eids: Seq<i64>, erows: Seq<ExamTopicRow>,
)
    requires
        wf(t0),
        !t0.exams.dom().contains(eid),
        t1 == (Tables { exams: t0.exams.insert(eid, row), ..t0 }),
        tf == (Tables { exam_topics: tf.exam_topics, ..t1 }),
        eids.no_duplicates(),
        eids.len() == erows.len(),
        forall|j: int| 0 <= j < eids.len()
            ==> tf.exam_topics.dom().contains(#[trigger] eids[j])
                && tf.exam_topics[eids[j]] == erows[j]
                && t0.topics.dom().contains(erows[j].topic_id),
        forall|oid: i64| #[trigger] t1.exam_topics.dom().contains(oid)
            ==> tf.exam_topics.dom().contains(oid) && tf.exam_topics[oid] == t1.exam_topics[oid],
        forall|oid: i64| #[trigger] tf.exam_topics.dom().contains(oid)
            ==> t1.exam_topics.dom().contains(oid) || eids.contains(oid),
        forall|k: int| 0 <= k < erows.len() ==> (#[trigger] erows[k]).exam_id == eid,
    ensures
        tf.exams == t0.exams.insert(eid, row),
        tf == (Tables { exams: tf.exams, exam_topics: tf.exam_topics, ..t0 }),
        exam_topics_replaced(t0.exam_topics, tf.exam_topics, eids, erows, eid),
        forall|oid: i64| #[trigger] tf.exam_topics.dom().contains(oid)
            ==> (tf.exam_topics[oid].exam_id == eid
                    && t0.topics.dom().contains(tf.exam_topics[oid].topic_id))
                || (t0.exam_topics.dom().contains(oid) && tf.exam_topics[oid] == t0.exam_topics[oid]),
{
    assert(t1.exam_topics == t0.exam_topics);
    assert forall|oid: i64| #[trigger] t0.exam_topics.dom().contains(oid)
        implies t0.exam_topics[oid].exam_id != eid by {
        assert(t0.exams.dom().contains(t0.exam_topics[oid].exam_id));
    }
    assert forall|oid: i64| #[trigger] tf.exam_topics.dom().contains(oid)
        implies (tf.exam_topics[oid].exam_id == eid
                && t0.topics.dom().contains(tf.exam_topics[oid].topic_id))
            || (t0.exam_topics.dom().contains(oid) && tf.exam_topics[oid] == t0.exam_topics[oid]) by {
        if !t1.exam_topics.dom().contains(oid) {
            let j = choose|j: int| 0 <= j < eids.len() && eids[j] == oid;
            assert(tf.exam_topics[oid] == erows[j]);
        }
    }
}

/// The re-read quota rows are exactly one per written row.
proof fn lemma_exam_topic_count(
    t0: Tables, tf: Tables, e: ExamWithTopics, eids: Seq<i64>, erows: Seq<ExamTopicRow>, eid: i64,
)
    requires
        e.id == eid,
        exam_details_ok(tf, e),
        exam_topics_replaced(t0.exam_topics, tf.exam_topics, eids, erows, eid),
        forall|j: int| 0 <= j < erows.len()
            ==> tf.topics.dom().contains((#[trigger] erows[j]).topic_id),
    ensures
        e.topics@.len() == erows.len(),
{
    let v = Seq::new(e.topics@.len(), |i: int| e.topics@[i].id);
    assert(v.no_duplicates()) by {
        assert forall|i: int, j: int| 0 <= i < v.len() && 0 <= j < v.len() && i != j
            implies v[i] != v[j] by {
            if i < j {
                assert(e.topics@[i].id != e.topics@[j].id);
            } else {
                assert(e.topics@[j].id != e.topics@[i].id);
            }
        }
    }
    assert forall|i: int| 0 <= i < v.len() implies eids.contains(#[trigger] v[i]) by {
        assert(e.topics@[i].in_table(tf));
        assert(tf.exam_topics.dom().contains(v[i]));
        assert(tf.exam_topics[v[i]].exam_id == eid);
    }
    assert forall|k: int| 0 <= k < eids.len() implies v.contains(#[trigger] eids[k]) by {
        assert(tf.exam_topics.dom().contains(eids[k]) && tf.exam_topics[eids[k]] == erows[k]);
        assert(erows[k].exam_id == eid);
        assert(tf.topics.dom().contains(tf.exam_topics[eids[k]].topic_id));
        let i = choose|i: int| 0 <= i < e.topics@.len() && e.topics@[i].id == eids[k];
        assert(v[i] == eids[k]);
    }
    crate::questions::lemma_distinct_cover_len(v, eids);
}

/// Rewrites one exam aggregate inside one atomic unit with the replace-all
/// protocol: the base row is updated in place, every existing quota row is
/// deleted, the new quota rows are inserted, and the aggregate is re-read
/// before commit.  `NotFound` — zero rows affected — and every other
/// failure roll the unit back.
#[verifier::loop_isolation(false)]
#[verifier::rlimit(60)]
pub fn update_exam(conn: &mut rusqlite::Connection, id: i64, data: UpdateExamData) -> (r: Result<ExamWithTopics, StoreError>)
    requires
        inv(db(*old(conn))),
    ensures
        inv(db(*final(conn))),
        r matches Ok(e) ==> updated_exam(db(*old(conn)).cur, db(*final(conn)).cur, id, data, e),
        r matches Err(e) ==> db(*final(conn)) == db(*old(conn))
            && (e is NotFound ==> !db(*old(conn)).cur.exams.dom().contains(id)),
{
    let ghost payload = data;
    let ghost t0 = db(*conn).cur;
    let eid = id;
    if let Err(e) = begin_raw(conn) {
        return Err(e);
    }
    let n = match update_exam_raw(conn, eid, &data) {
        Ok(n) => n,
        Err(e) => {
            rollback_raw(conn);
            return Err(e);
        },
    };
    if n == 0 {
        rollback_raw(conn);
        return Err(StoreError::NotFound);
    }
    let ghost brow = payload.base_row(t0.exams[eid].subject_id);
    let ghost t1 = db(*conn).cur;
    if let Err(e) = delete_exam_topics_for_raw(conn, eid) {
        rollback_raw(conn);
        return Err(e);
    }
    let ghost td = db(*conn).cur;
    let ghost erows = exam_topic_rows_of(payload.topics@, eid);
    let ghost mut eids: Seq<i64> = Seq::empty();
    let mut k: usize = 0;
    while k < data.topics.len()
        invariant
            eids.len() == k,
            k <= data.topics@.len(),
            eids.no_duplicates(),
            db(*conn) == (Db {
                cur: Tables { exam_topics: db(*conn).cur.exam_topics, ..td },
                base: t0,
                in_tx: true,
                fk_on: true,
            }),
            forall|j: int| 0 <= j < k
                ==> db(*conn).cur.exam_topics.dom().contains(#[trigger] eids[j])
                    && db(*conn).cur.exam_topics[eids[j]] == erows[j]
                    && t0.topics.dom().contains(erows[j].topic_id),
            forall|oid: i64| #[trigger] td.exam_topics.dom().contains(oid)
                ==> db(*conn).cur.exam_topics.dom().contains(oid)
                    && db(*conn).cur.exam_topics[oid] == td.exam_topics[oid],
            forall|oid: i64| #[trigger] db(*conn).cur.exam_topics.dom().contains(oid)
                ==> td.exam_topics.dom().contains(oid) || eids.contains(oid),
        decreases data.topics@.len() - k,
    {
        let id2 = match insert_exam_topic_raw(conn, eid, &data.topics[k]) {
            Ok(id2) => id2,
            Err(e) => {
                rollback_raw(conn);
                return Err(e);
            },
        };
        proof {
            assert(!eids.contains(id2)) by {
                if eids.contains(id2) {
                    let j = choose|j: int| 0 <= j < eids.len() && eids[j] == id2;
                }
            }
            let ids0 = eids;
            crate::questions::lemma_push_no_dup(ids0, id2);
            eids = ids0.push(id2);
            assert forall|oid: i64| #[trigger] db(*conn).cur.exam_topics.dom().contains(oid)
                implies td.exam_topics.dom().contains(oid) || eids.contains(oid) by {
                if oid == id2 {
                    crate::questions::lemma_push_contains(ids0, id2, oid);
                } else if !td.exam_topics.dom().contains(oid) {
                    assert(ids0.contains(oid));
                    crate::questions::lemma_push_contains(ids0, id2, oid);
                }
            }
        }
        k += 1;
    }
    let e = match read_exam_details(&*conn, eid) {
        Ok(e) => e,
        Err(e) => {
            proof {
                assert(db(*conn).cur.exams.dom().contains(eid));
            }
            rollback_raw(conn);
            return Err(e);
        },
    };
    let ghost tf = db(*conn).cur;
    proof {
        lemma_exam_tables_updated(t0, t1, td, tf, eid, brow, eids, erows);
        assert(t0.subjects.dom().contains(brow.subject_id)) by {
            assert(t0.exams.dom().contains(eid));
        }
        lemma_exam_written_wf(t0, tf, eid, brow);
        assert forall|j: int| 0 <= j < erows.len() implies tf.topics.dom().contains(
            (#[trigger] erows[j]).topic_id) by {
            assert(tf.exam_topics.dom().contains(eids[j]));
            assert(t0.topics.dom().contains(erows[j].topic_id));
        }
        lemma_exam_topic_count(t0, tf, e, eids, erows, eid);
        assert(tf.exams[eid] == brow);
        assert(payload == data);
        assert(updated_exam(t0, tf, eid, data, e)) by {
            assert(exam_topics_replaced(t0.exam_topics, tf.exam_topics, eids,
                exam_topic_rows_of(data.topics@, eid), eid));
        }
    }
    match commit_raw(conn) {
        Ok(_) => Ok(e),
        Err(e) => {
            rollback_raw(conn);
            Err(e)
        },
    }
}

/// The frame of an exam update: quota rows deleted wholesale, then the new
/// rows inserted.
proof fn lemma_exam_tables_updated(
    t0: Tables, t1: Tables, td: Tables, tf: Tables,
    eid: i64, row: ExamRow,
    eids: Seq<i64>, erows: Seq<ExamTopicRow>,
)
    requires
        t1 == (Tables { exams: t0.exams.insert(eid, row), ..t0 }),
        td == (Tables {
            exam_topics: t0.exam_topics.remove_keys(crate::model::exam_topics_of_exam(t1, eid)),
            ..t1
        }),
        tf == (Tables { exam_topics: tf.exam_topics, ..td }),
        eids.no_duplicates(),
        eids.len() == erows.len(),
        forall|j: int| 0 <= j < eids.len()
            ==> tf.exam_topics.dom().contains(#[trigger] eids[j])
                && tf.exam_topics[eids[j]] == erows[j]
                && t0.topics.dom().contains(erows[j].topic_id),
        forall|oid: i64| #[trigger] td.exam_topics.dom().contains(oid)
            ==> tf.exam_topics.dom().contains(oid) && tf.exam_topics[oid] == td.exam_topics[oid],
        forall|oid: i64| #[trigger] tf.exam_topics.dom().contains(oid)
            ==> td.exam_topics.dom().contains(oid) || eids.contains(oid),
        forall|k: int| 0 <= k < erows.len() ==> (#[trigger] erows[k]).exam_id == eid,
    ensures
        tf.exams == t0.exams.insert(eid, row),
        tf == (Tables { exams: tf.exams, exam_topics: tf.exam_topics, ..t0 }),
        exam_topics_replaced(t0.exam_topics, tf.exam_topics, eids, erows, eid),
        forall|oid: i64| #[trigger] tf.exam_topics.dom().contains(oid)
            ==> (tf.exam_topics[oid].exam_id == eid
                    && t0.topics.dom().contains(tf.exam_topics[oid].topic_id))
                || (t0.exam_topics.dom().contains(oid) && tf.exam_topics[oid] == t0.exam_topics[oid]),
{
    assert forall|oid: i64| #[trigger] td.exam_topics.dom().contains(oid)
        implies t0.exam_topics.dom().contains(oid) && td.exam_topics[oid] == t0.exam_topics[oid]
            && td.exam_topics[oid].exam_id != eid by {
        assert(!crate::model::exam_topics_of_exam(t1, eid).contains(oid));
    }
    assert forall|oid: i64| #[trigger] t0.exam_topics.dom().contains(oid)
            && t0.exam_topics[oid].exam_id != eid
        implies td.exam_topics.dom().contains(oid) by {
        assert(!crate::model::exam_topics_of_exam(t1, eid).contains(oid));
    }
    assert forall|oid: i64| #[trigger] tf.exam_topics.dom().contains(oid)
        implies (tf.exam_topics[oid].exam_id == eid
                && t0.topics.dom().contains(tf.exam_topics[oid].topic_id))
            || (t0.exam_topics.dom().contains(oid) && tf.exam_topics[oid] == t0.exam_topics[oid]) by {
        if !td.exam_topics.dom().contains(oid) {
            let j = choose|j: int| 0 <= j < eids.len() && eids[j] == oid;
            assert(tf.exam_topics[oid] == erows[j]);
        }
    }
}

/// Deletes the exam keyed by `id` and, by cascade, its quota rows and its
/// attempts.  Deleting a missing id is not an error.
pub fn delete_exam(conn: &mut rusqlite::Connection, id: i64) -> (r: Result<(), StoreError>)
    requires
        inv(db(*old(conn))),
    ensures
        inv(db(*final(conn))),
        r is Ok ==> db(*final(conn)).cur == cascade_delete_exam(db(*old(conn)).cur, id),
        r matches Err(e) ==> db(*final(conn)) == db(*old(conn)) && !(e is NotFound),
{
    let ghost t0 = db(*conn).cur;
    if let Err(e) = pragma_foreign_keys_raw(conn) {
        return Err(e);
    }
    let r = delete_exam_raw(conn, id);
    proof {
        if r is Ok {
            crate::lemmas::lemma_cascade_exam_wf(t0, id);
        }
    }
    r
}

/// Appends one immutable exam-attempt record — a single insert, no
/// transaction — and returns its server-assigned id.  The caller-computed
/// percentage (hundredths) is stored verbatim; nothing is recomputed.
pub fn save_exam_attempt(conn: &mut rusqlite::Connection, data: &SaveExamAttemptData) -> (r: Result<i64, StoreError>)
    requires
        inv(db(*old(conn))),
    ensures
        inv(db(*final(conn))),
        r matches Ok(id) ==> !db(*old(conn)).cur.exam_attempts.dom().contains(id)
            && db(*old(conn)).cur.exams.dom().contains(data.exam_id)
            && db(*final(conn)).cur == (Tables {
                exam_attempts: db(*old(conn)).cur.exam_attempts.insert(id, data.row()),
                ..db(*old(conn)).cur
            }),
        r matches Err(e) ==> db(*final(conn)) == db(*old(conn)) && !(e is NotFound),
{
    insert_exam_attempt_raw(conn, data)
}

/// A sequence that restates every stored exam attempt whose joins resolve,
/// each classified as passed at read time.
pub open spec fn lists_exam_attempt_details(t: Tables, v: Seq<ExamAttemptWithDetails>) -> bool {
    &&& forall|i: int| 0 <= i < v.len() ==> (#[trigger] v[i]).ok_in(t)
    &&& forall|i: int, j: int| 0 <= i < j < v.len() ==> v[i].id != v[j].id
    &&& forall|id: i64| #[trigger] t.exam_attempts.dom().contains(id)
            && t.exams.dom().contains(t.exam_attempts[id].exam_id)
            && t.subjects.dom().contains(t.exams[t.exam_attempts[id].exam_id].subject_id)
            ==> exists|i: int| 0 <= i < v.len() && v[i].id == id
}

/// Every stored exam attempt (all of whose joins resolve, which the
/// invariant guarantees), joined with its exam and subject names and
/// classified as passed at read time: the stored percentage meets or
/// exceeds the owning exam's passing score.
pub fn get_all_exam_attempts(conn: &rusqlite::Connection) -> (r: Result<Vec<ExamAttemptWithDetails>, StoreError>)
    ensures
        r matches Ok(v) ==> lists_exam_attempt_details(db(*conn).cur, v@),
        r matches Err(e) ==> !(e is NotFound),
{
    let ghost t = db(*conn).cur;
    let recs = match select_exam_attempt_records_raw(conn) {
        Ok(recs) => recs,
        Err(e) => return Err(e),
    };
    let mut out: Vec<ExamAttemptWithDetails> = Vec::new();
    let mut i: usize = 0;
    while i < recs.len()
        invariant
            t == db(*conn).cur,
            i <= recs@.len(),
            out@.len() == i,
            lists_exam_attempt_records(t, recs@),
            forall|k: int| 0 <= k < i ==> (#[trigger] out@[k]).ok_in(t) && out@[k].id == recs@[k].id,
        decreases recs@.len() - i,
    {
        let rec = &recs[i];
        let passed = rec.percentage >= (rec.passing_score_percent as i64) * 100;
        out.push(ExamAttemptWithDetails {
            id: rec.id,
            exam_id: rec.exam_id,
            exam_name: rec.exam_name.clone(),
            subject_name: rec.subject_name.clone(),
            started_at: rec.started_at.clone(),
            completed_at: rec.completed_at.clone(),
            score: rec.score,
            max_score: rec.max_score,
            percentage: rec.percentage,
            time_taken_seconds: rec.time_taken_seconds,
            passed: passed,
        });
        i += 1;
    }
    proof {
        assert forall|id: i64| #[trigger] t.exam_attempts.dom().contains(id)
                && t.exams.dom().contains(t.exam_attempts[id].exam_id)
                && t.subjects.dom().contains(t.exams[t.exam_attempts[id].exam_id].subject_id)
            implies exists|k: int| 0 <= k < out@.len() && out@[k].id == id by {
            assert(exists|k: int| 0 <= k < recs@.len() && recs@[k].id == id);
            let k = choose|k: int| 0 <= k < recs@.len() && recs@[k].id == id;
            assert(out@[k].id == id);
        }
        assert forall|i2: int, j2: int| 0 <= i2 < j2 < out@.len()
            implies out@[i2].id != out@[j2].id by {
            assert(recs@[i2].id != recs@[j2].id);
        }
        assert(lists_exam_attempt_details(t, out@));
    }
    Ok(out)
}

} // verus!
