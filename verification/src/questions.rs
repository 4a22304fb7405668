//! Question aggregates: a base row plus exactly one authoritative
//! variant-row set, selected by the type tag, written and re-read as one
//! atomic unit.

use vstd::prelude::*;
use crate::error::StoreError;
use crate::model::{
    Db, Tables, inv, wf, cascade_delete_question,
    QuestionRow, OptionRow, BlankRow, OrderItemRow, MatchRow,
};
use crate::types::{
    Question, QuestionOption, QuestionBlank, QuestionOrderItem, QuestionMatch,
    QuestionWithDetails, CreateQuestionData, UpdateQuestionData, CreateNumericData,
    CreateQuestionOption, CreateQuestionBlank, CreateOrderItem, CreateMatchPair,
};
use crate::assemble::{decompose_variants, synthetic_blank_row, QuestionRows};
use crate::store::{
    db, lists_questions, lists_options, lists_blanks, lists_order_items, lists_matches,
    begin_raw, commit_raw, rollback_raw, pragma_foreign_keys_raw,
    insert_question_raw, update_question_raw, delete_question_raw,
    insert_option_raw, insert_blank_raw, insert_order_item_raw, insert_match_raw,
    delete_options_for_raw, delete_blanks_for_raw, delete_order_items_for_raw,
    delete_matches_for_raw,
    select_question_raw, select_questions_raw,
    select_options_raw, select_blanks_raw, select_order_items_raw, select_matches_raw,
};

verus! {

/// The aggregate restates the stored base row and, for each variant table,
/// exactly the question's rows in their load-bearing order.
pub open spec fn question_details_ok(t: Tables, q: QuestionWithDetails) -> bool {
    &&& q.question.in_table(t)
    &&& lists_options(t, q.question.id, q.options@)
    &&& lists_blanks(t, q.question.id, q.blanks@)
    &&& lists_order_items(t, q.question.id, q.order_items@)
    &&& lists_matches(t, q.question.id, q.matches@)
}

/// A sequence that restates every question aggregate under one topic.
pub open spec fn lists_question_details(t: Tables, topic_id: i64, v: Seq<QuestionWithDetails>) -> bool {
    &&& forall|i: int| 0 <= i < v.len()
            ==> question_details_ok(t, #[trigger] v[i]) && v[i].question.topic_id == topic_id
    &&& forall|i: int, j: int| 0 <= i < j < v.len() ==> v[i].question.id != v[j].question.id
    &&& forall|id: i64| #[trigger] t.questions.dom().contains(id) && t.questions[id].topic_id == topic_id
            ==> exists|i: int| 0 <= i < v.len() && v[i].question.id == id
}

/// Reads one question aggregate: the base row and its four variant sets.
fn read_question_details(conn: &rusqlite::Connection, id: i64) -> (r: Result<QuestionWithDetails, StoreError>)
    ensures
        r matches Ok(q) ==> q.question.id == id && question_details_ok(db(*conn).cur, q),
        r matches Err(e) ==> (e is NotFound ==> !db(*conn).cur.questions.dom().contains(id)),
{
    let question = match select_question_raw(conn, id) {
        Ok(q) => q,
        Err(e) => return Err(e),
    };
    let options = match select_options_raw(conn, id) {
        Ok(v) => v,
        Err(e) => return Err(e),
    };
    let blanks = match select_blanks_raw(conn, id) {
        Ok(v) => v,
        Err(e) => return Err(e),
    };
    let order_items = match select_order_items_raw(conn, id) {
        Ok(v) => v,
        Err(e) => return Err(e),
    };
    let matches = match select_matches_raw(conn, id) {
        Ok(v) => v,
        Err(e) => return Err(e),
    };
    Ok(QuestionWithDetails { question, options, blanks, order_items, matches })
}

/// The stored question aggregate keyed by `id`, its variant rows in their
/// load-bearing order; `NotFound` exactly when no base row has the id.
pub fn get_question(conn: &rusqlite::Connection, id: i64) -> (r: Result<QuestionWithDetails, StoreError>)
    ensures
        r matches Ok(q) ==> q.question.id == id && question_details_ok(db(*conn).cur, q),
        r matches Err(e) ==> (e is NotFound ==> !db(*conn).cur.questions.dom().contains(id)),
{
    read_question_details(conn, id)
}

/// Every question aggregate under one topic, once each; an empty topic
/// yields an empty list, never an error.
pub fn get_questions(conn: &rusqlite::Connection, topic_id: i64) -> (r: Result<Vec<QuestionWithDetails>, StoreError>)
    ensures
        r matches Ok(v) ==> lists_question_details(db(*conn).cur, topic_id, v@),
        r matches Err(e) ==> !(e is NotFound),
{
    let ghost t = db(*conn).cur;
    let bases = match select_questions_raw(conn, topic_id) {
        Ok(v) => v,
        Err(e) => return Err(e),
    };
    let mut out: Vec<QuestionWithDetails> = Vec::new();
    let mut i: usize = 0;
    while i < bases.len()
        invariant
            t == db(*conn).cur,
            i <= bases@.len(),
            out@.len() == i,
            lists_questions(t, topic_id, bases@),
            forall|k: int| 0 <= k < i ==> question_details_ok(t, #[trigger] out@[k])
                && out@[k].question.topic_id == topic_id
                && out@[k].question.id == bases@[k].id,
        decreases bases@.len() - i,
    {
        let id = bases[i].id;
        let q = match read_question_details(conn, id) {
            Ok(q) => q,
            Err(e) => {
                proof {
                    assert(bases@[i as int].in_table(t));
                    assert(db(*conn).cur.questions.dom().contains(id));
                }
                return Err(e);
            },
        };
        proof {
            assert(bases@[i as int].in_table(t));
            assert(t.questions[id] == bases@[i as int].row());
            assert(q.question.in_table(t));
            assert(q.question.row() == t.questions[id]);
            assert(q.question.topic_id == topic_id);
        }
        out.push(q);
        i += 1;
    }
    proof {
        assert forall|id: i64| #[trigger] t.questions.dom().contains(id)
                && t.questions[id].topic_id == topic_id
            implies exists|k: int| 0 <= k < out@.len() && out@[k].question.id == id by {
            assert(exists|k: int| 0 <= k < bases@.len() && bases@[k].id == id);
            let k = choose|k: int| 0 <= k < bases@.len() && bases@[k].id == id;
            assert(out@[k].question.id == id);
        }
    }
    Ok(out)
}

/// One variant table after a replace-all write: every old row of another
/// question is kept unchanged, the old rows of `qid` are gone, and the rows
/// owned by `qid` are exactly `rows`, one per rowid of `ids`, in payload
/// order.
pub open spec fn rows_replaced<R>(
    m0: Map<i64, R>,
    m1: Map<i64, R>,
    ids: Seq<i64>,
    rows: Seq<R>,
    qid: i64,
    owner: spec_fn(R) -> i64,
) -> bool {
    &&& ids.no_duplicates()
    &&& ids.len() == rows.len()
    &&& forall|k: int| 0 <= k < ids.len()
            ==> m1.dom().contains(#[trigger] ids[k]) && m1[ids[k]] == rows[k]
    &&& forall|k: int| 0 <= k < rows.len() ==> owner(#[trigger] rows[k]) == qid
    &&& forall|oid: i64| #[trigger] m1.dom().contains(oid)
            ==> ids.contains(oid)
                || (m0.dom().contains(oid) && m1[oid] == m0[oid] && owner(m0[oid]) != qid)
    &&& forall|oid: i64| #[trigger] m0.dom().contains(oid) && owner(m0[oid]) != qid
            ==> m1.dom().contains(oid)
}

pub open spec fn options_replaced(m0: Map<i64, OptionRow>, m1: Map<i64, OptionRow>, ids: Seq<i64>, rows: Seq<OptionRow>, qid: i64) -> bool {
    rows_replaced(m0, m1, ids, rows, qid, |r: OptionRow| r.question_id)
}

pub open spec fn blanks_replaced(m0: Map<i64, BlankRow>, m1: Map<i64, BlankRow>, ids: Seq<i64>, rows: Seq<BlankRow>, qid: i64) -> bool {
    rows_replaced(m0, m1, ids, rows, qid, |r: BlankRow| r.question_id)
}

pub open spec fn order_items_replaced(m0: Map<i64, OrderItemRow>, m1: Map<i64, OrderItemRow>, ids: Seq<i64>, rows: Seq<OrderItemRow>, qid: i64) -> bool {
    rows_replaced(m0, m1, ids, rows, qid, |r: OrderItemRow| r.question_id)
}

pub open spec fn matches_replaced(m0: Map<i64, MatchRow>, m1: Map<i64, MatchRow>, ids: Seq<i64>, rows: Seq<MatchRow>, qid: i64) -> bool {
    rows_replaced(m0, m1, ids, rows, qid, |r: MatchRow| r.question_id)
}

/// The option rows a payload stands for, in payload order.
pub open spec fn opt_rows_of(items: Seq<CreateQuestionOption>, qid: i64) -> Seq<OptionRow> {
    Seq::new(items.len(), |k: int| items[k].row(qid))
}

/// The blank rows a payload stands for: the explicit blanks followed, when a
/// standalone numeric answer is present, by its synthetic blank.
pub open spec fn blank_rows_of(
    items: Seq<CreateQuestionBlank>,
    numeric: Option<CreateNumericData>,
    qid: i64,
) -> Seq<BlankRow> {
    Seq::new(items.len(), |k: int| items[k].row(qid)) + (match numeric {
        Option::Some(nd) => seq![synthetic_blank_row(nd, qid)],
        Option::None => Seq::<BlankRow>::empty(),
    })
}

pub open spec fn order_rows_of(items: Seq<CreateOrderItem>, qid: i64) -> Seq<OrderItemRow> {
    Seq::new(items.len(), |k: int| items[k].row(qid))
}

/// The match rows a payload stands for: display order is payload position.
pub open spec fn match_rows_of(items: Seq<CreateMatchPair>, qid: i64) -> Seq<MatchRow> {
    Seq::new(items.len(), |k: int| items[k].row(qid, k as i32))
}

pub open spec fn seq_or_empty<T>(o: Option<Vec<T>>) -> Seq<T> {
    match o {
        Option::Some(v) => v@,
        Option::None => Seq::<T>::empty(),
    }
}

/// What a successful create left behind: the base row under a fresh id whose
/// parents existed, each variant table extended by exactly the payload's
/// rows for that id, every other row untouched, and the returned aggregate
/// the stored rows as re-read.
pub open spec fn created_question(
    t0: Tables,
    t1: Tables,
    data: CreateQuestionData,
    q: QuestionWithDetails,
) -> bool {
    let qid = q.question.id;
    &&& !t0.questions.dom().contains(qid)
    &&& t0.subjects.dom().contains(data.subject_id)
    &&& t0.topics.dom().contains(data.topic_id)
    &&& q.question.row() == data.base_row()
    &&& t1.questions == t0.questions.insert(qid, data.base_row())
    &&& t1 == (Tables {
        questions: t1.questions,
        options: t1.options,
        blanks: t1.blanks,
        order_items: t1.order_items,
        matches: t1.matches,
        ..t0
    })
    &&& exists|ids: Seq<i64>| #[trigger] options_replaced(t0.options, t1.options, ids,
            opt_rows_of(data.options@, qid), qid)
    &&& exists|ids: Seq<i64>| #[trigger] blanks_replaced(t0.blanks, t1.blanks, ids,
            blank_rows_of(data.blanks@, data.numeric_data, qid), qid)
    &&& exists|ids: Seq<i64>| #[trigger] order_items_replaced(t0.order_items, t1.order_items, ids,
            order_rows_of(seq_or_empty(data.order_items), qid), qid)
    &&& exists|ids: Seq<i64>| #[trigger] matches_replaced(t0.matches, t1.matches, ids,
            match_rows_of(seq_or_empty(data.match_pairs), qid), qid)
    &&& question_details_ok(t1, q)
    &&& q.options@.len() == data.options@.len()
    &&& q.blanks@.len() == data.blanks@.len() + (if data.numeric_data is Some { 1int } else { 0int })
    &&& q.order_items@.len() == seq_or_empty(data.order_items).len()
    &&& q.matches@.len() == seq_or_empty(data.match_pairs).len()
}

/// After a question write, every table still satisfies referential
/// integrity: the base row's parents exist, and each variant row either
/// belongs to the written question or is an untouched old row.
proof fn lemma_question_written_wf(t0: Tables, t1: Tables, qid: i64, row: QuestionRow)
    requires
        wf(t0),
        t0.subjects.dom().contains(row.subject_id),
        t0.topics.dom().contains(row.topic_id),
        t1.questions == t0.questions.insert(qid, row),
        t1 == (Tables {
            questions: t1.questions,
            options: t1.options,
            blanks: t1.blanks,
            order_items: t1.order_items,
            matches: t1.matches,
            ..t0
        }),
        forall|oid: i64| #[trigger] t1.options.dom().contains(oid)
            ==> t1.options[oid].question_id == qid
                || (t0.options.dom().contains(oid) && t1.options[oid] == t0.options[oid]),
        forall|oid: i64| #[trigger] t1.blanks.dom().contains(oid)
            ==> t1.blanks[oid].question_id == qid
                || (t0.blanks.dom().contains(oid) && t1.blanks[oid] == t0.blanks[oid]),
        forall|oid: i64| #[trigger] t1.order_items.dom().contains(oid)
            ==> t1.order_items[oid].question_id == qid
                || (t0.order_items.dom().contains(oid) && t1.order_items[oid] == t0.order_items[oid]),
        forall|oid: i64| #[trigger] t1.matches.dom().contains(oid)
            ==> t1.matches[oid].question_id == qid
                || (t0.matches.dom().contains(oid) && t1.matches[oid] == t0.matches[oid]),
    ensures
        wf(t1),
{
    assert forall|id: i64| #[trigger] t1.questions.dom().contains(id)
        implies t1.subjects.dom().contains(t1.questions[id].subject_id)
            && t1.topics.dom().contains(t1.questions[id].topic_id) by {
        if id != qid {
            assert(t0.questions.dom().contains(id));
        }
    }
    assert forall|id: i64| #[trigger] t1.options.dom().contains(id)
        implies t1.questions.dom().contains(t1.options[id].question_id) by {
        if t1.options[id].question_id != qid {
            assert(t0.questions.dom().contains(t0.options[id].question_id));
        }
    }
    assert forall|id: i64| #[trigger] t1.blanks.dom().contains(id)
        implies t1.questions.dom().contains(t1.blanks[id].question_id) by {
        if t1.blanks[id].question_id != qid {
            assert(t0.questions.dom().contains(t0.blanks[id].question_id));
        }
    }
    assert forall|id: i64| #[trigger] t1.order_items.dom().contains(id)
        implies t1.questions.dom().contains(t1.order_items[id].question_id) by {
        if t1.order_items[id].question_id != qid {
            assert(t0.questions.dom().contains(t0.order_items[id].question_id));
        }
    }
    assert forall|id: i64| #[trigger] t1.matches.dom().contains(id)
        implies t1.questions.dom().contains(t1.matches[id].question_id) by {
        if t1.matches[id].question_id != qid {
            assert(t0.questions.dom().contains(t0.matches[id].question_id));
        }
    }
    assert forall|id: i64| #[trigger] t1.quizzes.dom().contains(id)
        implies t1.topics.dom().contains(t1.quizzes[id].topic_id) by {
        assert(t0.quizzes.dom().contains(id));
    }
    assert forall|id: i64| #[trigger] t1.exam_topics.dom().contains(id)
        implies t1.exams.dom().contains(t1.exam_topics[id].exam_id)
            && t1.topics.dom().contains(t1.exam_topics[id].topic_id) by {
        assert(t0.exam_topics.dom().contains(id));
    }
}

pub proof fn lemma_push_contains(s: Seq<i64>, x: i64, y: i64)
    requires
        s.contains(y) || x == y,
    ensures
        s.push(x).contains(y),
{
    if s.contains(y) {
        let j = choose|j: int| 0 <= j < s.len() && s[j] == y;
        assert(s.push(x)[j] == y);
    } else {
        assert(s.push(x)[s.len() as int] == y);
    }
}

pub proof fn lemma_push_no_dup(s: Seq<i64>, x: i64)
    requires
        s.no_duplicates(),
        !s.contains(x),
    ensures
        s.push(x).no_duplicates(),
{
    assert forall|i: int, j: int|
        0 <= i < s.push(x).len() && 0 <= j < s.push(x).len() && i != j
        implies s.push(x)[i] != s.push(x)[j] by {
        if i < s.len() && j < s.len() {
            assert(s.push(x)[i] == s[i] && s.push(x)[j] == s[j]);
        } else if i == s.len() {
            assert(s.push(x)[j] == s[j]);
            if s[j] == x {
                assert(s.contains(x));
            }
        } else {
            assert(s.push(x)[i] == s[i]);
            if s[i] == x {
                assert(s.contains(x));
            }
        }
    }
}

/// Two duplicate-free id sequences that contain each other's elements have
/// the same length.
pub proof fn lemma_distinct_cover_len(a: Seq<i64>, b: Seq<i64>)
    requires
        a.no_duplicates(),
        b.no_duplicates(),
        forall|i: int| 0 <= i < a.len() ==> b.contains(#[trigger] a[i]),
        forall|i: int| 0 <= i < b.len() ==> a.contains(#[trigger] b[i]),
    ensures
        a.len() == b.len(),
{
    assert(a.to_set() =~= b.to_set());
    a.unique_seq_to_set();
    b.unique_seq_to_set();
}

/// Writes one question aggregate inside one atomic unit: the base row, then
/// the variant rows in the fixed order options, blanks (the synthetic
/// numeric blank last), order items, match pairs; then re-reads the
/// aggregate and commits.  On any failure the whole unit rolls back and the
/// store is exactly as before.
#[verifier::loop_isolation(false)]
#[verifier::rlimit(100)]
pub fn create_question(conn: &mut rusqlite::Connection, data: CreateQuestionData) -> (r: Result<QuestionWithDetails, StoreError>)
    requires
        inv(db(*old(conn))),
        data.match_pairs matches Some(v) ==> v@.len() <= 0x7fff_ffff,
    ensures
        inv(db(*final(conn))),
        r matches Ok(q) ==> created_question(db(*old(conn)).cur, db(*final(conn)).cur, data, q),
        r matches Err(e) ==> db(*final(conn)) == db(*old(conn)) && !(e is NotFound),
{
    let ghost payload = data;
    let ghost t0 = db(*conn).cur;
    if let Err(e) = begin_raw(conn) {
        return Err(e);
    }
    let qid = match insert_question_raw(conn, &data) {
        Ok(id) => id,
        Err(e) => {
            rollback_raw(conn);
            return Err(e);
        },
    };
    let ghost t1 = db(*conn).cur;
    let CreateQuestionData { options, blanks, numeric_data, order_items, match_pairs, .. } = data;
    let rows = decompose_variants(options, blanks, numeric_data, order_items, match_pairs);
    let ghost orows = opt_rows_of(payload.options@, qid);
    let ghost brows = blank_rows_of(payload.blanks@, payload.numeric_data, qid);
    let ghost irows = order_rows_of(seq_or_empty(payload.order_items), qid);
    let ghost mrows = match_rows_of(seq_or_empty(payload.match_pairs), qid);
    proof {
        assert forall|k: int| 0 <= k < rows.blanks@.len() implies (#[trigger] rows.blanks@[k]).row(
            qid) == brows[k] by {}
    }

    // options
    let ghost mut oids: Seq<i64> = Seq::empty();
    let mut k: usize = 0;
    while k < rows.options.len()
        invariant
            oids.len() == k,
            k <= rows.options@.len(),
            oids.no_duplicates(),
            db(*conn) == (Db {
                cur: Tables { options: db(*conn).cur.options, ..t1 },
                base: t0,
                in_tx: true,
                fk_on: true,
            }),
            forall|j: int| 0 <= j < k
                ==> db(*conn).cur.options.dom().contains(#[trigger] oids[j])
                    && db(*conn).cur.options[oids[j]] == orows[j],
            forall|oid: i64| #[trigger] t1.options.dom().contains(oid)
                ==> db(*conn).cur.options.dom().contains(oid)
                    && db(*conn).cur.options[oid] == t1.options[oid],
            forall|oid: i64| #[trigger] db(*conn).cur.options.dom().contains(oid)
                ==> t1.options.dom().contains(oid) || oids.contains(oid),
        decreases rows.options@.len() - k,
    {
        let id = match insert_option_raw(conn, qid, &rows.options[k]) {
            Ok(id) => id,
            Err(e) => {
                rollback_raw(conn);
                return Err(e);
            },
        };
        proof {
            assert(!oids.contains(id)) by {
                if oids.contains(id) {
                    let j = choose|j: int| 0 <= j < oids.len() && oids[j] == id;
                }
            }
            let ids0 = oids;
            lemma_push_no_dup(ids0, id);
            oids = ids0.push(id);
            assert forall|oid: i64| #[trigger] db(*conn).cur.options.dom().contains(oid)
                implies t1.options.dom().contains(oid) || oids.contains(oid) by {
                if oid == id {
                    lemma_push_contains(ids0, id, oid);
                } else if !t1.options.dom().contains(oid) {
                    assert(ids0.contains(oid));
                    lemma_push_contains(ids0, id, oid);
                }
            }
        }
        k += 1;
    }

    // blanks
    let ghost t2 = db(*conn).cur;
    let ghost mut bids: Seq<i64> = Seq::empty();
    let mut k: usize = 0;
    while k < rows.blanks.len()
        invariant
            bids.len() == k,
            k <= rows.blanks@.len(),
            bids.no_duplicates(),
            db(*conn) == (Db {
                cur: Tables { blanks: db(*conn).cur.blanks, ..t2 },
                base: t0,
                in_tx: true,
                fk_on: true,
            }),
            forall|j: int| 0 <= j < k
                ==> db(*conn).cur.blanks.dom().contains(#[trigger] bids[j])
                    && db(*conn).cur.blanks[bids[j]] == brows[j],
            forall|oid: i64| #[trigger] t2.blanks.dom().contains(oid)
                ==> db(*conn).cur.blanks.dom().contains(oid)
                    && db(*conn).cur.blanks[oid] == t2.blanks[oid],
            forall|oid: i64| #[trigger] db(*conn).cur.blanks.dom().contains(oid)
                ==> t2.blanks.dom().contains(oid) || bids.contains(oid),
        decreases rows.blanks@.len() - k,
    {
        let id = match insert_blank_raw(conn, qid, &rows.blanks[k]) {
            Ok(id) => id,
            Err(e) => {
                rollback_raw(conn);
                return Err(e);
            },
        };
        proof {
            assert(!bids.contains(id)) by {
                if bids.contains(id) {
                    let j = choose|j: int| 0 <= j < bids.len() && bids[j] == id;
                }
            }
            let ids0 = bids;
            lemma_push_no_dup(ids0, id);
            bids = ids0.push(id);
            assert forall|oid: i64| #[trigger] db(*conn).cur.blanks.dom().contains(oid)
                implies t2.blanks.dom().contains(oid) || bids.contains(oid) by {
                if oid == id {
                    lemma_push_contains(ids0, id, oid);
                } else if !t2.blanks.dom().contains(oid) {
                    assert(ids0.contains(oid));
                    lemma_push_contains(ids0, id, oid);
                }
            }
        }
        k += 1;
    }

    // order items
    let ghost t3 = db(*conn).cur;
    let ghost mut iids: Seq<i64> = Seq::empty();
    let mut k: usize = 0;
    while k < rows.order_items.len()
        invariant
            iids.len() == k,
            k <= rows.order_items@.len(),
            iids.no_duplicates(),
            db(*conn) == (Db {
                cur: Tables { order_items: db(*conn).cur.order_items, ..t3 },
                base: t0,
                in_tx: true,
                fk_on: true,
            }),
            forall|j: int| 0 <= j < k
                ==> db(*conn).cur.order_items.dom().contains(#[trigger] iids[j])
                    && db(*conn).cur.order_items[iids[j]] == irows[j],
            forall|oid: i64| #[trigger] t3.order_items.dom().contains(oid)
                ==> db(*conn).cur.order_items.dom().contains(oid)
                    && db(*conn).cur.order_items[oid] == t3.order_items[oid],
            forall|oid: i64| #[trigger] db(*conn).cur.order_items.dom().contains(oid)
                ==> t3.order_items.dom().contains(oid) || iids.contains(oid),
        decreases rows.order_items@.len() - k,
    {
        let id = match insert_order_item_raw(conn, qid, &rows.order_items[k]) {
            Ok(id) => id,
            Err(e) => {
                rollback_raw(conn);
                return Err(e);
            },
        };
        proof {
            assert(!iids.contains(id)) by {
                if iids.contains(id) {
                    let j = choose|j: int| 0 <= j < iids.len() && iids[j] == id;
                }
            }
            let ids0 = iids;
            lemma_push_no_dup(ids0, id);
            iids = ids0.push(id);
            assert forall|oid: i64| #[trigger] db(*conn).cur.order_items.dom().contains(oid)
                implies t3.order_items.dom().contains(oid) || iids.contains(oid) by {
                if oid == id {
                    lemma_push_contains(ids0, id, oid);
                } else if !t3.order_items.dom().contains(oid) {
                    assert(ids0.contains(oid));
                    lemma_push_contains(ids0, id, oid);
                }
            }
        }
        k += 1;
    }

    // match pairs
    let ghost t4 = db(*conn).cur;
    let ghost mut mids: Seq<i64> = Seq::empty();
    let mut k: usize = 0;
    while k < rows.match_pairs.len()
        invariant
            mids.len() == k,
            k <= rows.match_pairs@.len(),
            mids.no_duplicates(),
            db(*conn) == (Db {
                cur: Tables { matches: db(*conn).cur.matches, ..t4 },
                base: t0,
                in_tx: true,
                fk_on: true,
            }),
            forall|j: int| 0 <= j < k
                ==> db(*conn).cur.matches.dom().contains(#[trigger] mids[j])
                    && db(*conn).cur.matches[mids[j]] == mrows[j],
            forall|oid: i64| #[trigger] t4.matches.dom().contains(oid)
                ==> db(*conn).cur.matches.dom().contains(oid)
                    && db(*conn).cur.matches[oid] == t4.matches[oid],
            forall|oid: i64| #[trigger] db(*conn).cur.matches.dom().contains(oid)
                ==> t4.matches.dom().contains(oid) || mids.contains(oid),
        decreases rows.match_pairs@.len() - k,
    {
        let id = match insert_match_raw(conn, qid, &rows.match_pairs[k], k as i32) {
            Ok(id) => id,
            Err(e) => {
                rollback_raw(conn);
                return Err(e);
            },
        };
        proof {
            assert(!mids.contains(id)) by {
                if mids.contains(id) {
                    let j = choose|j: int| 0 <= j < mids.len() && mids[j] == id;
                }
            }
            let ids0 = mids;
            lemma_push_no_dup(ids0, id);
            mids = ids0.push(id);
            assert forall|oid: i64| #[trigger] db(*conn).cur.matches.dom().contains(oid)
                implies t4.matches.dom().contains(oid) || mids.contains(oid) by {
                if oid == id {
                    lemma_push_contains(ids0, id, oid);
                } else if !t4.matches.dom().contains(oid) {
                    assert(ids0.contains(oid));
                    lemma_push_contains(ids0, id, oid);
                }
            }
        }
        k += 1;
    }

    // re-read the aggregate inside the unit, then commit
    let q = match read_question_details(&*conn, qid) {
        Ok(q) => q,
        Err(e) => {
            proof {
                assert(db(*conn).cur.questions.dom().contains(qid));
            }
            rollback_raw(conn);
            return Err(e);
        },
    };
    let ghost tf = db(*conn).cur;
    proof {
        lemma_variant_tables_final(t0, t1, t2, t3, t4, tf, qid, payload.base_row(), oids, bids,
            iids, mids, orows, brows, irows, mrows);
        lemma_question_written_wf(t0, tf, qid, payload.base_row());
        let vo = Seq::new(q.options@.len(), |i: int| q.options@[i].id);
        assert(vo.no_duplicates()) by {
            assert forall|i: int, j: int| 0 <= i < vo.len() && 0 <= j < vo.len() && i != j
                implies vo[i] != vo[j] by {
                if i < j {
                    assert(q.options@[i].id != q.options@[j].id);
                } else {
                    assert(q.options@[j].id != q.options@[i].id);
                }
            }
        }
        assert forall|i: int| 0 <= i < vo.len() implies tf.options.dom().contains(
            #[trigger] vo[i]) && tf.options[vo[i]].question_id == qid by {
            assert(q.options@[i].in_table(tf));
        }
        assert forall|oid: i64| #[trigger] tf.options.dom().contains(oid)
                && tf.options[oid].question_id == qid implies vo.contains(oid) by {
            let i = choose|i: int| 0 <= i < q.options@.len() && q.options@[i].id == oid;
            assert(vo[i] == oid);
        }
        assert forall|i2: int| 0 <= i2 < vo.len() implies oids.contains(
            #[trigger] vo[i2]) by {
            assert(tf.options.dom().contains(vo[i2]));
        }
        assert forall|k2: int| 0 <= k2 < oids.len() implies vo.contains(
            #[trigger] oids[k2]) by {
            assert(tf.options.dom().contains(oids[k2]) && tf.options[oids[k2]] == orows[k2]);
            assert(orows[k2].question_id == qid);
            let i2 = choose|i2: int| 0 <= i2 < q.options@.len() && q.options@[i2].id == oids[k2];
            assert(vo[i2] == oids[k2]);
        }
        lemma_distinct_cover_len(vo, oids);

        let vb = Seq::new(q.blanks@.len(), |i: int| q.blanks@[i].id);
        assert(vb.no_duplicates()) by {
            assert forall|i: int, j: int| 0 <= i < vb.len() && 0 <= j < vb.len() && i != j
                implies vb[i] != vb[j] by {
                if i < j {
                    assert(q.blanks@[i].id != q.blanks@[j].id);
                } else {
                    assert(q.blanks@[j].id != q.blanks@[i].id);
                }
            }
        }
        assert forall|i: int| 0 <= i < vb.len() implies tf.blanks.dom().contains(
            #[trigger] vb[i]) && tf.blanks[vb[i]].question_id == qid by {
            assert(q.blanks@[i].in_table(tf));
        }
        assert forall|oid: i64| #[trigger] tf.blanks.dom().contains(oid)
                && tf.blanks[oid].question_id == qid implies vb.contains(oid) by {
            let i = choose|i: int| 0 <= i < q.blanks@.len() && q.blanks@[i].id == oid;
            assert(vb[i] == oid);
        }
        assert forall|i2: int| 0 <= i2 < vb.len() implies bids.contains(
            #[trigger] vb[i2]) by {
            assert(tf.blanks.dom().contains(vb[i2]));
        }
        assert forall|k2: int| 0 <= k2 < bids.len() implies vb.contains(
            #[trigger] bids[k2]) by {
            assert(tf.blanks.dom().contains(bids[k2]) && tf.blanks[bids[k2]] == brows[k2]);
            assert(brows[k2].question_id == qid);
            let i2 = choose|i2: int| 0 <= i2 < q.blanks@.len() && q.blanks@[i2].id == bids[k2];
            assert(vb[i2] == bids[k2]);
        }
        lemma_distinct_cover_len(vb, bids);

        let vi = Seq::new(q.order_items@.len(), |i: int| q.order_items@[i].id);
        assert(vi.no_duplicates()) by {
            assert forall|i: int, j: int| 0 <= i < vi.len() && 0 <= j < vi.len() && i != j
                implies vi[i] != vi[j] by {
                if i < j {
                    assert(q.order_items@[i].id != q.order_items@[j].id);
                } else {
                    assert(q.order_items@[j].id != q.order_items@[i].id);
                }
            }
        }
        assert forall|i: int| 0 <= i < vi.len() implies tf.order_items.dom().contains(
            #[trigger] vi[i]) && tf.order_items[vi[i]].question_id == qid by {
            assert(q.order_items@[i].in_table(tf));
        }
        assert forall|oid: i64| #[trigger] tf.order_items.dom().contains(oid)
                && tf.order_items[oid].question_id == qid implies vi.contains(oid) by {
            let i = choose|i: int| 0 <= i < q.order_items@.len() && q.order_items@[i].id == oid;
            assert(vi[i] == oid);
        }
        assert forall|i2: int| 0 <= i2 < vi.len() implies iids.contains(
            #[trigger] vi[i2]) by {
            assert(tf.order_items.dom().contains(vi[i2]));
        }
        assert forall|k2: int| 0 <= k2 < iids.len() implies vi.contains(
            #[trigger] iids[k2]) by {
            assert(tf.order_items.dom().contains(iids[k2]) && tf.order_items[iids[k2]] == irows[k2]);
            assert(irows[k2].question_id == qid);
            let i2 = choose|i2: int| 0 <= i2 < q.order_items@.len() && q.order_items@[i2].id == iids[k2];
            assert(vi[i2] == iids[k2]);
        }
        lemma_distinct_cover_len(vi, iids);

        let vm = Seq::new(q.matches@.len(), |i: int| q.matches@[i].id);
        assert(vm.no_duplicates()) by {
            assert forall|i: int, j: int| 0 <= i < vm.len() && 0 <= j < vm.len() && i != j
                implies vm[i] != vm[j] by {
                if i < j {
                    assert(q.matches@[i].id != q.matches@[j].id);
                } else {
                    assert(q.matches@[j].id != q.matches@[i].id);
                }
            }
        }
        assert forall|i: int| 0 <= i < vm.len() implies tf.matches.dom().contains(
            #[trigger] vm[i]) && tf.matches[vm[i]].question_id == qid by {
            assert(q.matches@[i].in_table(tf));
        }
        assert forall|oid: i64| #[trigger] tf.matches.dom().contains(oid)
                && tf.matches[oid].question_id == qid implies vm.contains(oid) by {
            let i = choose|i: int| 0 <= i < q.matches@.len() && q.matches@[i].id == oid;
            assert(vm[i] == oid);
        }
        assert forall|i2: int| 0 <= i2 < vm.len() implies mids.contains(
            #[trigger] vm[i2]) by {
            assert(tf.matches.dom().contains(vm[i2]));
        }
        assert forall|k2: int| 0 <= k2 < mids.len() implies vm.contains(
            #[trigger] mids[k2]) by {
            assert(tf.matches.dom().contains(mids[k2]) && tf.matches[mids[k2]] == mrows[k2]);
            assert(mrows[k2].question_id == qid);
            let i2 = choose|i2: int| 0 <= i2 < q.matches@.len() && q.matches@[i2].id == mids[k2];
            assert(vm[i2] == mids[k2]);
        }
        lemma_distinct_cover_len(vm, mids);

        assert(q.question.row() == payload.base_row()) by {
            assert(q.question.in_table(tf));
            assert(tf.questions[qid] == payload.base_row());
        }
        assert(payload == data);
        assert(created_question(t0, tf, data, q)) by {
            assert(options_replaced(t0.options, tf.options, oids,
                opt_rows_of(data.options@, qid), qid));
            assert(blanks_replaced(t0.blanks, tf.blanks, bids,
                blank_rows_of(data.blanks@, data.numeric_data, qid), qid));
            assert(order_items_replaced(t0.order_items, tf.order_items, iids,
                order_rows_of(seq_or_empty(data.order_items), qid), qid));
            assert(matches_replaced(t0.matches, tf.matches, mids,
                match_rows_of(seq_or_empty(data.match_pairs), qid), qid));
        }
    }
    match commit_raw(conn) {
        Ok(_) => Ok(q),
        Err(e) => {
            rollback_raw(conn);
            Err(e)
        },
    }
}

/// Chains the per-loop frames of a question write into the final shape of
/// the four variant tables and the base-row table.
proof fn lemma_variant_tables_final(
    t0: Tables, t1: Tables, t2: Tables, t3: Tables, t4: Tables, tf: Tables,
    qid: i64, row: QuestionRow,
    oids: Seq<i64>, bids: Seq<i64>, iids: Seq<i64>, mids: Seq<i64>,
    orows: Seq<OptionRow>, brows: Seq<BlankRow>, irows: Seq<OrderItemRow>, mrows: Seq<MatchRow>,
)
    requires
        wf(t0),
        !t0.questions.dom().contains(qid),
        t1 == (Tables { questions: t0.questions.insert(qid, row), ..t0 }),
        t2 == (Tables { options: t2.options, ..t1 }),
        t3 == (Tables { blanks: t3.blanks, ..t2 }),
        t4 == (Tables { order_items: t4.order_items, ..t3 }),
        tf == (Tables { matches: tf.matches, ..t4 }),
        oids.no_duplicates(),
        oids.len() == orows.len(),
        forall|j: int| 0 <= j < oids.len()
            ==> t2.options.dom().contains(#[trigger] oids[j]) && t2.options[oids[j]] == orows[j],
        forall|oid: i64| #[trigger] t1.options.dom().contains(oid)
            ==> t2.options.dom().contains(oid) && t2.options[oid] == t1.options[oid],
        forall|oid: i64| #[trigger] t2.options.dom().contains(oid)
            ==> t1.options.dom().contains(oid) || oids.contains(oid),
        forall|k: int| 0 <= k < orows.len() ==> (#[trigger] orows[k]).question_id == qid,
        bids.no_duplicates(),
        bids.len() == brows.len(),
        forall|j: int| 0 <= j < bids.len()
            ==> t3.blanks.dom().contains(#[trigger] bids[j]) && t3.blanks[bids[j]] == brows[j],
        forall|oid: i64| #[trigger] t2.blanks.dom().contains(oid)
            ==> t3.blanks.dom().contains(oid) && t3.blanks[oid] == t2.blanks[oid],
        forall|oid: i64| #[trigger] t3.blanks.dom().contains(oid)
            ==> t2.blanks.dom().contains(oid) || bids.contains(oid),
        forall|k: int| 0 <= k < brows.len() ==> (#[trigger] brows[k]).question_id == qid,
        iids.no_duplicates(),
        iids.len() == irows.len(),
        forall|j: int| 0 <= j < iids.len()
            ==> t4.order_items.dom().contains(#[trigger] iids[j]) && t4.order_items[iids[j]] == irows[j],
        forall|oid: i64| #[trigger] t3.order_items.dom().contains(oid)
            ==> t4.order_items.dom().contains(oid) && t4.order_items[oid] == t3.order_items[oid],
        forall|oid: i64| #[trigger] t4.order_items.dom().contains(oid)
            ==> t3.order_items.dom().contains(oid) || iids.contains(oid),
        forall|k: int| 0 <= k < irows.len() ==> (#[trigger] irows[k]).question_id == qid,
        mids.no_duplicates(),
        mids.len() == mrows.len(),
        forall|j: int| 0 <= j < mids.len()
            ==> tf.matches.dom().contains(#[trigger] mids[j]) && tf.matches[mids[j]] == mrows[j],
        forall|oid: i64| #[trigger] t4.matches.dom().contains(oid)
            ==> tf.matches.dom().contains(oid) && tf.matches[oid] == t4.matches[oid],
        forall|oid: i64| #[trigger] tf.matches.dom().contains(oid)
            ==> t4.matches.dom().contains(oid) || mids.contains(oid),
        forall|k: int| 0 <= k < mrows.len() ==> (#[trigger] mrows[k]).question_id == qid,
    ensures
        tf.questions == t0.questions.insert(qid, row),
        tf == (Tables {
            questions: tf.questions,
            options: tf.options,
            blanks: tf.blanks,
            order_items: tf.order_items,
            matches: tf.matches,
            ..t0
        }),
        options_replaced(t0.options, tf.options, oids, orows, qid),
        blanks_replaced(t0.blanks, tf.blanks, bids, brows, qid),
        order_items_replaced(t0.order_items, tf.order_items, iids, irows, qid),
        matches_replaced(t0.matches, tf.matches, mids, mrows, qid),
        forall|oid: i64| #[trigger] tf.options.dom().contains(oid)
            ==> tf.options[oid].question_id == qid
                || (t0.options.dom().contains(oid) && tf.options[oid] == t0.options[oid]),
        forall|oid: i64| #[trigger] tf.blanks.dom().contains(oid)
            ==> tf.blanks[oid].question_id == qid
                || (t0.blanks.dom().contains(oid) && tf.blanks[oid] == t0.blanks[oid]),
        forall|oid: i64| #[trigger] tf.order_items.dom().contains(oid)
            ==> tf.order_items[oid].question_id == qid
                || (t0.order_items.dom().contains(oid) && tf.order_items[oid] == t0.order_items[oid]),
        forall|oid: i64| #[trigger] tf.matches.dom().contains(oid)
            ==> tf.matches[oid].question_id == qid
                || (t0.matches.dom().contains(oid) && tf.matches[oid] == t0.matches[oid]),
        forall|oid: i64| #[trigger] t0.options.dom().contains(oid)
            ==> t0.options[oid].question_id != qid,
        forall|oid: i64| #[trigger] t0.blanks.dom().contains(oid)
            ==> t0.blanks[oid].question_id != qid,
        forall|oid: i64| #[trigger] t0.order_items.dom().contains(oid)
            ==> t0.order_items[oid].question_id != qid,
        forall|oid: i64| #[trigger] t0.matches.dom().contains(oid)
            ==> t0.matches[oid].question_id != qid,
{
    assert(tf.options == t2.options);
    assert(tf.blanks == t3.blanks);
    assert(tf.order_items == t4.order_items);
    assert(t1.options == t0.options);
    assert(t2.blanks == t1.blanks && t1.blanks == t0.blanks);
    assert(t3.order_items == t2.order_items && t2.order_items == t0.order_items);
    assert(t4.matches == t3.matches && t3.matches == t0.matches);
    assert forall|oid: i64| #[trigger] t0.options.dom().contains(oid)
        implies t0.options[oid].question_id != qid by {
        assert(t0.questions.dom().contains(t0.options[oid].question_id));
    }
    assert forall|oid: i64| #[trigger] t0.blanks.dom().contains(oid)
        implies t0.blanks[oid].question_id != qid by {
        assert(t0.questions.dom().contains(t0.blanks[oid].question_id));
    }
    assert forall|oid: i64| #[trigger] t0.order_items.dom().contains(oid)
        implies t0.order_items[oid].question_id != qid by {
        assert(t0.questions.dom().contains(t0.order_items[oid].question_id));
    }
    assert forall|oid: i64| #[trigger] t0.matches.dom().contains(oid)
        implies t0.matches[oid].question_id != qid by {
        assert(t0.questions.dom().contains(t0.matches[oid].question_id));
    }
}

/// A duplicate-free enumeration of one table's rows owned by `qid` has
/// exactly as many entries as the row set written for `qid`.
proof fn lemma_table_count<R>(
    m0: Map<i64, R>,
    m1: Map<i64, R>,
    ids: Seq<i64>,
    rows: Seq<R>,
    qid: i64,
    owner: spec_fn(R) -> i64,
    vids: Seq<i64>,
)
    requires
        rows_replaced(m0, m1, ids, rows, qid, owner),
        forall|oid: i64| #[trigger] m0.dom().contains(oid) ==> owner(m0[oid]) != qid,
        vids.no_duplicates(),
        forall|i: int| 0 <= i < vids.len()
            ==> m1.dom().contains(#[trigger] vids[i]) && owner(m1[vids[i]]) == qid,
        forall|oid: i64| #[trigger] m1.dom().contains(oid) && owner(m1[oid]) == qid
            ==> vids.contains(oid),
    ensures
        vids.len() == rows.len(),
{
    assert forall|i: int| 0 <= i < vids.len() implies ids.contains(#[trigger] vids[i]) by {
        assert(m1.dom().contains(vids[i]));
    }
    assert forall|k: int| 0 <= k < ids.len() implies vids.contains(#[trigger] ids[k]) by {
        assert(m1.dom().contains(ids[k]) && m1[ids[k]] == rows[k]);
        assert(owner(rows[k]) == qid);
    }
    lemma_distinct_cover_len(vids, ids);
}


/// What a successful update left behind: the base row rewritten in place —
/// keeping its parents and its type tag — and every variant table holding,
/// for this question, exactly the new payload's rows: the old variant rows
/// are gone, whatever their number, and rows of other questions are
/// untouched.
pub open spec fn updated_question(
    t0: Tables,
    t1: Tables,
    id: i64,
    data: UpdateQuestionData,
    q: QuestionWithDetails,
) -> bool {
    let b = data.base_row(
        t0.questions[id].subject_id,
        t0.questions[id].topic_id,
        t0.questions[id].question_type,
    );
    &&& t0.questions.dom().contains(id)
    &&& q.question.id == id
    &&& q.question.row() == b
    &&& t1.questions == t0.questions.insert(id, b)
    &&& t1 == (Tables {
        questions: t1.questions,
        options: t1.options,
        blanks: t1.blanks,
        order_items: t1.order_items,
        matches: t1.matches,
        ..t0
    })
    &&& exists|ids: Seq<i64>| #[trigger] options_replaced(t0.options, t1.options, ids,
            opt_rows_of(data.options@, id), id)
    &&& exists|ids: Seq<i64>| #[trigger] blanks_replaced(t0.blanks, t1.blanks, ids,
            blank_rows_of(data.blanks@, data.numeric_data, id), id)
    &&& exists|ids: Seq<i64>| #[trigger] order_items_replaced(t0.order_items, t1.order_items, ids,
            order_rows_of(seq_or_empty(data.order_items), id), id)
    &&& exists|ids: Seq<i64>| #[trigger] matches_replaced(t0.matches, t1.matches, ids,
            match_rows_of(seq_or_empty(data.match_pairs), id), id)
    &&& question_details_ok(t1, q)
    &&& q.options@.len() == data.options@.len()
    &&& q.blanks@.len() == data.blanks@.len() + (if data.numeric_data is Some { 1int } else { 0int })
    &&& q.order_items@.len() == seq_or_empty(data.order_items).len()
    &&& q.matches@.len() == seq_or_empty(data.match_pairs).len()
}

/// Chains the delete-all and per-loop frames of a question update into the
/// final shape of the variant tables.
proof fn lemma_variant_tables_updated(
    t0: Tables, t1: Tables, td: Tables, t2: Tables, t3: Tables, t4: Tables, tf: Tables,
    qid: i64, row: QuestionRow,
    oids: Seq<i64>, bids: Seq<i64>, iids: Seq<i64>, mids: Seq<i64>,
    orows: Seq<OptionRow>, brows: Seq<BlankRow>, irows: Seq<OrderItemRow>, mrows: Seq<MatchRow>,
)
    requires
        t1 == (Tables { questions: t0.questions.insert(qid, row), ..t0 }),
        td == (Tables {
            options: t0.options.remove_keys(crate::model::options_of_questions(t1, set![qid])),
            blanks: t0.blanks.remove_keys(crate::model::blanks_of_questions(t1, set![qid])),
            order_items: t0.order_items.remove_keys(
                crate::model::order_items_of_questions(t1, set![qid])),
            matches: t0.matches.remove_keys(crate::model::matches_of_questions(t1, set![qid])),
            ..t1
        }),
        t2 == (Tables { options: t2.options, ..td }),
        t3 == (Tables { blanks: t3.blanks, ..t2 }),
        t4 == (Tables { order_items: t4.order_items, ..t3 }),
        tf == (Tables { matches: tf.matches, ..t4 }),
        oids.no_duplicates(),
        oids.len() == orows.len(),
        forall|j: int| 0 <= j < oids.len()
            ==> t2.options.dom().contains(#[trigger] oids[j]) && t2.options[oids[j]] == orows[j],
        forall|oid: i64| #[trigger] td.options.dom().contains(oid)
            ==> t2.options.dom().contains(oid) && t2.options[oid] == td.options[oid],
        forall|oid: i64| #[trigger] t2.options.dom().contains(oid)
            ==> td.options.dom().contains(oid) || oids.contains(oid),
        forall|k: int| 0 <= k < orows.len() ==> (#[trigger] orows[k]).question_id == qid,
        bids.no_duplicates(),
        bids.len() == brows.len(),
        forall|j: int| 0 <= j < bids.len()
            ==> t3.blanks.dom().contains(#[trigger] bids[j]) && t3.blanks[bids[j]] == brows[j],
        forall|oid: i64| #[trigger] t2.blanks.dom().contains(oid)
            ==> t3.blanks.dom().contains(oid) && t3.blanks[oid] == t2.blanks[oid],
        forall|oid: i64| #[trigger] t3.blanks.dom().contains(oid)
            ==> t2.blanks.dom().contains(oid) || bids.contains(oid),
        forall|k: int| 0 <= k < brows.len() ==> (#[trigger] brows[k]).question_id == qid,
        iids.no_duplicates(),
        iids.len() == irows.len(),
        forall|j: int| 0 <= j < iids.len()
            ==> t4.order_items.dom().contains(#[trigger] iids[j]) && t4.order_items[iids[j]] == irows[j],
        forall|oid: i64| #[trigger] t3.order_items.dom().contains(oid)
            ==> t4.order_items.dom().contains(oid) && t4.order_items[oid] == t3.order_items[oid],
        forall|oid: i64| #[trigger] t4.order_items.dom().contains(oid)
            ==> t3.order_items.dom().contains(oid) || iids.contains(oid),
        forall|k: int| 0 <= k < irows.len() ==> (#[trigger] irows[k]).question_id == qid,
        mids.no_duplicates(),
        mids.len() == mrows.len(),
        forall|j: int| 0 <= j < mids.len()
            ==> tf.matches.dom().contains(#[trigger] mids[j]) && tf.matches[mids[j]] == mrows[j],
        forall|oid: i64| #[trigger] t4.matches.dom().contains(oid)
            ==> tf.matches.dom().contains(oid) && tf.matches[oid] == t4.matches[oid],
        forall|oid: i64| #[trigger] tf.matches.dom().contains(oid)
            ==> t4.matches.dom().contains(oid) || mids.contains(oid),
        forall|k: int| 0 <= k < mrows.len() ==> (#[trigger] mrows[k]).question_id == qid,
    ensures
        tf.questions == t0.questions.insert(qid, row),
        tf == (Tables {
            questions: tf.questions,
            options: tf.options,
            blanks: tf.blanks,
            order_items: tf.order_items,
            matches: tf.matches,
            ..t0
        }),
        options_replaced(t0.options, tf.options, oids, orows, qid),
        blanks_replaced(t0.blanks, tf.blanks, bids, brows, qid),
        order_items_replaced(t0.order_items, tf.order_items, iids, irows, qid),
        matches_replaced(t0.matches, tf.matches, mids, mrows, qid),
        forall|oid: i64| #[trigger] tf.options.dom().contains(oid)
            ==> tf.options[oid].question_id == qid
                || (t0.options.dom().contains(oid) && tf.options[oid] == t0.options[oid]),
        forall|oid: i64| #[trigger] tf.blanks.dom().contains(oid)
            ==> tf.blanks[oid].question_id == qid
                || (t0.blanks.dom().contains(oid) && tf.blanks[oid] == t0.blanks[oid]),
        forall|oid: i64| #[trigger] tf.order_items.dom().contains(oid)
            ==> tf.order_items[oid].question_id == qid
                || (t0.order_items.dom().contains(oid) && tf.order_items[oid] == t0.order_items[oid]),
        forall|oid: i64| #[trigger] tf.matches.dom().contains(oid)
            ==> tf.matches[oid].question_id == qid
                || (t0.matches.dom().contains(oid) && tf.matches[oid] == t0.matches[oid]),
{
    assert(tf.options == t2.options);
    assert(tf.blanks == t3.blanks);
    assert(tf.order_items == t4.order_items);
    assert(t2.blanks == td.blanks);
    assert(t3.order_items == t2.order_items && t2.order_items == td.order_items);
    assert(t4.matches == t3.matches && t3.matches == t2.matches && t2.matches == td.matches);
    assert forall|oid: i64| #[trigger] td.options.dom().contains(oid)
        implies t0.options.dom().contains(oid) && td.options[oid] == t0.options[oid]
            && td.options[oid].question_id != qid by {
        assert(!crate::model::options_of_questions(t1, set![qid]).contains(oid));
    }
    assert forall|oid: i64| #[trigger] t0.options.dom().contains(oid)
            && t0.options[oid].question_id != qid
        implies td.options.dom().contains(oid) by {
        assert(!crate::model::options_of_questions(t1, set![qid]).contains(oid));
    }
    assert forall|oid: i64| #[trigger] td.blanks.dom().contains(oid)
        implies t0.blanks.dom().contains(oid) && td.blanks[oid] == t0.blanks[oid]
            && td.blanks[oid].question_id != qid by {
        assert(!crate::model::blanks_of_questions(t1, set![qid]).contains(oid));
    }
    assert forall|oid: i64| #[trigger] t0.blanks.dom().contains(oid)
            && t0.blanks[oid].question_id != qid
        implies td.blanks.dom().contains(oid) by {
        assert(!crate::model::blanks_of_questions(t1, set![qid]).contains(oid));
    }
    assert forall|oid: i64| #[trigger] td.order_items.dom().contains(oid)
        implies t0.order_items.dom().contains(oid) && td.order_items[oid] == t0.order_items[oid]
            && td.order_items[oid].question_id != qid by {
        assert(!crate::model::order_items_of_questions(t1, set![qid]).contains(oid));
    }
    assert forall|oid: i64| #[trigger] t0.order_items.dom().contains(oid)
            && t0.order_items[oid].question_id != qid
        implies td.order_items.dom().contains(oid) by {
        assert(!crate::model::order_items_of_questions(t1, set![qid]).contains(oid));
    }
    assert forall|oid: i64| #[trigger] td.matches.dom().contains(oid)
        implies t0.matches.dom().contains(oid) && td.matches[oid] == t0.matches[oid]
            && td.matches[oid].question_id != qid by {
        assert(!crate::model::matches_of_questions(t1, set![qid]).contains(oid));
    }
    assert forall|oid: i64| #[trigger] t0.matches.dom().contains(oid)
            && t0.matches[oid].question_id != qid
        implies td.matches.dom().contains(oid) by {
        assert(!crate::model::matches_of_questions(t1, set![qid]).contains(oid));
    }
}

/// Rewrites one question aggregate inside one atomic unit, with the
/// replace-all-variants protocol: the base row is updated in place, every
/// existing variant row of the question is deleted, the new variant rows are
/// inserted in the fixed order, and the aggregate is re-read before commit.
/// `NotFound` — detected as zero rows affected — and every other failure
/// roll the unit back: the store is then exactly as before.
#[verifier::loop_isolation(false)]
#[verifier::rlimit(100)]
pub fn update_question(conn: &mut rusqlite::Connection, id: i64, data: UpdateQuestionData) -> (r: Result<QuestionWithDetails, StoreError>)
    requires
        inv(db(*old(conn))),
        data.match_pairs matches Some(v) ==> v@.len() <= 0x7fff_ffff,
    ensures
        inv(db(*final(conn))),
        r matches Ok(q) ==> updated_question(db(*old(conn)).cur, db(*final(conn)).cur, id, data, q),
        r matches Err(e) ==> db(*final(conn)) == db(*old(conn))
            && (e is NotFound ==> !db(*old(conn)).cur.questions.dom().contains(id)),
{
    let ghost payload = data;
    let ghost t0 = db(*conn).cur;
    let qid = id;
    if let Err(e) = begin_raw(conn) {
        return Err(e);
    }
    let n = match update_question_raw(conn, qid, &data) {
        Ok(n) => n,
        Err(e) => {
            rollback_raw(conn);
            return Err(e);
        },
    };
    if n == 0 {
        rollback_raw(conn);
        return Err(StoreError::NotFound);
    }
    let ghost brow = payload.base_row(
        t0.questions[qid].subject_id,
        t0.questions[qid].topic_id,
        t0.questions[qid].question_type,
    );
    let ghost t1 = db(*conn).cur;
    if let Err(e) = delete_options_for_raw(conn, qid) {
        rollback_raw(conn);
        return Err(e);
    }
    if let Err(e) = delete_blanks_for_raw(conn, qid) {
        rollback_raw(conn);
        return Err(e);
    }
    if let Err(e) = delete_order_items_for_raw(conn, qid) {
        rollback_raw(conn);
        return Err(e);
    }
    if let Err(e) = delete_matches_for_raw(conn, qid) {
        rollback_raw(conn);
        return Err(e);
    }
    let ghost td = db(*conn).cur;
    let UpdateQuestionData { options, blanks, numeric_data, order_items, match_pairs, .. } = data;
    let rows = decompose_variants(options, blanks, numeric_data, order_items, match_pairs);
    let ghost orows = opt_rows_of(payload.options@, qid);
    let ghost brows = blank_rows_of(payload.blanks@, payload.numeric_data, qid);
    let ghost irows = order_rows_of(seq_or_empty(payload.order_items), qid);
    let ghost mrows = match_rows_of(seq_or_empty(payload.match_pairs), qid);
    proof {
        assert forall|k: int| 0 <= k < rows.blanks@.len() implies (#[trigger] rows.blanks@[k]).row(
            qid) == brows[k] by {}
    }

    // options
    let ghost mut oids: Seq<i64> = Seq::empty();
    let mut k: usize = 0;
    while k < rows.options.len()
        invariant
            oids.len() == k,
            k <= rows.options@.len(),
            oids.no_duplicates(),
            db(*conn) == (Db {
                cur: Tables { options: db(*conn).cur.options, ..td },
                base: t0,
                in_tx: true,
                fk_on: true,
            }),
            forall|j: int| 0 <= j < k
                ==> db(*conn).cur.options.dom().contains(#[trigger] oids[j])
                    && db(*conn).cur.options[oids[j]] == orows[j],
            forall|oid: i64| #[trigger] td.options.dom().contains(oid)
                ==> db(*conn).cur.options.dom().contains(oid)
                    && db(*conn).cur.options[oid] == td.options[oid],
            forall|oid: i64| #[trigger] db(*conn).cur.options.dom().contains(oid)
                ==> td.options.dom().contains(oid) || oids.contains(oid),
        decreases rows.options@.len() - k,
    {
        let oid2 = match insert_option_raw(conn, qid, &rows.options[k]) {
            Ok(oid2) => oid2,
            Err(e) => {
                rollback_raw(conn);
                return Err(e);
            },
        };
        proof {
            assert(!oids.contains(oid2)) by {
                if oids.contains(oid2) {
                    let j = choose|j: int| 0 <= j < oids.len() && oids[j] == oid2;
                }
            }
            let ids0 = oids;
            lemma_push_no_dup(ids0, oid2);
            oids = ids0.push(oid2);
            assert forall|oid: i64| #[trigger] db(*conn).cur.options.dom().contains(oid)
                implies td.options.dom().contains(oid) || oids.contains(oid) by {
                if oid == oid2 {
                    lemma_push_contains(ids0, oid2, oid);
                } else if !td.options.dom().contains(oid) {
                    assert(ids0.contains(oid));
                    lemma_push_contains(ids0, oid2, oid);
                }
            }
        }
        k += 1;
    }

    // blanks
    let ghost t2 = db(*conn).cur;
    let ghost mut bids: Seq<i64> = Seq::empty();
    let mut k: usize = 0;
    while k < rows.blanks.len()
        invariant
            bids.len() == k,
            k <= rows.blanks@.len(),
            bids.no_duplicates(),
            db(*conn) == (Db {
                cur: Tables { blanks: db(*conn).cur.blanks, ..t2 },
                base: t0,
                in_tx: true,
                fk_on: true,
            }),
            forall|j: int| 0 <= j < k
                ==> db(*conn).cur.blanks.dom().contains(#[trigger] bids[j])
                    && db(*conn).cur.blanks[bids[j]] == brows[j],
            forall|oid: i64| #[trigger] t2.blanks.dom().contains(oid)
                ==> db(*conn).cur.blanks.dom().contains(oid)
                    && db(*conn).cur.blanks[oid] == t2.blanks[oid],
            forall|oid: i64| #[trigger] db(*conn).cur.blanks.dom().contains(oid)
                ==> t2.blanks.dom().contains(oid) || bids.contains(oid),
        decreases rows.blanks@.len() - k,
    {
        let oid2 = match insert_blank_raw(conn, qid, &rows.blanks[k]) {
            Ok(oid2) => oid2,
            Err(e) => {
                rollback_raw(conn);
                return Err(e);
            },
        };
        proof {
            assert(!bids.contains(oid2)) by {
                if bids.contains(oid2) {
                    let j = choose|j: int| 0 <= j < bids.len() && bids[j] == oid2;
                }
            }
            let ids0 = bids;
            lemma_push_no_dup(ids0, oid2);
            bids = ids0.push(oid2);
            assert forall|oid: i64| #[trigger] db(*conn).cur.blanks.dom().contains(oid)
                implies t2.blanks.dom().contains(oid) || bids.contains(oid) by {
                if oid == oid2 {
                    lemma_push_contains(ids0, oid2, oid);
                } else if !t2.blanks.dom().contains(oid) {
                    assert(ids0.contains(oid));
                    lemma_push_contains(ids0, oid2, oid);
                }
            }
        }
        k += 1;
    }

    // order items
    let ghost t3 = db(*conn).cur;
    let ghost mut iids: Seq<i64> = Seq::empty();
    let mut k: usize = 0;
    while k < rows.order_items.len()
        invariant
            iids.len() == k,
            k <= rows.order_items@.len(),
            iids.no_duplicates(),
            db(*conn) == (Db {
                cur: Tables { order_items: db(*conn).cur.order_items, ..t3 },
                base: t0,
                in_tx: true,
                fk_on: true,
            }),
            forall|j: int| 0 <= j < k
                ==> db(*conn).cur.order_items.dom().contains(#[trigger] iids[j])
                    && db(*conn).cur.order_items[iids[j]] == irows[j],
            forall|oid: i64| #[trigger] t3.order_items.dom().contains(oid)
                ==> db(*conn).cur.order_items.dom().contains(oid)
                    && db(*conn).cur.order_items[oid] == t3.order_items[oid],
            forall|oid: i64| #[trigger] db(*conn).cur.order_items.dom().contains(oid)
                ==> t3.order_items.dom().contains(oid) || iids.contains(oid),
        decreases rows.order_items@.len() - k,
    {
        let oid2 = match insert_order_item_raw(conn, qid, &rows.order_items[k]) {
            Ok(oid2) => oid2,
            Err(e) => {
                rollback_raw(conn);
                return Err(e);
            },
        };
        proof {
            assert(!iids.contains(oid2)) by {
                if iids.contains(oid2) {
                    let j = choose|j: int| 0 <= j < iids.len() && iids[j] == oid2;
                }
            }
            let ids0 = iids;
            lemma_push_no_dup(ids0, oid2);
            iids = ids0.push(oid2);
            assert forall|oid: i64| #[trigger] db(*conn).cur.order_items.dom().contains(oid)
                implies t3.order_items.dom().contains(oid) || iids.contains(oid) by {
                if oid == oid2 {
                    lemma_push_contains(ids0, oid2, oid);
                } else if !t3.order_items.dom().contains(oid) {
                    assert(ids0.contains(oid));
                    lemma_push_contains(ids0, oid2, oid);
                }
            }
        }
        k += 1;
    }

    // match pairs
    let ghost t4 = db(*conn).cur;
    let ghost mut mids: Seq<i64> = Seq::empty();
    let mut k: usize = 0;
    while k < rows.match_pairs.len()
        invariant
            mids.len() == k,
            k <= rows.match_pairs@.len(),
            mids.no_duplicates(),
            db(*conn) == (Db {
                cur: Tables { matches: db(*conn).cur.matches, ..t4 },
                base: t0,
                in_tx: true,
                fk_on: true,
            }),
            forall|j: int| 0 <= j < k
                ==> db(*conn).cur.matches.dom().contains(#[trigger] mids[j])
                    && db(*conn).cur.matches[mids[j]] == mrows[j],
            forall|oid: i64| #[trigger] t4.matches.dom().contains(oid)
                ==> db(*conn).cur.matches.dom().contains(oid)
                    && db(*conn).cur.matches[oid] == t4.matches[oid],
            forall|oid: i64| #[trigger] db(*conn).cur.matches.dom().contains(oid)
                ==> t4.matches.dom().contains(oid) || mids.contains(oid),
        decreases rows.match_pairs@.len() - k,
    {
        let oid2 = match insert_match_raw(conn, qid, &rows.match_pairs[k], k as i32) {
            Ok(oid2) => oid2,
            Err(e) => {
                rollback_raw(conn);
                return Err(e);
            },
        };
        proof {
            assert(!mids.contains(oid2)) by {
                if mids.contains(oid2) {
                    let j = choose|j: int| 0 <= j < mids.len() && mids[j] == oid2;
                }
            }
            let ids0 = mids;
            lemma_push_no_dup(ids0, oid2);
            mids = ids0.push(oid2);
            assert forall|oid: i64| #[trigger] db(*conn).cur.matches.dom().contains(oid)
                implies t4.matches.dom().contains(oid) || mids.contains(oid) by {
                if oid == oid2 {
                    lemma_push_contains(ids0, oid2, oid);
                } else if !t4.matches.dom().contains(oid) {
                    assert(ids0.contains(oid));
                    lemma_push_contains(ids0, oid2, oid);
                }
            }
        }
        k += 1;
    }

    // re-read the aggregate inside the unit, then commit
    let q = match read_question_details(&*conn, qid) {
        Ok(q) => q,
        Err(e) => {
            proof {
                assert(db(*conn).cur.questions.dom().contains(qid));
            }
            rollback_raw(conn);
            return Err(e);
        },
    };
    let ghost tf = db(*conn).cur;
    proof {
        lemma_variant_tables_updated(t0, t1, td, t2, t3, t4, tf, qid, brow, oids, bids,
            iids, mids, orows, brows, irows, mrows);
        assert(t0.subjects.dom().contains(brow.subject_id)
            && t0.topics.dom().contains(brow.topic_id)) by {
            assert(t0.questions.dom().contains(qid));
        }
        lemma_question_written_wf(t0, tf, qid, brow);
        let vo = Seq::new(q.options@.len(), |i: int| q.options@[i].id);
        assert(vo.no_duplicates()) by {
            assert forall|i: int, j: int| 0 <= i < vo.len() && 0 <= j < vo.len() && i != j
                implies vo[i] != vo[j] by {
                if i < j {
                    assert(q.options@[i].id != q.options@[j].id);
                } else {
                    assert(q.options@[j].id != q.options@[i].id);
                }
            }
        }
        assert forall|i: int| 0 <= i < vo.len() implies tf.options.dom().contains(
            #[trigger] vo[i]) && tf.options[vo[i]].question_id == qid by {
            assert(q.options@[i].in_table(tf));
        }
        assert forall|i2: int| 0 <= i2 < vo.len() implies oids.contains(
            #[trigger] vo[i2]) by {
            assert(tf.options.dom().contains(vo[i2]));
        }
        assert forall|k2: int| 0 <= k2 < oids.len() implies vo.contains(
            #[trigger] oids[k2]) by {
            assert(tf.options.dom().contains(oids[k2]) && tf.options[oids[k2]] == orows[k2]);
            assert(orows[k2].question_id == qid);
            let i2 = choose|i2: int| 0 <= i2 < q.options@.len() && q.options@[i2].id == oids[k2];
            assert(vo[i2] == oids[k2]);
        }
        lemma_distinct_cover_len(vo, oids);

        let vb = Seq::new(q.blanks@.len(), |i: int| q.blanks@[i].id);
        assert(vb.no_duplicates()) by {
            assert forall|i: int, j: int| 0 <= i < vb.len() && 0 <= j < vb.len() && i != j
                implies vb[i] != vb[j] by {
                if i < j {
                    assert(q.blanks@[i].id != q.blanks@[j].id);
                } else {
                    assert(q.blanks@[j].id != q.blanks@[i].id);
                }
            }
        }
        assert forall|i: int| 0 <= i < vb.len() implies tf.blanks.dom().contains(
            #[trigger] vb[i]) && tf.blanks[vb[i]].question_id == qid by {
            assert(q.blanks@[i].in_table(tf));
        }
        assert forall|i2: int| 0 <= i2 < vb.len() implies bids.contains(
            #[trigger] vb[i2]) by {
            assert(tf.blanks.dom().contains(vb[i2]));
        }
        assert forall|k2: int| 0 <= k2 < bids.len() implies vb.contains(
            #[trigger] bids[k2]) by {
            assert(tf.blanks.dom().contains(bids[k2]) && tf.blanks[bids[k2]] == brows[k2]);
            assert(brows[k2].question_id == qid);
            let i2 = choose|i2: int| 0 <= i2 < q.blanks@.len() && q.blanks@[i2].id == bids[k2];
            assert(vb[i2] == bids[k2]);
        }
        lemma_distinct_cover_len(vb, bids);

        let vi = Seq::new(q.order_items@.len(), |i: int| q.order_items@[i].id);
        assert(vi.no_duplicates()) by {
            assert forall|i: int, j: int| 0 <= i < vi.len() && 0 <= j < vi.len() && i != j
                implies vi[i] != vi[j] by {
                if i < j {
                    assert(q.order_items@[i].id != q.order_items@[j].id);
                } else {
                    assert(q.order_items@[j].id != q.order_items@[i].id);
                }
            }
        }
        assert forall|i: int| 0 <= i < vi.len() implies tf.order_items.dom().contains(
            #[trigger] vi[i]) && tf.order_items[vi[i]].question_id == qid by {
            assert(q.order_items@[i].in_table(tf));
        }
        assert forall|i2: int| 0 <= i2 < vi.len() implies iids.contains(
            #[trigger] vi[i2]) by {
            assert(tf.order_items.dom().contains(vi[i2]));
        }
        assert forall|k2: int| 0 <= k2 < iids.len() implies vi.contains(
            #[trigger] iids[k2]) by {
            assert(tf.order_items.dom().contains(iids[k2]) && tf.order_items[iids[k2]] == irows[k2]);
            assert(irows[k2].question_id == qid);
            let i2 = choose|i2: int| 0 <= i2 < q.order_items@.len() && q.order_items@[i2].id == iids[k2];
            assert(vi[i2] == iids[k2]);
        }
        lemma_distinct_cover_len(vi, iids);

        let vm = Seq::new(q.matches@.len(), |i: int| q.matches@[i].id);
        assert(vm.no_duplicates()) by {
            assert forall|i: int, j: int| 0 <= i < vm.len() && 0 <= j < vm.len() && i != j
                implies vm[i] != vm[j] by {
                if i < j {
                    assert(q.matches@[i].id != q.matches@[j].id);
                } else {
                    assert(q.matches@[j].id != q.matches@[i].id);
                }
            }
        }
        assert forall|i: int| 0 <= i < vm.len() implies tf.matches.dom().contains(
            #[trigger] vm[i]) && tf.matches[vm[i]].question_id == qid by {
            assert(q.matches@[i].in_table(tf));
        }
        assert forall|i2: int| 0 <= i2 < vm.len() implies mids.contains(
            #[trigger] vm[i2]) by {
            assert(tf.matches.dom().contains(vm[i2]));
        }
        assert forall|k2: int| 0 <= k2 < mids.len() implies vm.contains(
            #[trigger] mids[k2]) by {
            assert(tf.matches.dom().contains(mids[k2]) && tf.matches[mids[k2]] == mrows[k2]);
            assert(mrows[k2].question_id == qid);
            let i2 = choose|i2: int| 0 <= i2 < q.matches@.len() && q.matches@[i2].id == mids[k2];
            assert(vm[i2] == mids[k2]);
        }
        lemma_distinct_cover_len(vm, mids);

        assert(q.question.row() == brow) by {
            assert(q.question.in_table(tf));
            assert(tf.questions[qid] == brow);
        }
        assert(payload == data);
        assert(updated_question(t0, tf, qid, data, q)) by {
            assert(options_replaced(t0.options, tf.options, oids,
                opt_rows_of(data.options@, qid), qid));
            assert(blanks_replaced(t0.blanks, tf.blanks, bids,
                blank_rows_of(data.blanks@, data.numeric_data, qid), qid));
            assert(order_items_replaced(t0.order_items, tf.order_items, iids,
                order_rows_of(seq_or_empty(data.order_items), qid), qid));
            assert(matches_replaced(t0.matches, tf.matches, mids,
                match_rows_of(seq_or_empty(data.match_pairs), qid), qid));
        }
    }
    match commit_raw(conn) {
        Ok(_) => Ok(q),
        Err(e) => {
            rollback_raw(conn);
            Err(e)
        },
    }
}

/// Deletes the question keyed by `id` and, by cascade, all four of its
/// variant-row sets.  Deleting a missing id is not an error.
pub fn delete_question(conn: &mut rusqlite::Connection, id: i64) -> (r: Result<(), StoreError>)
    requires
        inv(db(*old(conn))),
    ensures
        inv(db(*final(conn))),
        r is Ok ==> db(*final(conn)).cur == cascade_delete_question(db(*old(conn)).cur, id),
        r matches Err(e) ==> db(*final(conn)) == db(*old(conn)) && !(e is NotFound),
{
    let ghost t0 = db(*conn).cur;
    if let Err(e) = pragma_foreign_keys_raw(conn) {
        return Err(e);
    }
    let r = delete_question_raw(conn, id);
    proof {
        if r is Ok {
            crate::lemmas::lemma_cascade_question_wf(t0, id);
        }
    }
    r
}

} // verus!
