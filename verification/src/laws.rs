//! The laws the repository contracts promise jointly: the write/read round
//! trip of the question-variant assembler, and the reach of cascade
//! deletion.

use vstd::prelude::*;
use crate::model::{
    Tables, cascade_delete_subject, topics_of_subject, questions_gone_subject,
    quizzes_gone_subject, exams_of_subject,
};
use crate::types::{CreateQuestionData, QuestionWithDetails};
use crate::questions::{
    created_question, options_replaced, blanks_replaced, order_items_replaced, matches_replaced,
    opt_rows_of, blank_rows_of, order_rows_of, match_rows_of, seq_or_empty,
};

verus! {

/// Two strictly increasing sequences over the same set of keys are equal.
proof fn lemma_strict_sorted_same_set(a: Seq<i32>, b: Seq<i32>)
    requires
        forall|i: int, j: int| 0 <= i < j < a.len() ==> a[i] < a[j],
        forall|i: int, j: int| 0 <= i < j < b.len() ==> b[i] < b[j],
        a.to_set() == b.to_set(),
    ensures
        a == b,
    decreases a.len(),
{
    if a.len() == 0 {
        if b.len() > 0 {
            assert(b.to_set().contains(b[0]));
            assert(a.contains(b[0]));
        }
        assert(a =~= b);
    } else {
        assert(a.to_set().contains(a[0])) by {
            assert(a.contains(a[0]));
        }
        assert(b.contains(a[0]));
        let kb = choose|kb: int| 0 <= kb < b.len() && b[kb] == a[0];
        assert(b.to_set().contains(b[0])) by {
            assert(b.contains(b[0]));
        }
        assert(a.contains(b[0]));
        let ka = choose|ka: int| 0 <= ka < a.len() && a[ka] == b[0];
        assert(a[0] <= a[ka] && b[0] <= b[kb]);
        assert(a[0] == b[0]);
        let a1 = a.skip(1);
        let b1 = b.skip(1);
        assert(a1.to_set() =~= b1.to_set()) by {
            assert forall|x: i32| a1.to_set().contains(x) implies b1.to_set().contains(x) by {
                assert(a1.contains(x));
                let i = choose|i: int| 0 <= i < a1.len() && a1[i] == x;
                assert(a[i + 1] == x);
                assert(a[0] < x);
                assert(a.contains(x));
                assert(a.to_set().contains(x));
                assert(b.contains(x));
                let k = choose|k: int| 0 <= k < b.len() && b[k] == x;
                assert(k != 0);
                assert(b1[k - 1] == x);
                assert(b1.contains(x));
            }
            assert forall|x: i32| b1.to_set().contains(x) implies a1.to_set().contains(x) by {
                assert(b1.contains(x));
                let i = choose|i: int| 0 <= i < b1.len() && b1[i] == x;
                assert(b[i + 1] == x);
                assert(b[0] < x);
                assert(b.contains(x));
                assert(b.to_set().contains(x));
                assert(a.contains(x));
                let k = choose|k: int| 0 <= k < a.len() && a[k] == x;
                assert(k != 0);
                assert(a1[k - 1] == x);
                assert(a1.contains(x));
            }
        }
        assert(forall|i: int, j: int| 0 <= i < j < a1.len() ==> a1[i] < a1[j]) by {
            assert(forall|i: int, j: int| 0 <= i < j < a1.len() ==> a1[i] == a[i + 1] && a1[j] == a[j + 1]);
        }
        assert(forall|i: int, j: int| 0 <= i < j < b1.len() ==> b1[i] < b1[j]) by {
            assert(forall|i: int, j: int| 0 <= i < j < b1.len() ==> b1[i] == b[i + 1] && b1[j] == b[j + 1]);
        }
        lemma_strict_sorted_same_set(a1, b1);
        assert(a.len() == b.len());
        assert forall|i: int| 0 <= i < a.len() implies a[i] == b[i] by {
            if i > 0 {
                assert(a1[i - 1] == b1[i - 1]);
            }
        }
        assert(a =~= b);
    }
}

/// Position `i` of the read-back side has a written counterpart with the
/// same rowid and the same key.
spec fn image_in(vids: Seq<i64>, ids: Seq<i64>, akeys: Seq<i32>, bkeys: Seq<i32>, i: int) -> bool {
    exists|k: int| 0 <= k < ids.len() && ids[k] == vids[i] && #[trigger] bkeys[k] == akeys[i]
}

/// Position `k` of the written side shows up among the read-back rowids.
spec fn preimage_in(vids: Seq<i64>, ids: Seq<i64>, k: int) -> bool {
    exists|i: int| 0 <= i < vids.len() && #[trigger] vids[i] == ids[k]
}

/// Read-back rows and written rows that carry each other's rowids, whose
/// keys are sorted on one side and strictly increasing on the other, line
/// up position by position.
proof fn lemma_sorted_alignment(vids: Seq<i64>, ids: Seq<i64>, akeys: Seq<i32>, bkeys: Seq<i32>)
    requires
        vids.len() == ids.len(),
        akeys.len() == vids.len(),
        bkeys.len() == ids.len(),
        vids.no_duplicates(),
        ids.no_duplicates(),
        forall|i: int| 0 <= i < vids.len() ==> #[trigger] image_in(vids, ids, akeys, bkeys, i),
        forall|k: int| 0 <= k < ids.len() ==> #[trigger] preimage_in(vids, ids, k),
        forall|i: int, j: int| 0 <= i < j < akeys.len() ==> akeys[i] <= akeys[j],
        forall|i: int, j: int| 0 <= i < j < bkeys.len() ==> bkeys[i] < bkeys[j],
    ensures
        forall|i: int| 0 <= i < vids.len() ==> #[trigger] vids[i] == ids[i],
{
    // the read-back keys are strictly increasing too
    assert forall|i: int, j: int| 0 <= i < j < akeys.len() implies akeys[i] < akeys[j] by {
        if akeys[i] == akeys[j] {
            assert(image_in(vids, ids, akeys, bkeys, i));
            assert(image_in(vids, ids, akeys, bkeys, j));
            let ki = choose|k: int| 0 <= k < ids.len() && ids[k] == vids[i]
                && #[trigger] bkeys[k] == akeys[i];
            let kj = choose|k: int| 0 <= k < ids.len() && ids[k] == vids[j]
                && #[trigger] bkeys[k] == akeys[j];
            assert(vids[i] != vids[j]);
            assert(ki != kj);
            if ki < kj {
                assert(bkeys[ki] < bkeys[kj]);
            } else {
                assert(bkeys[kj] < bkeys[ki]);
            }
        }
    }
    assert(akeys.to_set() =~= bkeys.to_set()) by {
        assert forall|x: i32| akeys.to_set().contains(x) implies bkeys.to_set().contains(x) by {
            assert(akeys.contains(x));
            let i = choose|i: int| 0 <= i < akeys.len() && akeys[i] == x;
            assert(image_in(vids, ids, akeys, bkeys, i));
            let k = choose|k: int| 0 <= k < ids.len() && ids[k] == vids[i]
                && #[trigger] bkeys[k] == akeys[i];
            assert(bkeys.contains(x)) by {
                assert(bkeys[k] == x);
            }
        }
        assert forall|x: i32| bkeys.to_set().contains(x) implies akeys.to_set().contains(x) by {
            assert(bkeys.contains(x));
            let k = choose|k: int| 0 <= k < bkeys.len() && bkeys[k] == x;
            assert(preimage_in(vids, ids, k));
            let i = choose|i: int| 0 <= i < vids.len() && #[trigger] vids[i] == ids[k];
            assert(image_in(vids, ids, akeys, bkeys, i));
            let k2 = choose|k2: int| 0 <= k2 < ids.len() && ids[k2] == vids[i]
                && #[trigger] bkeys[k2] == akeys[i];
            assert(ids[k2] == ids[k]);
            assert(k2 == k) by {
                if k2 != k {
                    assert(ids[k2] != ids[k]);
                }
            }
            assert(akeys.contains(x)) by {
                assert(akeys[i] == x);
            }
        }
    }
    lemma_strict_sorted_same_set(akeys, bkeys);
    assert forall|i: int| 0 <= i < vids.len() implies #[trigger] vids[i] == ids[i] by {
        assert(image_in(vids, ids, akeys, bkeys, i));
        let k = choose|k: int| 0 <= k < ids.len() && ids[k] == vids[i]
            && #[trigger] bkeys[k] == akeys[i];
        assert(akeys[i] == bkeys[i]);
        assert(bkeys[k] == bkeys[i]);
        assert(k == i) by {
            if k < i {
                assert(bkeys[k] < bkeys[i]);
            } else if i < k {
                assert(bkeys[i] < bkeys[k]);
            }
        }
    }
}

/// A payload in canonical submission order: options ascending strictly by
/// display order, blanks strictly by blank index, order items strictly by
/// correct position, and a standalone numeric answer only with no explicit
/// blanks (its synthetic blank takes index 0).  Match pairs need no
/// condition: their display order is their payload position.
pub open spec fn payload_canonical(data: CreateQuestionData) -> bool {
    &&& forall|i: int, j: int| 0 <= i < j < data.options@.len()
            ==> data.options@[i].display_order < data.options@[j].display_order
    &&& forall|i: int, j: int| 0 <= i < j < data.blanks@.len()
            ==> data.blanks@[i].blank_index < data.blanks@[j].blank_index
    &&& data.numeric_data is Some ==> data.blanks@.len() == 0
    &&& match data.order_items {
        Option::Some(v) => forall|i: int, j: int| 0 <= i < j < v@.len()
            ==> v@[i].correct_position < v@[j].correct_position,
        Option::None => true,
    }
}

/// Round trip of the assembler: writing a canonical payload and re-reading
/// the aggregate reproduces the submitted variant sequences, content and
/// order — options, blanks (with the synthetic numeric blank), order items
/// and match pairs alike.
#[verifier::rlimit(100)]
pub proof fn lemma_create_round_trip(
    t0: Tables,
    t1: Tables,
    data: CreateQuestionData,
    q: QuestionWithDetails,
)
    requires
        created_question(t0, t1, data, q),
        payload_canonical(data),
        seq_or_empty(data.match_pairs).len() <= 0x7fff_ffff,
    ensures
        forall|i: int| 0 <= i < q.options@.len()
            ==> (#[trigger] q.options@[i]).row() == opt_rows_of(data.options@, q.question.id)[i],
        forall|i: int| 0 <= i < q.blanks@.len()
            ==> (#[trigger] q.blanks@[i]).row()
                == blank_rows_of(data.blanks@, data.numeric_data, q.question.id)[i],
        forall|i: int| 0 <= i < q.order_items@.len()
            ==> (#[trigger] q.order_items@[i]).row()
                == order_rows_of(seq_or_empty(data.order_items), q.question.id)[i],
        forall|i: int| 0 <= i < q.matches@.len()
            ==> (#[trigger] q.matches@[i]).row()
                == match_rows_of(seq_or_empty(data.match_pairs), q.question.id)[i],
{
    let qid = q.question.id;

    // options
    {
        let rows = opt_rows_of(data.options@, qid);
        let ids = choose|ids: Seq<i64>| #[trigger] options_replaced(t0.options, t1.options, ids,
            rows, qid);
        let v = q.options@;
        let n = v.len();
        let vids = Seq::new(n, |i: int| v[i].id);
        let akeys = Seq::new(n, |i: int| v[i].display_order);
        let bkeys = Seq::new(n, |k: int| data.options@[k].display_order);
        assert(vids.no_duplicates()) by {
            assert forall|i: int, j: int| 0 <= i < vids.len() && 0 <= j < vids.len() && i != j
                implies vids[i] != vids[j] by {
                if i < j {
                    assert(v[i].id != v[j].id);
                } else {
                    assert(v[j].id != v[i].id);
                }
            }
        }
        assert forall|i: int| 0 <= i < n implies #[trigger] image_in(vids, ids, akeys, bkeys,
            i) by {
            assert(v[i].in_table(t1) && v[i].question_id == qid);
            assert(t1.options.dom().contains(v[i].id));
            assert(ids.contains(v[i].id));
            let k = choose|k: int| 0 <= k < ids.len() && ids[k] == v[i].id;
            assert(t1.options[ids[k]] == rows[k]);
            assert(v[i].row() == rows[k]);
            assert(bkeys[k] == akeys[i]);
        }
        assert forall|k: int| 0 <= k < ids.len() implies #[trigger] preimage_in(vids, ids,
            k) by {
            assert(t1.options.dom().contains(ids[k]) && t1.options[ids[k]] == rows[k]);
            assert(rows[k].question_id == qid);
            let i = choose|i: int| 0 <= i < v.len() && v[i].id == ids[k];
            assert(vids[i] == ids[k]);
        }
        lemma_sorted_alignment(vids, ids, akeys, bkeys);
        assert forall|i: int| 0 <= i < n implies (#[trigger] v[i]).row() == rows[i] by {
            assert(vids[i] == ids[i]);
            assert(t1.options[ids[i]] == rows[i]);
            assert(v[i].row() == t1.options[v[i].id]);
        }
    }

    // blanks
    {
        let rows = blank_rows_of(data.blanks@, data.numeric_data, qid);
        let ids = choose|ids: Seq<i64>| #[trigger] blanks_replaced(t0.blanks, t1.blanks, ids,
            rows, qid);
        let v = q.blanks@;
        let n = v.len();
        let vids = Seq::new(n, |i: int| v[i].id);
        let akeys = Seq::new(n, |i: int| v[i].blank_index);
        let bkeys = Seq::new(n, |k: int| rows[k].blank_index);
        assert forall|i: int, j: int| 0 <= i < j < bkeys.len() implies bkeys[i] < bkeys[j] by {
            assert(j < data.blanks@.len() + (if data.numeric_data is Some { 1int } else { 0int }));
            if data.numeric_data is Some {
                assert(data.blanks@.len() == 0);
            } else {
                assert(rows[i].blank_index == data.blanks@[i].blank_index);
                assert(rows[j].blank_index == data.blanks@[j].blank_index);
            }
        }
        assert(vids.no_duplicates()) by {
            assert forall|i: int, j: int| 0 <= i < vids.len() && 0 <= j < vids.len() && i != j
                implies vids[i] != vids[j] by {
                if i < j {
                    assert(v[i].id != v[j].id);
                } else {
                    assert(v[j].id != v[i].id);
                }
            }
        }
        assert forall|i: int| 0 <= i < n implies #[trigger] image_in(vids, ids, akeys, bkeys,
            i) by {
            assert(v[i].in_table(t1) && v[i].question_id == qid);
            assert(t1.blanks.dom().contains(v[i].id));
            assert(ids.contains(v[i].id));
            let k = choose|k: int| 0 <= k < ids.len() && ids[k] == v[i].id;
            assert(t1.blanks[ids[k]] == rows[k]);
            assert(v[i].row() == rows[k]);
            assert(bkeys[k] == akeys[i]);
        }
        assert forall|k: int| 0 <= k < ids.len() implies #[trigger] preimage_in(vids, ids,
            k) by {
            assert(t1.blanks.dom().contains(ids[k]) && t1.blanks[ids[k]] == rows[k]);
            assert(rows[k].question_id == qid);
            let i = choose|i: int| 0 <= i < v.len() && v[i].id == ids[k];
            assert(vids[i] == ids[k]);
        }
        lemma_sorted_alignment(vids, ids, akeys, bkeys);
        assert forall|i: int| 0 <= i < n implies (#[trigger] v[i]).row() == rows[i] by {
            assert(vids[i] == ids[i]);
            assert(t1.blanks[ids[i]] == rows[i]);
            assert(v[i].row() == t1.blanks[v[i].id]);
        }
    }

    // order items
    {
        let rows = order_rows_of(seq_or_empty(data.order_items), qid);
        let ids = choose|ids: Seq<i64>| #[trigger] order_items_replaced(t0.order_items,
            t1.order_items, ids, rows, qid);
        let v = q.order_items@;
        let n = v.len();
        let vids = Seq::new(n, |i: int| v[i].id);
        let akeys = Seq::new(n, |i: int| v[i].correct_position);
        let bkeys = Seq::new(n, |k: int| rows[k].correct_position);
        assert forall|i: int, j: int| 0 <= i < j < bkeys.len() implies bkeys[i] < bkeys[j] by {
            let items = seq_or_empty(data.order_items);
            assert(rows[i].correct_position == items[i].correct_position);
            assert(rows[j].correct_position == items[j].correct_position);
        }
        assert(vids.no_duplicates()) by {
            assert forall|i: int, j: int| 0 <= i < vids.len() && 0 <= j < vids.len() && i != j
                implies vids[i] != vids[j] by {
                if i < j {
                    assert(v[i].id != v[j].id);
                } else {
                    assert(v[j].id != v[i].id);
                }
            }
        }
        assert forall|i: int| 0 <= i < n implies #[trigger] image_in(vids, ids, akeys, bkeys,
            i) by {
            assert(v[i].in_table(t1) && v[i].question_id == qid);
            assert(t1.order_items.dom().contains(v[i].id));
            assert(ids.contains(v[i].id));
            let k = choose|k: int| 0 <= k < ids.len() && ids[k] == v[i].id;
            assert(t1.order_items[ids[k]] == rows[k]);
            assert(v[i].row() == rows[k]);
            assert(bkeys[k] == akeys[i]);
        }
        assert forall|k: int| 0 <= k < ids.len() implies #[trigger] preimage_in(vids, ids,
            k) by {
            assert(t1.order_items.dom().contains(ids[k]) && t1.order_items[ids[k]] == rows[k]);
            assert(rows[k].question_id == qid);
            let i = choose|i: int| 0 <= i < v.len() && v[i].id == ids[k];
            assert(vids[i] == ids[k]);
        }
        lemma_sorted_alignment(vids, ids, akeys, bkeys);
        assert forall|i: int| 0 <= i < n implies (#[trigger] v[i]).row() == rows[i] by {
            assert(vids[i] == ids[i]);
            assert(t1.order_items[ids[i]] == rows[i]);
            assert(v[i].row() == t1.order_items[v[i].id]);
        }
    }

    // match pairs
    {
        let rows = match_rows_of(seq_or_empty(data.match_pairs), qid);
        let ids = choose|ids: Seq<i64>| #[trigger] matches_replaced(t0.matches, t1.matches, ids,
            rows, qid);
        let v = q.matches@;
        let n = v.len();
        let vids = Seq::new(n, |i: int| v[i].id);
        let akeys = Seq::new(n, |i: int| v[i].display_order);
        let bkeys = Seq::new(n, |k: int| rows[k].display_order);
        assert forall|i: int, j: int| 0 <= i < j < bkeys.len() implies bkeys[i] < bkeys[j] by {
            assert(rows[i].display_order == i as i32);
            assert(rows[j].display_order == j as i32);
        }
        assert(vids.no_duplicates()) by {
            assert forall|i: int, j: int| 0 <= i < vids.len() && 0 <= j < vids.len() && i != j
                implies vids[i] != vids[j] by {
                if i < j {
                    assert(v[i].id != v[j].id);
                } else {
                    assert(v[j].id != v[i].id);
                }
            }
        }
        assert forall|i: int| 0 <= i < n implies #[trigger] image_in(vids, ids, akeys, bkeys,
            i) by {
            assert(v[i].in_table(t1) && v[i].question_id == qid);
            assert(t1.matches.dom().contains(v[i].id));
            assert(ids.contains(v[i].id));
            let k = choose|k: int| 0 <= k < ids.len() && ids[k] == v[i].id;
            assert(t1.matches[ids[k]] == rows[k]);
            assert(v[i].row() == rows[k]);
            assert(bkeys[k] == akeys[i]);
        }
        assert forall|k: int| 0 <= k < ids.len() implies #[trigger] preimage_in(vids, ids,
            k) by {
            assert(t1.matches.dom().contains(ids[k]) && t1.matches[ids[k]] == rows[k]);
            assert(rows[k].question_id == qid);
            let i = choose|i: int| 0 <= i < v.len() && v[i].id == ids[k];
            assert(vids[i] == ids[k]);
        }
        lemma_sorted_alignment(vids, ids, akeys, bkeys);
        assert forall|i: int| 0 <= i < n implies (#[trigger] v[i]).row() == rows[i] by {
            assert(vids[i] == ids[i]);
            assert(t1.matches[ids[i]] == rows[i]);
            assert(v[i].row() == t1.matches[v[i].id]);
        }
    }
}

/// Cascade deletion reaches every dependent row: after deleting a subject,
/// none of its topics, none of their questions or variant rows, none of
/// their quizzes, and none of its exams remain.
pub proof fn lemma_cascade_subject_removes_children(t: Tables, sid: i64)
    ensures
        forall|tid: i64| #[trigger] t.topics.dom().contains(tid) && t.topics[tid].subject_id == sid
            ==> !cascade_delete_subject(t, sid).topics.dom().contains(tid),
        forall|qid: i64| #[trigger] t.questions.dom().contains(qid)
            && t.questions[qid].subject_id == sid
            ==> !cascade_delete_subject(t, sid).questions.dom().contains(qid),
        forall|oid: i64| #[trigger] t.options.dom().contains(oid)
            && t.questions.dom().contains(t.options[oid].question_id)
            && t.questions[t.options[oid].question_id].subject_id == sid
            ==> !cascade_delete_subject(t, sid).options.dom().contains(oid),
        forall|zid: i64| #[trigger] t.quizzes.dom().contains(zid)
            && t.topics.dom().contains(t.quizzes[zid].topic_id)
            && t.topics[t.quizzes[zid].topic_id].subject_id == sid
            ==> !cascade_delete_subject(t, sid).quizzes.dom().contains(zid),
        forall|eid: i64| #[trigger] t.exams.dom().contains(eid) && t.exams[eid].subject_id == sid
            ==> !cascade_delete_subject(t, sid).exams.dom().contains(eid),
        !cascade_delete_subject(t, sid).subjects.dom().contains(sid),
{
    let t1 = cascade_delete_subject(t, sid);
    assert forall|oid: i64| #[trigger] t.options.dom().contains(oid)
            && t.questions.dom().contains(t.options[oid].question_id)
            && t.questions[t.options[oid].question_id].subject_id == sid
        implies !t1.options.dom().contains(oid) by {
        assert(questions_gone_subject(t, sid).contains(t.options[oid].question_id));
    }
    assert forall|zid: i64| #[trigger] t.quizzes.dom().contains(zid)
            && t.topics.dom().contains(t.quizzes[zid].topic_id)
            && t.topics[t.quizzes[zid].topic_id].subject_id == sid
        implies !t1.quizzes.dom().contains(zid) by {
        assert(topics_of_subject(t, sid).contains(t.quizzes[zid].topic_id));
        assert(quizzes_gone_subject(t, sid).contains(zid));
    }
}

} // verus!
