//! The performance aggregator: read-only grouped summaries of stored
//! attempts.  Per subject over exam attempts and per topic over quiz
//! attempts, each summary carries the attempt count, the arithmetic mean of
//! the stored percentages, and the pass rate — all percentages in
//! hundredths, rounded toward zero.  Groups with no attempts do not appear,
//! so the division basis is never zero, and results come ordered by average
//! score descending.

use vstd::prelude::*;
use vstd::pervasive::VecAdditionalExecFns;
use vstd::multiset::Multiset;
use vstd::arithmetic::div_mod::{
    lemma_div_is_ordered, lemma_div_by_multiple, lemma_div_basics,
};
use crate::error::StoreError;
use crate::model::Tables;
use crate::types::{
    ExamAttemptRecord, QuizAttemptRecord, SubjectPerformance, TopicPerformance,
};
use crate::store::{
    db, lists_exam_attempt_records, lists_quiz_attempt_records,
    select_exam_attempt_records_raw, select_quiz_attempt_records_raw,
};

verus! {

/// Division rounded toward zero, the rounding used for the summaries.
pub open spec fn div_trunc(a: int, b: int) -> int {
    if a >= 0 {
        a / b
    } else {
        -((-a) / b)
    }
}

/// An attempt count saturated into the count field's type.
pub open spec fn sat_count(x: int) -> int {
    if x > 0x7fff_ffff {
        0x7fff_ffff
    } else {
        x
    }
}

// Per-subject folds over exam attempts.

pub open spec fn subj_count(rows: Seq<ExamAttemptRecord>, sid: i64) -> int
    decreases rows.len(),
{
    if rows.len() == 0 {
        0
    } else {
        subj_count(rows.drop_last(), sid) + if rows.last().subject_id == sid {
            1int
        } else {
            0int
        }
    }
}

pub open spec fn subj_sum(rows: Seq<ExamAttemptRecord>, sid: i64) -> int
    decreases rows.len(),
{
    if rows.len() == 0 {
        0
    } else {
        subj_sum(rows.drop_last(), sid) + if rows.last().subject_id == sid {
            rows.last().percentage as int
        } else {
            0int
        }
    }
}

/// How many attempts of the subject met or exceeded their exam's passing
/// score (both in hundredths).
pub open spec fn subj_passed(rows: Seq<ExamAttemptRecord>, sid: i64) -> int
    decreases rows.len(),
{
    if rows.len() == 0 {
        0
    } else {
        subj_passed(rows.drop_last(), sid) + if rows.last().subject_id == sid
            && rows.last().percentage >= rows.last().passing_score_percent * 100 {
            1int
        } else {
            0int
        }
    }
}

/// The subjects that appear, in order of first appearance.
pub open spec fn distinct_subjects(rows: Seq<ExamAttemptRecord>) -> Seq<i64>
    decreases rows.len(),
{
    if rows.len() == 0 {
        Seq::empty()
    } else {
        let rest = distinct_subjects(rows.drop_last());
        if rest.contains(rows.last().subject_id) {
            rest
        } else {
            rest.push(rows.last().subject_id)
        }
    }
}

/// One summary entry is exactly the fold of its subject's attempts: count
/// (saturated into its field), truncated mean, pass rate out of 10000, and
/// a group member's subject name.  Opaque: reveal it to reason about the
/// fields; the report-level contracts move it around whole.
#[verifier::opaque]
pub open spec fn subject_summary_of(rows: Seq<ExamAttemptRecord>, sid: i64, p: SubjectPerformance) -> bool {
    &&& subj_count(rows, sid) > 0
    &&& exists|x: int| 0 <= x < rows.len() && (#[trigger] rows[x]).subject_id == sid
            && rows[x].subject_name@ == p.subject_name@
    &&& p.attempts as int == sat_count(subj_count(rows, sid))
    &&& p.average_score as int == div_trunc(subj_sum(rows, sid), subj_count(rows, sid))
    &&& p.pass_rate as int == subj_passed(rows, sid) * 10000 / subj_count(rows, sid)
}

/// The entry summarises one of the subjects.
pub open spec fn has_subject_summary(rows: Seq<ExamAttemptRecord>, p: SubjectPerformance) -> bool {
    exists|sid: i64| #[trigger] subject_summary_of(rows, sid, p)
}

/// The whole report: every entry summarises some subject with attempts,
/// every subject with attempts is summarised, one entry per such subject,
/// ordered by average score descending.
pub open spec fn subject_report_of(rows: Seq<ExamAttemptRecord>, v: Seq<SubjectPerformance>) -> bool {
    &&& forall|k: int| 0 <= k < v.len() ==> has_subject_summary(rows, #[trigger] v[k])
    &&& forall|sid: i64| subj_count(rows, sid) > 0
            ==> exists|k: int| 0 <= k < v.len() && #[trigger] subject_summary_of(rows, sid, v[k])
    &&& forall|k1: int, k2: int| 0 <= k1 < k2 < v.len()
            ==> v[k1].average_score >= v[k2].average_score
    &&& v.len() == distinct_subjects(rows).len()
}

proof fn lemma_subj_take_step(rows: Seq<ExamAttemptRecord>, i: int, sid: i64)
    requires
        0 <= i < rows.len(),
    ensures
        subj_count(rows.take(i + 1), sid) == subj_count(rows.take(i), sid)
            + if rows[i].subject_id == sid { 1int } else { 0int },
        subj_sum(rows.take(i + 1), sid) == subj_sum(rows.take(i), sid)
            + if rows[i].subject_id == sid { rows[i].percentage as int } else { 0int },
        subj_passed(rows.take(i + 1), sid) == subj_passed(rows.take(i), sid)
            + if rows[i].subject_id == sid
                && rows[i].percentage >= rows[i].passing_score_percent * 100 { 1int } else { 0int },
        distinct_subjects(rows.take(i + 1))
            == if distinct_subjects(rows.take(i)).contains(rows[i].subject_id) {
                distinct_subjects(rows.take(i))
            } else {
                distinct_subjects(rows.take(i)).push(rows[i].subject_id)
            },
{
    assert(rows.take(i + 1).drop_last() =~= rows.take(i));
    assert(rows.take(i + 1).last() == rows[i]);
}

/// A subject appears among the distinct subjects exactly when it has an
/// attempt.
proof fn lemma_distinct_iff_count(rows: Seq<ExamAttemptRecord>, sid: i64)
    ensures
        distinct_subjects(rows).contains(sid) <==> subj_count(rows, sid) > 0,
        subj_count(rows, sid) >= 0,
    decreases rows.len(),
{
    if rows.len() > 0 {
        lemma_distinct_iff_count(rows.drop_last(), sid);
        let rest = distinct_subjects(rows.drop_last());
        if rows.last().subject_id == sid {
            if !rest.contains(sid) {
                assert(rest.push(sid)[rest.len() as int] == sid);
            }
        } else {
            if rest.contains(sid) {
                let j = choose|j: int| 0 <= j < rest.len() && rest[j] == sid;
                if !rest.contains(rows.last().subject_id) {
                    assert(rest.push(rows.last().subject_id)[j] == sid);
                }
            } else {
                if !rest.contains(rows.last().subject_id) {
                    let p2 = rest.push(rows.last().subject_id);
                    if p2.contains(sid) {
                        let j = choose|j: int| 0 <= j < p2.len() && p2[j] == sid;
                        assert(j < rest.len() ==> rest[j] == sid);
                    }
                }
            }
        }
    }
}

/// Folds over a group stay within the obvious bounds.
proof fn lemma_subj_bounds(rows: Seq<ExamAttemptRecord>, sid: i64)
    ensures
        0 <= subj_passed(rows, sid) <= subj_count(rows, sid) <= rows.len(),
        subj_count(rows, sid) == 0 ==> subj_sum(rows, sid) == 0,
        -(subj_count(rows, sid) * 0x8000_0000_0000_0000) <= subj_sum(rows, sid)
            <= subj_count(rows, sid) * 0x7fff_ffff_ffff_ffff,
    decreases rows.len(),
{
    if rows.len() > 0 {
        lemma_subj_bounds(rows.drop_last(), sid);
    }
}

/// Truncating division on wide integers, for a possibly negative sum.
fn div_i128_trunc(a: i128, b: i128) -> (r: i128)
    requires
        b > 0,
        a > i128::MIN,
    ensures
        r == div_trunc(a as int, b as int),
{
    if a >= 0 {
        let q = (a as u128) / (b as u128);
        proof {
            lemma_div_is_ordered(0, a as int, b as int);
            lemma_div_is_ordered(a as int, u128::MAX as int, b as int);
            lemma_div_basics(b as int);
            lemma_div_is_ordered(a as int, a as int, b as int);
            assert(a as int / b as int <= a as int / 1) by {
                vstd::arithmetic::div_mod::lemma_div_is_ordered_by_denominator(a as int, 1, b as int);
            }
        }
        q as i128
    } else {
        let n = -a;
        let q = (n as u128) / (b as u128);
        proof {
            lemma_div_is_ordered(0, n as int, b as int);
            assert(n as int / b as int <= n as int / 1) by {
                vstd::arithmetic::div_mod::lemma_div_is_ordered_by_denominator(n as int, 1, b as int);
            }
            lemma_div_basics(b as int);
        }
        -(q as i128)
    }
}

/// Folds the attempt records into per-subject groups: distinct subjects in
/// order of first appearance, with a member name, the attempt count, the
/// percentage sum and the passed count of each.
#[verifier::loop_isolation(false)]
#[verifier::rlimit(100)]
fn group_subjects(records: &Vec<ExamAttemptRecord>) -> (r: (Vec<i64>, Vec<String>, Vec<usize>, Vec<i128>, Vec<usize>))
    ensures
        r.0@ == distinct_subjects(records@),
        r.0@.no_duplicates(),
        r.0@.len() == r.1@.len() && r.0@.len() == r.2@.len() && r.0@.len() == r.3@.len()
            && r.0@.len() == r.4@.len(),
        forall|j: int| 0 <= j < r.0@.len() ==> {
            &&& r.2@[j] as int == subj_count(records@, #[trigger] r.0@[j])
            &&& r.3@[j] as int == subj_sum(records@, r.0@[j])
            &&& r.4@[j] as int == subj_passed(records@, r.0@[j])
            &&& r.2@[j] <= records@.len()
            &&& r.4@[j] <= r.2@[j]
            &&& 1 <= r.2@[j]
            &&& -((r.2@[j] as int) * 0x8000_0000_0000_0000)
                <= r.3@[j] as int <= (r.2@[j] as int) * 0x7fff_ffff_ffff_ffff
            &&& exists|x: int| 0 <= x < records@.len() && (#[trigger] records@[x]).subject_id == r.0@[j]
                && records@[x].subject_name@ == r.1@[j]@
        },
{
    let n = records.len();
    let mut sids: Vec<i64> = Vec::new();
    let mut names: Vec<String> = Vec::new();
    let mut counts: Vec<usize> = Vec::new();
    let mut sums: Vec<i128> = Vec::new();
    let mut passeds: Vec<usize> = Vec::new();
    let mut i: usize = 0;
    while i < n
        invariant
            i <= n,
            sids@.len() == names@.len() && sids@.len() == counts@.len()
                && sids@.len() == sums@.len() && sids@.len() == passeds@.len(),
            sids@ == distinct_subjects(records@.take(i as int)),
            sids@.no_duplicates(),
            forall|j: int| 0 <= j < sids@.len() ==> {
                &&& counts@[j] as int == subj_count(records@.take(i as int), #[trigger] sids@[j])
                &&& sums@[j] as int == subj_sum(records@.take(i as int), sids@[j])
                &&& passeds@[j] as int == subj_passed(records@.take(i as int), sids@[j])
                &&& counts@[j] <= i
                &&& passeds@[j] <= counts@[j]
                &&& 1 <= counts@[j]
                &&& -((counts@[j] as int) * 0x8000_0000_0000_0000)
                    <= sums@[j] as int <= (counts@[j] as int) * 0x7fff_ffff_ffff_ffff
                &&& exists|x: int| 0 <= x < i && (#[trigger] records@[x]).subject_id == sids@[j]
                    && records@[x].subject_name@ == names@[j]@
            },
        decreases n - i,
    {
        let key = records[i].subject_id;
        let mut f: usize = 0;
        let mut found: bool = false;
        while f < sids.len() && !found
            invariant
                f <= sids@.len(),
                found ==> f < sids@.len() && sids@[f as int] == key,
                !found ==> forall|j: int| 0 <= j < f ==> sids@[j] != key,
            decreases sids@.len() - f + (if found { 0int } else { 1int }),
        {
            if sids[f] == key {
                found = true;
            } else {
                f += 1;
            }
        }
        proof {
            assert(records@.take(i as int + 1)[i as int] == records@[i as int]);
        }
        if found {
            let passed_inc: usize = if records[i].percentage
                >= (records[i].passing_score_percent as i64) * 100 { 1 } else { 0 };
            let ghost counts0 = counts@;
            let ghost sums0 = sums@;
            let ghost passeds0 = passeds@;
            let c0 = counts[f];
            let s0 = sums[f];
            let p0 = passeds[f];
            counts.set(f, c0 + 1);
            sums.set(f, s0 + records[i].percentage as i128);
            passeds.set(f, p0 + passed_inc);
            proof {
                assert forall|j: int| 0 <= j < sids@.len() implies {
                    &&& counts@[j] as int == subj_count(records@.take(i as int + 1), #[trigger] sids@[j])
                    &&& sums@[j] as int == subj_sum(records@.take(i as int + 1), sids@[j])
                    &&& passeds@[j] as int == subj_passed(records@.take(i as int + 1), sids@[j])
                } by {
                    lemma_subj_take_step(records@, i as int, sids@[j]);
                    if j != f {
                        assert(sids@[j] != sids@[f as int]);
                        assert(counts@[j] == counts0[j] && sums@[j] == sums0[j]
                            && passeds@[j] == passeds0[j]);
                    } else {
                        assert(counts@[j] == c0 + 1);
                    }
                }
                lemma_subj_take_step(records@, i as int, key);
                assert(sids@ == distinct_subjects(records@.take(i as int + 1))) by {
                    assert(sids@[f as int] == key);
                    assert(distinct_subjects(records@.take(i as int)).contains(key));
                }
                assert forall|j: int| #![trigger sids@[j]] 0 <= j < sids@.len() implies
                    exists|x: int| 0 <= x < i + 1 && (#[trigger] records@[x]).subject_id == sids@[j]
                        && records@[x].subject_name@ == names@[j]@ by {
                    let x0 = choose|x: int| 0 <= x < i && (#[trigger] records@[x]).subject_id
                        == sids@[j] && records@[x].subject_name@ == names@[j]@;
                    assert(records@[x0].subject_id == sids@[j]);
                }
                assert forall|j: int| 0 <= j < sids@.len() implies
                    counts@[j] <= i + 1 && passeds@[j] <= counts@[j] && 1 <= counts@[j]
                    && -((counts@[j] as int) * 0x8000_0000_0000_0000) <= sums@[j] as int
                    && sums@[j] as int <= (counts@[j] as int) * 0x7fff_ffff_ffff_ffff by {
                    if j != f {
                        assert(counts@[j] == counts0[j] && sums@[j] == sums0[j]
                            && passeds@[j] == passeds0[j]);
                        assert(counts0[j] as int == subj_count(records@.take(i as int), sids@[j]));
                    } else {
                        assert(counts@[j] == c0 + 1 && sums@[j] as int == s0 as int
                            + records@[i as int].percentage as int && passeds@[j] == p0 + passed_inc);
                        assert(counts0[f as int] as int == subj_count(records@.take(i as int), sids@[f as int]));
                    }
                }
            }
        } else {
            proof {
                assert forall|j: int| 0 <= j < sids@.len() implies sids@[j] != key by {}
                assert(!sids@.contains(key)) by {
                    if sids@.contains(key) {
                        let j = choose|j: int| 0 <= j < sids@.len() && sids@[j] == key;
                    }
                }
                lemma_distinct_iff_count(records@.take(i as int), key);
            }
            let passed_inc: usize = if records[i].percentage
                >= (records[i].passing_score_percent as i64) * 100 { 1 } else { 0 };
            let ghost sids0 = sids@;
            let ghost names0 = names@;
            let ghost counts0 = counts@;
            let ghost sums0 = sums@;
            let ghost passeds0 = passeds@;
            proof {
                assert(subj_count(records@.take(i as int), key) == 0);
                lemma_subj_bounds(records@.take(i as int), key);
            }
            sids.push(key);
            names.push(records[i].subject_name.clone());
            counts.push(1);
            sums.push(records[i].percentage as i128);
            passeds.push(passed_inc);
            proof {
                crate::questions::lemma_push_no_dup(sids0, key);
                assert(sids@ == sids0.push(key));
                assert forall|j: int| 0 <= j < sids@.len() implies {
                    &&& counts@[j] as int == subj_count(records@.take(i as int + 1), #[trigger] sids@[j])
                    &&& sums@[j] as int == subj_sum(records@.take(i as int + 1), sids@[j])
                    &&& passeds@[j] as int == subj_passed(records@.take(i as int + 1), sids@[j])
                } by {
                    lemma_subj_take_step(records@, i as int, sids@[j]);
                    if j < sids@.len() - 1 {
                        assert(sids@[j] == sids0[j]);
                        assert(sids0[j] != key);
                        assert(counts@[j] == counts0[j] && sums@[j] == sums0[j]
                            && passeds@[j] == passeds0[j]);
                    } else {
                        assert(sids@[j] == key);
                        assert(subj_count(records@.take(i as int), key) == 0);
                    }
                }
                lemma_subj_take_step(records@, i as int, key);
                assert forall|j: int| #![trigger sids@[j]] 0 <= j < sids@.len() implies
                    exists|x: int| 0 <= x < i + 1 && (#[trigger] records@[x]).subject_id == sids@[j]
                        && records@[x].subject_name@ == names@[j]@ by {
                    if j < sids@.len() - 1 {
                        assert(sids@[j] == sids0[j] && names@[j] == names0[j]);
                        let x0 = choose|x: int| 0 <= x < i && (#[trigger] records@[x]).subject_id
                            == sids0[j] && records@[x].subject_name@ == names0[j]@;
                        assert(records@[x0].subject_id == sids@[j]);
                    } else {
                        assert(records@[i as int].subject_id == sids@[j]);
                        assert(records@[i as int].subject_name@ == names@[j]@);
                    }
                }
                assert forall|j: int| 0 <= j < sids@.len() implies
                    counts@[j] <= i + 1 && passeds@[j] <= counts@[j] && 1 <= counts@[j]
                    && -((counts@[j] as int) * 0x8000_0000_0000_0000) <= sums@[j] as int
                    && sums@[j] as int <= (counts@[j] as int) * 0x7fff_ffff_ffff_ffff by {
                    if j < sids@.len() - 1 {
                        assert(counts@[j] == counts0[j] && sums@[j] == sums0[j]
                            && passeds@[j] == passeds0[j]);
                        assert(counts0[j] as int == subj_count(records@.take(i as int), sids0[j]));
                    }
                }
            }
        }
        i += 1;
    }
    proof {
        assert(records@.take(n as int) =~= records@);
    }
    (sids, names, counts, sums, passeds)
}

/// Orders summaries by average score descending, keeping exactly the same
/// entries.
#[verifier::loop_isolation(false)]
#[verifier::rlimit(60)]
fn sort_by_average(v: Vec<SubjectPerformance>) -> (r: Vec<SubjectPerformance>)
    ensures
        r@.to_multiset() == v@.to_multiset(),
        r@.len() == v@.len(),
        forall|k1: int, k2: int| 0 <= k1 < k2 < r@.len()
            ==> r@[k1].average_score >= r@[k2].average_score,
{
    let ghost built0 = v@;
    let mut built = v;
    let mut out: Vec<SubjectPerformance> = Vec::new();
    proof {
        out@.to_multiset_ensures();
        assert(out@.to_multiset() =~= Multiset::<SubjectPerformance>::empty());
        assert(out@.to_multiset().add(built@.to_multiset()) =~= built0.to_multiset());
    }
    while built.len() > 0
        invariant
            out@.len() + built@.len() == built0.len(),
            out@.to_multiset().add(built@.to_multiset()) == built0.to_multiset(),
            forall|k1: int, k2: int| 0 <= k1 < k2 < out@.len()
                ==> out@[k1].average_score >= out@[k2].average_score,
            forall|k1: int, k2: int| 0 <= k1 < out@.len() && 0 <= k2 < built@.len()
                ==> out@[k1].average_score >= built@[k2].average_score,
        decreases built@.len(),
    {
        let mut m: usize = 0;
        let mut f: usize = 1;
        while f < built.len()
            invariant
                m < f <= built@.len() || (f <= built@.len() && m == 0),
                m < built@.len(),
                forall|k: int| 0 <= k < f ==> built@[m as int].average_score
                    >= (#[trigger] built@[k]).average_score,
            decreases built@.len() - f,
        {
            if built[f].average_score > built[m].average_score {
                m = f;
            }
            f += 1;
        }
        let ghost preb = built@;
        let ghost preo = out@;
        let x = built.remove(m);
        out.push(x);
        proof {
            preb.to_multiset_ensures();
            preo.to_multiset_ensures();
            assert(preb.to_multiset().contains(preb[m as int])) by {
                assert(preb.contains(preb[m as int]));
            }
            assert(built@.to_multiset() =~= preb.to_multiset().remove(x));
            assert(out@.to_multiset() =~= preo.to_multiset().insert(x));
            assert(out@.to_multiset().add(built@.to_multiset()) =~= built0.to_multiset());
            assert forall|k2: int| 0 <= k2 < built@.len()
                implies x.average_score >= (#[trigger] built@[k2]).average_score by {
                if k2 < m {
                    assert(built@[k2] == preb[k2]);
                } else {
                    assert(built@[k2] == preb[k2 + 1]);
                }
            }
        }
    }
    proof {
        built0.to_multiset_ensures();
        out@.to_multiset_ensures();
        assert(out@.to_multiset() =~= built0.to_multiset());
        assert(out@.len() == built0.len()) by {
            assert(out@.to_multiset().len() == built0.to_multiset().len());
        }
    }
    out
}

/// The summaries of exam attempts grouped by subject, ordered by average
/// score descending.  Pure: the caller supplies the joined attempt records.
#[verifier::loop_isolation(false)]
#[verifier::rlimit(100)]
pub fn subject_performance_from(records: &Vec<ExamAttemptRecord>) -> (r: Vec<SubjectPerformance>)
    ensures
        subject_report_of(records@, r@),
{
    let n = records.len();
    let (sids, names, counts, sums, passeds) = group_subjects(records);
    // build the unsorted summaries
    let mut built: Vec<SubjectPerformance> = Vec::new();
    let mut j: usize = 0;
    while j < sids.len()
        invariant
            j <= sids@.len(),
            built@.len() == j,
            sids@.len() == names@.len() && sids@.len() == counts@.len()
                && sids@.len() == sums@.len() && sids@.len() == passeds@.len(),
            sids@ == distinct_subjects(records@),
            forall|j2: int| 0 <= j2 < sids@.len() ==> {
                &&& counts@[j2] as int == subj_count(records@, #[trigger] sids@[j2])
                &&& sums@[j2] as int == subj_sum(records@, sids@[j2])
                &&& passeds@[j2] as int == subj_passed(records@, sids@[j2])
                &&& counts@[j2] <= n
                &&& passeds@[j2] <= counts@[j2]
                &&& 1 <= counts@[j2]
                &&& -((counts@[j2] as int) * 0x8000_0000_0000_0000)
                    <= sums@[j2] as int <= (counts@[j2] as int) * 0x7fff_ffff_ffff_ffff
                &&& exists|x: int| 0 <= x < records@.len() && (#[trigger] records@[x]).subject_id == sids@[j2]
                    && records@[x].subject_name@ == names@[j2]@
            },
            forall|k: int| 0 <= k < j ==> subject_summary_of(records@, sids@[k], #[trigger] built@[k]),
        decreases sids@.len() - j,
    {
        let c = counts[j];
        let s = sums[j];
        let p = passeds[j];
        proof {
            let sidj = sids@[j as int];
            assert(1 <= counts@[j as int] && counts@[j as int] <= n
                && passeds@[j as int] <= counts@[j as int]
                && counts@[j as int] as int == subj_count(records@, sidj)
                && sums@[j as int] as int == subj_sum(records@, sidj)
                && passeds@[j as int] as int == subj_passed(records@, sidj)
                && -((counts@[j as int] as int) * 0x8000_0000_0000_0000)
                    <= sums@[j as int] as int
                && sums@[j as int] as int <= (counts@[j as int] as int) * 0x7fff_ffff_ffff_ffff);
            assert((c as i128) > 0);
            assert((s as int) > i128::MIN as int) by {
                assert(-((c as int) * 0x8000_0000_0000_0000) <= s as int);
            }
        }
        let avg128 = div_i128_trunc(s, c as i128);
        proof {
            // the truncated mean of values within a range stays within it
            if s >= 0 {
                lemma_div_is_ordered(s as int, (c as int) * 0x7fff_ffff_ffff_ffff, c as int);
                lemma_div_by_multiple(0x7fff_ffff_ffff_ffff, c as int);
                lemma_div_is_ordered(0, s as int, c as int);
            } else {
                lemma_div_is_ordered(-(s as int), (c as int) * 0x8000_0000_0000_0000, c as int);
                lemma_div_by_multiple(0x8000_0000_0000_0000, c as int);
                lemma_div_is_ordered(0, -(s as int), c as int);
            }
        }
        let avg = avg128 as i64;
        let pr128 = ((p as u128) * 10000) / (c as u128);
        proof {
            lemma_div_is_ordered((p as int) * 10000, (c as int) * 10000, c as int);
            lemma_div_by_multiple(10000, c as int);
            lemma_div_is_ordered(0, (p as int) * 10000, c as int);
        }
        let pass_rate = pr128 as i64;
        let attempts: i32 = if c > 0x7fff_ffff { 0x7fff_ffff } else { c as i32 };
        built.push(SubjectPerformance {
            subject_name: names[j].clone(),
            attempts: attempts,
            average_score: avg,
            pass_rate: pass_rate,
        });
        proof {
            reveal(subject_summary_of);
            let sidj = sids@[j as int];
            let entry = built@.last();
            assert(entry.subject_name@ == names@[j as int]@);
            assert(subj_count(records@, sidj) > 0);
            assert(exists|x: int| 0 <= x < records@.len()
                && (#[trigger] records@[x]).subject_id == sidj
                && records@[x].subject_name@ == entry.subject_name@) by {
                let x0 = choose|x: int| 0 <= x < records@.len()
                    && (#[trigger] records@[x]).subject_id == sidj
                    && records@[x].subject_name@ == names@[j as int]@;
                assert(records@[x0].subject_id == sidj);
            }
            assert(entry.attempts as int == sat_count(subj_count(records@, sidj)));
            assert(entry.average_score as int
                == div_trunc(subj_sum(records@, sidj), subj_count(records@, sidj)));
            assert(entry.pass_rate as int
                == subj_passed(records@, sidj) * 10000 / subj_count(records@, sidj));
            assert(subject_summary_of(records@, sidj, entry));
        }
        j += 1;
    }
    proof {
        assert forall|k: int| #![trigger built@[k]] 0 <= k < built@.len()
            implies exists|sid: i64| #[trigger] subject_summary_of(records@, sid, built@[k]) by {
            assert(subject_summary_of(records@, sids@[k], built@[k]));
        }
    }
    let ghost built0 = built@;
    let out = sort_by_average(built);
    proof {
        lemma_subject_report(records@, sids@, built0, out@);
    }
    out
}

/// From sorted, multiset-equal summaries of all distinct subjects, the
/// whole report contract follows.
#[verifier::spinoff_prover]
proof fn lemma_subject_report(
    records: Seq<ExamAttemptRecord>,
    sids: Seq<i64>,
    built0: Seq<SubjectPerformance>,
    out: Seq<SubjectPerformance>,
)
    requires
        out.to_multiset() == built0.to_multiset(),
        out.len() == built0.len(),
        forall|k1: int, k2: int| 0 <= k1 < k2 < out.len()
            ==> out[k1].average_score >= out[k2].average_score,
        sids == distinct_subjects(records),
        built0.len() == sids.len(),
        forall|k: int| 0 <= k < built0.len()
            ==> subject_summary_of(records, sids[k], #[trigger] built0[k]),
    ensures
        subject_report_of(records, out),
{
    built0.to_multiset_ensures();
    out.to_multiset_ensures();
    assert forall|k: int| 0 <= k < out.len()
        implies has_subject_summary(records, #[trigger] out[k]) by {
        assert(out.contains(out[k]));
        assert(out.to_multiset().count(out[k]) > 0);
        assert(built0.to_multiset().count(out[k]) > 0);
        assert(built0.contains(out[k]));
        let k0 = choose|k0: int| 0 <= k0 < built0.len() && built0[k0] == out[k];
        assert(subject_summary_of(records, sids[k0], built0[k0]));
        assert(subject_summary_of(records, sids[k0], out[k]));
    }
    assert forall|sid: i64| subj_count(records, sid) > 0
        implies exists|k: int| 0 <= k < out.len()
            && #[trigger] subject_summary_of(records, sid, out[k]) by {
        lemma_distinct_iff_count(records, sid);
        let k0 = choose|k0: int| 0 <= k0 < sids.len() && sids[k0] == sid;
        assert(subject_summary_of(records, sid, built0[k0]));
        assert(built0.contains(built0[k0]));
        assert(built0.to_multiset().count(built0[k0]) > 0);
        assert(out.to_multiset().count(built0[k0]) > 0);
        assert(out.contains(built0[k0]));
        let k = choose|k: int| 0 <= k < out.len() && out[k] == built0[k0];
        assert(subject_summary_of(records, sid, out[k]));
    }
}

/// Per-subject performance over every stored exam attempt: fetches the
/// joined records and folds them, entirely in verified code.
pub fn get_subject_performance(conn: &rusqlite::Connection) -> (r: Result<Vec<SubjectPerformance>, StoreError>)
    ensures
        r matches Ok(v) ==> exists|recs: Seq<ExamAttemptRecord>|
            #[trigger] lists_exam_attempt_records(db(*conn).cur, recs)
                && subject_report_of(recs, v@),
        r matches Err(e) ==> !(e is NotFound),
{
    let recs = match select_exam_attempt_records_raw(conn) {
        Ok(recs) => recs,
        Err(e) => return Err(e),
    };
    let out = subject_performance_from(&recs);
    proof {
        assert(lists_exam_attempt_records(db(*conn).cur, recs@)
            && subject_report_of(recs@, out@));
    }
    Ok(out)
}

// ---------------------------------------------------------------- topics

// Per-topic folds over quiz attempts.

pub open spec fn top_count(rows: Seq<QuizAttemptRecord>, sid: i64) -> int
    decreases rows.len(),
{
    if rows.len() == 0 {
        0
    } else {
        top_count(rows.drop_last(), sid) + if rows.last().topic_id == sid {
            1int
        } else {
            0int
        }
    }
}

pub open spec fn top_sum(rows: Seq<QuizAttemptRecord>, sid: i64) -> int
    decreases rows.len(),
{
    if rows.len() == 0 {
        0
    } else {
        top_sum(rows.drop_last(), sid) + if rows.last().topic_id == sid {
            rows.last().percentage as int
        } else {
            0int
        }
    }
}

/// How many attempts of the topic met or exceeded their quiz's passing
/// score (both in hundredths).
pub open spec fn top_passed(rows: Seq<QuizAttemptRecord>, sid: i64) -> int
    decreases rows.len(),
{
    if rows.len() == 0 {
        0
    } else {
        top_passed(rows.drop_last(), sid) + if rows.last().topic_id == sid
            && rows.last().percentage >= rows.last().passing_score_percent * 100 {
            1int
        } else {
            0int
        }
    }
}

/// The topics that appear, in order of first appearance.
pub open spec fn distinct_topics(rows: Seq<QuizAttemptRecord>) -> Seq<i64>
    decreases rows.len(),
{
    if rows.len() == 0 {
        Seq::empty()
    } else {
        let rest = distinct_topics(rows.drop_last());
        if rest.contains(rows.last().topic_id) {
            rest
        } else {
            rest.push(rows.last().topic_id)
        }
    }
}

/// One summary entry is exactly the fold of its topic's attempts: count
/// (saturated into its field), truncated mean, pass rate out of 10000, and
/// a group member's topic and subject names.  Opaque: reveal it to reason
/// about the fields; the report-level contracts move it around whole.
#[verifier::opaque]
pub open spec fn topic_summary_of(rows: Seq<QuizAttemptRecord>, sid: i64, p: TopicPerformance) -> bool {
    &&& top_count(rows, sid) > 0
    &&& exists|x: int| 0 <= x < rows.len() && (#[trigger] rows[x]).topic_id == sid
            && rows[x].topic_name@ == p.topic_name@ && rows[x].subject_name@ == p.subject_name@
    &&& p.attempts as int == sat_count(top_count(rows, sid))
    &&& p.average_score as int == div_trunc(top_sum(rows, sid), top_count(rows, sid))
    &&& p.pass_rate as int == top_passed(rows, sid) * 10000 / top_count(rows, sid)
}

/// The entry summarises one of the topics.
pub open spec fn has_topic_summary(rows: Seq<QuizAttemptRecord>, p: TopicPerformance) -> bool {
    exists|sid: i64| #[trigger] topic_summary_of(rows, sid, p)
}

/// The whole report: every entry summarises some topic with attempts,
/// every topic with attempts is summarised, one entry per such topic,
/// ordered by average score descending.
pub open spec fn topic_report_of(rows: Seq<QuizAttemptRecord>, v: Seq<TopicPerformance>) -> bool {
    &&& forall|k: int| 0 <= k < v.len() ==> has_topic_summary(rows, #[trigger] v[k])
    &&& forall|sid: i64| top_count(rows, sid) > 0
            ==> exists|k: int| 0 <= k < v.len() && #[trigger] topic_summary_of(rows, sid, v[k])
    &&& forall|k1: int, k2: int| 0 <= k1 < k2 < v.len()
            ==> v[k1].average_score >= v[k2].average_score
    &&& v.len() == distinct_topics(rows).len()
}

proof fn lemma_top_take_step(rows: Seq<QuizAttemptRecord>, i: int, sid: i64)
    requires
        0 <= i < rows.len(),
    ensures
        top_count(rows.take(i + 1), sid) == top_count(rows.take(i), sid)
            + if rows[i].topic_id == sid { 1int } else { 0int },
        top_sum(rows.take(i + 1), sid) == top_sum(rows.take(i), sid)
            + if rows[i].topic_id == sid { rows[i].percentage as int } else { 0int },
        top_passed(rows.take(i + 1), sid) == top_passed(rows.take(i), sid)
            + if rows[i].topic_id == sid
                && rows[i].percentage >= rows[i].passing_score_percent * 100 { 1int } else { 0int },
        distinct_topics(rows.take(i + 1))
            == if distinct_topics(rows.take(i)).contains(rows[i].topic_id) {
                distinct_topics(rows.take(i))
            } else {
                distinct_topics(rows.take(i)).push(rows[i].topic_id)
            },
{
    assert(rows.take(i + 1).drop_last() =~= rows.take(i));
    assert(rows.take(i + 1).last() == rows[i]);
}

/// A topic appears among the distinct topics exactly when it has an
/// attempt.
proof fn lemma_distinct_topics_iff_count(rows: Seq<QuizAttemptRecord>, sid: i64)
    ensures
        distinct_topics(rows).contains(sid) <==> top_count(rows, sid) > 0,
        top_count(rows, sid) >= 0,
    decreases rows.len(),
{
    if rows.len() > 0 {
        lemma_distinct_topics_iff_count(rows.drop_last(), sid);
        let rest = distinct_topics(rows.drop_last());
        if rows.last().topic_id == sid {
            if !rest.contains(sid) {
                assert(rest.push(sid)[rest.len() as int] == sid);
            }
        } else {
            if rest.contains(sid) {
                let j = choose|j: int| 0 <= j < rest.len() && rest[j] == sid;
                if !rest.contains(rows.last().topic_id) {
                    assert(rest.push(rows.last().topic_id)[j] == sid);
                }
            } else {
                if !rest.contains(rows.last().topic_id) {
                    let p2 = rest.push(rows.last().topic_id);
                    if p2.contains(sid) {
                        let j = choose|j: int| 0 <= j < p2.len() && p2[j] == sid;
                        assert(j < rest.len() ==> rest[j] == sid);
                    }
                }
            }
        }
    }
}

/// Folds over a group stay within the obvious bounds.
proof fn lemma_top_bounds(rows: Seq<QuizAttemptRecord>, sid: i64)
    ensures
        0 <= top_passed(rows, sid) <= top_count(rows, sid) <= rows.len(),
        top_count(rows, sid) == 0 ==> top_sum(rows, sid) == 0,
        -(top_count(rows, sid) * 0x8000_0000_0000_0000) <= top_sum(rows, sid)
            <= top_count(rows, sid) * 0x7fff_ffff_ffff_ffff,
    decreases rows.len(),
{
    if rows.len() > 0 {
        lemma_top_bounds(rows.drop_last(), sid);
    }
}

/// Folds the attempt records into per-topic groups: distinct topics in
/// order of first appearance, with the member names, the attempt count, the
/// percentage sum and the passed count of each.
#[verifier::loop_isolation(false)]
#[verifier::rlimit(100)]
fn group_topics(records: &Vec<QuizAttemptRecord>) -> (r: (Vec<i64>, Vec<String>, Vec<String>, Vec<usize>, Vec<i128>, Vec<usize>))
    ensures
        r.0@ == distinct_topics(records@),
        r.0@.no_duplicates(),
        r.0@.len() == r.1@.len() && r.0@.len() == r.2@.len() && r.0@.len() == r.3@.len()
            && r.0@.len() == r.4@.len() && r.0@.len() == r.5@.len(),
        forall|j: int| 0 <= j < r.0@.len() ==> {
            &&& r.3@[j] as int == top_count(records@, #[trigger] r.0@[j])
            &&& r.4@[j] as int == top_sum(records@, r.0@[j])
            &&& r.5@[j] as int == top_passed(records@, r.0@[j])
            &&& r.3@[j] <= records@.len()
            &&& r.5@[j] <= r.3@[j]
            &&& 1 <= r.3@[j]
            &&& -((r.3@[j] as int) * 0x8000_0000_0000_0000)
                <= r.4@[j] as int <= (r.3@[j] as int) * 0x7fff_ffff_ffff_ffff
            &&& exists|x: int| 0 <= x < records@.len() && (#[trigger] records@[x]).topic_id == r.0@[j]
                && records@[x].topic_name@ == r.1@[j]@ && records@[x].subject_name@ == r.2@[j]@
        },
{
    let n = records.len();
    let mut sids: Vec<i64> = Vec::new();
    let mut names: Vec<String> = Vec::new();
    let mut snames: Vec<String> = Vec::new();
    let mut counts: Vec<usize> = Vec::new();
    let mut sums: Vec<i128> = Vec::new();
    let mut passeds: Vec<usize> = Vec::new();
    let mut i: usize = 0;
    while i < n
        invariant
            i <= n,
            sids@.len() == names@.len() && sids@.len() == snames@.len()
                && sids@.len() == counts@.len()
                && sids@.len() == sums@.len() && sids@.len() == passeds@.len(),
            sids@ == distinct_topics(records@.take(i as int)),
            sids@.no_duplicates(),
            forall|j: int| 0 <= j < sids@.len() ==> {
                &&& counts@[j] as int == top_count(records@.take(i as int), #[trigger] sids@[j])
                &&& sums@[j] as int == top_sum(records@.take(i as int), sids@[j])
                &&& passeds@[j] as int == top_passed(records@.take(i as int), sids@[j])
                &&& counts@[j] <= i
                &&& passeds@[j] <= counts@[j]
                &&& 1 <= counts@[j]
                &&& -((counts@[j] as int) * 0x8000_0000_0000_0000)
                    <= sums@[j] as int <= (counts@[j] as int) * 0x7fff_ffff_ffff_ffff
                &&& exists|x: int| 0 <= x < i && (#[trigger] records@[x]).topic_id == sids@[j]
                    && records@[x].topic_name@ == names@[j]@
                    && records@[x].subject_name@ == snames@[j]@
            },
        decreases n - i,
    {
        let key = records[i].topic_id;
        let mut f: usize = 0;
        let mut found: bool = false;
        while f < sids.len() && !found
            invariant
                f <= sids@.len(),
                found ==> f < sids@.len() && sids@[f as int] == key,
                !found ==> forall|j: int| 0 <= j < f ==> sids@[j] != key,
            decreases sids@.len() - f + (if found { 0int } else { 1int }),
        {
            if sids[f] == key {
                found = true;
            } else {
                f += 1;
            }
        }
        proof {
            assert(records@.take(i as int + 1)[i as int] == records@[i as int]);
        }
        if found {
            let passed_inc: usize = if records[i].percentage
                >= (records[i].passing_score_percent as i64) * 100 { 1 } else { 0 };
            let ghost counts0 = counts@;
            let ghost sums0 = sums@;
            let ghost passeds0 = passeds@;
            let c0 = counts[f];
            let s0 = sums[f];
            let p0 = passeds[f];
            counts.set(f, c0 + 1);
            sums.set(f, s0 + records[i].percentage as i128);
            passeds.set(f, p0 + passed_inc);
            proof {
                assert forall|j: int| 0 <= j < sids@.len() implies {
                    &&& counts@[j] as int == top_count(records@.take(i as int + 1), #[trigger] sids@[j])
                    &&& sums@[j] as int == top_sum(records@.take(i as int + 1), sids@[j])
                    &&& passeds@[j] as int == top_passed(records@.take(i as int + 1), sids@[j])
                } by {
                    lemma_top_take_step(records@, i as int, sids@[j]);
                    if j != f {
                        assert(sids@[j] != sids@[f as int]);
                        assert(counts@[j] == counts0[j] && sums@[j] == sums0[j]
                            && passeds@[j] == passeds0[j]);
                    } else {
                        assert(counts@[j] == c0 + 1);
                    }
                }
                lemma_top_take_step(records@, i as int, key);
                assert(sids@ == distinct_topics(records@.take(i as int + 1))) by {
                    assert(sids@[f as int] == key);
                    assert(distinct_topics(records@.take(i as int)).contains(key));
                }
                assert forall|j: int| #![trigger sids@[j]] 0 <= j < sids@.len() implies
                    exists|x: int| 0 <= x < i + 1 && (#[trigger] records@[x]).topic_id == sids@[j]
                        && records@[x].topic_name@ == names@[j]@
                        && records@[x].subject_name@ == snames@[j]@ by {
                    let x0 = choose|x: int| 0 <= x < i && (#[trigger] records@[x]).topic_id
                        == sids@[j] && records@[x].topic_name@ == names@[j]@
                        && records@[x].subject_name@ == snames@[j]@;
                    assert(records@[x0].topic_id == sids@[j]);
                }
                assert forall|j: int| 0 <= j < sids@.len() implies
                    counts@[j] <= i + 1 && passeds@[j] <= counts@[j] && 1 <= counts@[j]
                    && -((counts@[j] as int) * 0x8000_0000_0000_0000) <= sums@[j] as int
                    && sums@[j] as int <= (counts@[j] as int) * 0x7fff_ffff_ffff_ffff by {
                    if j != f {
                        assert(counts@[j] == counts0[j] && sums@[j] == sums0[j]
                            && passeds@[j] == passeds0[j]);
                        assert(counts0[j] as int == top_count(records@.take(i as int), sids@[j]));
                    } else {
                        assert(counts@[j] == c0 + 1 && sums@[j] as int == s0 as int
                            + records@[i as int].percentage as int && passeds@[j] == p0 + passed_inc);
                        assert(counts0[f as int] as int == top_count(records@.take(i as int), sids@[f as int]));
                    }
                }
            }
        } else {
            proof {
                assert forall|j: int| 0 <= j < sids@.len() implies sids@[j] != key by {}
                assert(!sids@.contains(key)) by {
                    if sids@.contains(key) {
                        let j = choose|j: int| 0 <= j < sids@.len() && sids@[j] == key;
                    }
                }
                lemma_distinct_topics_iff_count(records@.take(i as int), key);
            }
            let passed_inc: usize = if records[i].percentage
                >= (records[i].passing_score_percent as i64) * 100 { 1 } else { 0 };
            let ghost sids0 = sids@;
            let ghost names0 = names@;
            let ghost snames0 = snames@;
            let ghost counts0 = counts@;
            let ghost sums0 = sums@;
            let ghost passeds0 = passeds@;
            proof {
                assert(top_count(records@.take(i as int), key) == 0);
                lemma_top_bounds(records@.take(i as int), key);
            }
            sids.push(key);
            names.push(records[i].topic_name.clone());
            snames.push(records[i].subject_name.clone());
            counts.push(1);
            sums.push(records[i].percentage as i128);
            passeds.push(passed_inc);
            proof {
                crate::questions::lemma_push_no_dup(sids0, key);
                assert(sids@ == sids0.push(key));
                assert forall|j: int| 0 <= j < sids@.len() implies {
                    &&& counts@[j] as int == top_count(records@.take(i as int + 1), #[trigger] sids@[j])
                    &&& sums@[j] as int == top_sum(records@.take(i as int + 1), sids@[j])
                    &&& passeds@[j] as int == top_passed(records@.take(i as int + 1), sids@[j])
                } by {
                    lemma_top_take_step(records@, i as int, sids@[j]);
                    if j < sids@.len() - 1 {
                        assert(sids@[j] == sids0[j]);
                        assert(sids0[j] != key);
                        assert(counts@[j] == counts0[j] && sums@[j] == sums0[j]
                            && passeds@[j] == passeds0[j]);
                    } else {
                        assert(sids@[j] == key);
                        assert(top_count(records@.take(i as int), key) == 0);
                    }
                }
                lemma_top_take_step(records@, i as int, key);
                assert forall|j: int| #![trigger sids@[j]] 0 <= j < sids@.len() implies
                    exists|x: int| 0 <= x < i + 1 && (#[trigger] records@[x]).topic_id == sids@[j]
                        && records@[x].topic_name@ == names@[j]@
                        && records@[x].subject_name@ == snames@[j]@ by {
                    if j < sids@.len() - 1 {
                        assert(sids@[j] == sids0[j] && names@[j] == names0[j]
                            && snames@[j] == snames0[j]);
                        let x0 = choose|x: int| 0 <= x < i && (#[trigger] records@[x]).topic_id
                            == sids0[j] && records@[x].topic_name@ == names0[j]@
                            && records@[x].subject_name@ == snames0[j]@;
                        assert(records@[x0].topic_id == sids@[j]);
                    } else {
                        assert(records@[i as int].topic_id == sids@[j]);
                        assert(records@[i as int].topic_name@ == names@[j]@);
                        assert(records@[i as int].subject_name@ == snames@[j]@);
                    }
                }
                assert forall|j: int| 0 <= j < sids@.len() implies
                    counts@[j] <= i + 1 && passeds@[j] <= counts@[j] && 1 <= counts@[j]
                    && -((counts@[j] as int) * 0x8000_0000_0000_0000) <= sums@[j] as int
                    && sums@[j] as int <= (counts@[j] as int) * 0x7fff_ffff_ffff_ffff by {
                    if j < sids@.len() - 1 {
                        assert(counts@[j] == counts0[j] && sums@[j] == sums0[j]
                            && passeds@[j] == passeds0[j]);
                        assert(counts0[j] as int == top_count(records@.take(i as int), sids0[j]));
                    }
                }
            }
        }
        i += 1;
    }
    proof {
        assert(records@.take(n as int) =~= records@);
    }
    (sids, names, snames, counts, sums, passeds)
}

/// Orders summaries by average score descending, keeping exactly the same
/// entries.
#[verifier::loop_isolation(false)]
#[verifier::rlimit(60)]
fn sort_topics_by_average(v: Vec<TopicPerformance>) -> (r: Vec<TopicPerformance>)
    ensures
        r@.to_multiset() == v@.to_multiset(),
        r@.len() == v@.len(),
        forall|k1: int, k2: int| 0 <= k1 < k2 < r@.len()
            ==> r@[k1].average_score >= r@[k2].average_score,
{
    let ghost built0 = v@;
    let mut built = v;
    let mut out: Vec<TopicPerformance> = Vec::new();
    proof {
        out@.to_multiset_ensures();
        assert(out@.to_multiset() =~= Multiset::<TopicPerformance>::empty());
        assert(out@.to_multiset().add(built@.to_multiset()) =~= built0.to_multiset());
    }
    while built.len() > 0
        invariant
            out@.len() + built@.len() == built0.len(),
            out@.to_multiset().add(built@.to_multiset()) == built0.to_multiset(),
            forall|k1: int, k2: int| 0 <= k1 < k2 < out@.len()
                ==> out@[k1].average_score >= out@[k2].average_score,
            forall|k1: int, k2: int| 0 <= k1 < out@.len() && 0 <= k2 < built@.len()
                ==> out@[k1].average_score >= built@[k2].average_score,
        decreases built@.len(),
    {
        let mut m: usize = 0;
        let mut f: usize = 1;
        while f < built.len()
            invariant
                m < f <= built@.len() || (f <= built@.len() && m == 0),
                m < built@.len(),
                forall|k: int| 0 <= k < f ==> built@[m as int].average_score
                    >= (#[trigger] built@[k]).average_score,
            decreases built@.len() - f,
        {
            if built[f].average_score > built[m].average_score {
                m = f;
            }
            f += 1;
        }
        let ghost preb = built@;
        let ghost preo = out@;
        let x = built.remove(m);
        out.push(x);
        proof {
            preb.to_multiset_ensures();
            preo.to_multiset_ensures();
            assert(preb.to_multiset().contains(preb[m as int])) by {
                assert(preb.contains(preb[m as int]));
            }
            assert(built@.to_multiset() =~= preb.to_multiset().remove(x));
            assert(out@.to_multiset() =~= preo.to_multiset().insert(x));
            assert(out@.to_multiset().add(built@.to_multiset()) =~= built0.to_multiset());
            assert forall|k2: int| 0 <= k2 < built@.len()
                implies x.average_score >= (#[trigger] built@[k2]).average_score by {
                if k2 < m {
                    assert(built@[k2] == preb[k2]);
                } else {
                    assert(built@[k2] == preb[k2 + 1]);
                }
            }
        }
    }
    proof {
        built0.to_multiset_ensures();
        out@.to_multiset_ensures();
        assert(out@.to_multiset() =~= built0.to_multiset());
        assert(out@.len() == built0.len()) by {
            assert(out@.to_multiset().len() == built0.to_multiset().len());
        }
    }
    out
}

/// The summaries of quiz attempts grouped by topic, ordered by average
/// score descending.  Pure: the caller supplies the joined attempt records.
#[verifier::loop_isolation(false)]
#[verifier::rlimit(100)]
pub fn topic_performance_from(records: &Vec<QuizAttemptRecord>) -> (r: Vec<TopicPerformance>)
    ensures
        topic_report_of(records@, r@),
{
    let n = records.len();
    let (sids, names, snames, counts, sums, passeds) = group_topics(records);
    // build the unsorted summaries
    let mut built: Vec<TopicPerformance> = Vec::new();
    let mut j: usize = 0;
    while j < sids.len()
        invariant
            j <= sids@.len(),
            built@.len() == j,
            sids@.len() == names@.len() && sids@.len() == snames@.len()
                && sids@.len() == counts@.len()
                && sids@.len() == sums@.len() && sids@.len() == passeds@.len(),
            sids@ == distinct_topics(records@),
            forall|j2: int| 0 <= j2 < sids@.len() ==> {
                &&& counts@[j2] as int == top_count(records@, #[trigger] sids@[j2])
                &&& sums@[j2] as int == top_sum(records@, sids@[j2])
                &&& passeds@[j2] as int == top_passed(records@, sids@[j2])
                &&& counts@[j2] <= n
                &&& passeds@[j2] <= counts@[j2]
                &&& 1 <= counts@[j2]
                &&& -((counts@[j2] as int) * 0x8000_0000_0000_0000)
                    <= sums@[j2] as int <= (counts@[j2] as int) * 0x7fff_ffff_ffff_ffff
                &&& exists|x: int| 0 <= x < records@.len() && (#[trigger] records@[x]).topic_id == sids@[j2]
                    && records@[x].topic_name@ == names@[j2]@
                    && records@[x].subject_name@ == snames@[j2]@
            },
            forall|k: int| 0 <= k < j ==> topic_summary_of(records@, sids@[k], #[trigger] built@[k]),
        decreases sids@.len() - j,
    {
        let c = counts[j];
        let s = sums[j];
        let p = passeds[j];
        proof {
            let sidj = sids@[j as int];
            assert(1 <= counts@[j as int] && counts@[j as int] <= n
                && passeds@[j as int] <= counts@[j as int]
                && counts@[j as int] as int == top_count(records@, sidj)
                && sums@[j as int] as int == top_sum(records@, sidj)
                && passeds@[j as int] as int == top_passed(records@, sidj)
                && -((counts@[j as int] as int) * 0x8000_0000_0000_0000)
                    <= sums@[j as int] as int
                && sums@[j as int] as int <= (counts@[j as int] as int) * 0x7fff_ffff_ffff_ffff);
            assert((c as i128) > 0);
            assert((s as int) > i128::MIN as int) by {
                assert(-((c as int) * 0x8000_0000_0000_0000) <= s as int);
            }
        }
        let avg128 = div_i128_trunc(s, c as i128);
        proof {
            // the truncated mean of values within a range stays within it
            if s >= 0 {
                lemma_div_is_ordered(s as int, (c as int) * 0x7fff_ffff_ffff_ffff, c as int);
                lemma_div_by_multiple(0x7fff_ffff_ffff_ffff, c as int);
                lemma_div_is_ordered(0, s as int, c as int);
            } else {
                lemma_div_is_ordered(-(s as int), (c as int) * 0x8000_0000_0000_0000, c as int);
                lemma_div_by_multiple(0x8000_0000_0000_0000, c as int);
                lemma_div_is_ordered(0, -(s as int), c as int);
            }
        }
        let avg = avg128 as i64;
        let pr128 = ((p as u128) * 10000) / (c as u128);
        proof {
            lemma_div_is_ordered((p as int) * 10000, (c as int) * 10000, c as int);
            lemma_div_by_multiple(10000, c as int);
            lemma_div_is_ordered(0, (p as int) * 10000, c as int);
        }
        let pass_rate = pr128 as i64;
        let attempts: i32 = if c > 0x7fff_ffff { 0x7fff_ffff } else { c as i32 };
        built.push(TopicPerformance {
            topic_name: names[j].clone(),
            subject_name: snames[j].clone(),
            attempts: attempts,
            average_score: avg,
            pass_rate: pass_rate,
        });
        proof {
            reveal(topic_summary_of);
            let sidj = sids@[j as int];
            let entry = built@.last();
            assert(entry.subject_name@ == snames@[j as int]@);
            assert(top_count(records@, sidj) > 0);
            assert(entry.topic_name@ == names@[j as int]@);
            assert(exists|x: int| 0 <= x < records@.len()
                && (#[trigger] records@[x]).topic_id == sidj
                && records@[x].topic_name@ == entry.topic_name@
                && records@[x].subject_name@ == entry.subject_name@) by {
                let x0 = choose|x: int| 0 <= x < records@.len()
                    && (#[trigger] records@[x]).topic_id == sidj
                    && records@[x].topic_name@ == names@[j as int]@
                    && records@[x].subject_name@ == snames@[j as int]@;
                assert(records@[x0].topic_id == sidj);
            }
            assert(entry.attempts as int == sat_count(top_count(records@, sidj)));
            assert(entry.average_score as int
                == div_trunc(top_sum(records@, sidj), top_count(records@, sidj)));
            assert(entry.pass_rate as int
                == top_passed(records@, sidj) * 10000 / top_count(records@, sidj));
            assert(topic_summary_of(records@, sidj, entry));
        }
        j += 1;
    }
    proof {
        assert forall|k: int| #![trigger built@[k]] 0 <= k < built@.len()
            implies exists|sid: i64| #[trigger] topic_summary_of(records@, sid, built@[k]) by {
            assert(topic_summary_of(records@, sids@[k], built@[k]));
        }
    }
    let ghost built0 = built@;
    let out = sort_topics_by_average(built);
    proof {
        lemma_topic_report(records@, sids@, built0, out@);
    }
    out
}

/// From sorted, multiset-equal summaries of all distinct topics, the
/// whole report contract follows.
#[verifier::spinoff_prover]
proof fn lemma_topic_report(
    records: Seq<QuizAttemptRecord>,
    sids: Seq<i64>,
    built0: Seq<TopicPerformance>,
    out: Seq<TopicPerformance>,
)
    requires
        out.to_multiset() == built0.to_multiset(),
        out.len() == built0.len(),
        forall|k1: int, k2: int| 0 <= k1 < k2 < out.len()
            ==> out[k1].average_score >= out[k2].average_score,
        sids == distinct_topics(records),
        built0.len() == sids.len(),
        forall|k: int| 0 <= k < built0.len()
            ==> topic_summary_of(records, sids[k], #[trigger] built0[k]),
    ensures
        topic_report_of(records, out),
{
    built0.to_multiset_ensures();
    out.to_multiset_ensures();
    assert forall|k: int| 0 <= k < out.len()
        implies has_topic_summary(records, #[trigger] out[k]) by {
        assert(out.contains(out[k]));
        assert(out.to_multiset().count(out[k]) > 0);
        assert(built0.to_multiset().count(out[k]) > 0);
        assert(built0.contains(out[k]));
        let k0 = choose|k0: int| 0 <= k0 < built0.len() && built0[k0] == out[k];
        assert(topic_summary_of(records, sids[k0], built0[k0]));
        assert(topic_summary_of(records, sids[k0], out[k]));
    }
    assert forall|sid: i64| top_count(records, sid) > 0
        implies exists|k: int| 0 <= k < out.len()
            && #[trigger] topic_summary_of(records, sid, out[k]) by {
        lemma_distinct_topics_iff_count(records, sid);
        let k0 = choose|k0: int| 0 <= k0 < sids.len() && sids[k0] == sid;
        assert(topic_summary_of(records, sid, built0[k0]));
        assert(built0.contains(built0[k0]));
        assert(built0.to_multiset().count(built0[k0]) > 0);
        assert(out.to_multiset().count(built0[k0]) > 0);
        assert(out.contains(built0[k0]));
        let k = choose|k: int| 0 <= k < out.len() && out[k] == built0[k0];
        assert(topic_summary_of(records, sid, out[k]));
    }
}

/// Per-topic performance over every stored quiz attempt, carrying the
/// owning subject's name: fetches the joined records and folds them,
/// entirely in verified code.
pub fn get_topic_performance(conn: &rusqlite::Connection) -> (r: Result<Vec<TopicPerformance>, StoreError>)
    ensures
        r matches Ok(v) ==> exists|recs: Seq<QuizAttemptRecord>|
            #[trigger] lists_quiz_attempt_records(db(*conn).cur, recs)
                && topic_report_of(recs, v@),
        r matches Err(e) ==> !(e is NotFound),
{
    let recs = match select_quiz_attempt_records_raw(conn) {
        Ok(recs) => recs,
        Err(e) => return Err(e),
    };
    let out = topic_performance_from(&recs);
    proof {
        assert(lists_quiz_attempt_records(db(*conn).cur, recs@)
            && topic_report_of(recs@, out@));
    }
    Ok(out)
}

} // verus!
