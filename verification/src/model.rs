//! Ghost model of the relational store.
//!
//! Every table of the database is modelled as a map from rowid to a ghost
//! image of the row's caller-visible columns (server-assigned timestamps are
//! not modelled).  The connection state `Db` carries the visible contents
//! (`cur`), the contents at the start of the open transaction (`base`),
//! whether a transaction is open, and whether foreign-key enforcement is on.

use vstd::prelude::*;

verus! {

pub ghost struct SubjectRow {
    pub name: Seq<char>,
    pub description: Option<Seq<char>>,
    pub color: Seq<char>,
    pub icon: Option<Seq<char>>,
}

pub ghost struct TopicRow {
    pub subject_id: i64,
    pub name: Seq<char>,
    pub description: Option<Seq<char>>,
    pub week_number: Option<i32>,
}

pub ghost struct QuestionRow {
    pub subject_id: i64,
    pub topic_id: i64,
    pub question_type: Seq<char>,
    pub question_text: Seq<char>,
    pub question_image_path: Option<Seq<char>>,
    pub explanation: Option<Seq<char>>,
    pub difficulty: Seq<char>,
    pub points: i32,
    pub source: Option<Seq<char>>,
}

pub ghost struct OptionRow {
    pub question_id: i64,
    pub option_text: Seq<char>,
    pub option_image_path: Option<Seq<char>>,
    pub is_correct: bool,
    pub display_order: i32,
}

/// A numeric tolerance is stored in millionths, so that the store holds no
/// floating-point column: 0.2 is stored as 200_000.
pub ghost struct BlankRow {
    pub question_id: i64,
    pub blank_index: i32,
    pub correct_answer: Seq<char>,
    pub acceptable_answers: Option<Seq<char>>,
    pub is_numeric: bool,
    pub numeric_tolerance: Option<i64>,
    pub unit: Option<Seq<char>>,
    pub input_type: Seq<char>,
    pub dropdown_options: Option<Seq<char>>,
}

pub ghost struct OrderItemRow {
    pub question_id: i64,
    pub item_text: Seq<char>,
    pub correct_position: i32,
}

pub ghost struct MatchRow {
    pub question_id: i64,
    pub left_item: Seq<char>,
    pub right_item: Seq<char>,
    pub left_image_path: Option<Seq<char>>,
    pub right_image_path: Option<Seq<char>>,
    pub display_order: i32,
}

pub ghost struct QuizRow {
    pub topic_id: i64,
    pub name: Seq<char>,
    pub description: Option<Seq<char>>,
    pub question_count: i32,
    pub time_limit_minutes: Option<i32>,
    pub shuffle_questions: bool,
    pub shuffle_options: bool,
    pub show_answers_after: Seq<char>,
    pub passing_score_percent: i32,
}

pub ghost struct ExamRow {
    pub subject_id: i64,
    pub name: Seq<char>,
    pub description: Option<Seq<char>>,
    pub total_question_count: i32,
    pub time_limit_minutes: Option<i32>,
    pub shuffle_questions: bool,
    pub shuffle_options: bool,
    pub show_answers_after: Seq<char>,
    pub passing_score_percent: i32,
}

pub ghost struct ExamTopicRow {
    pub exam_id: i64,
    pub topic_id: i64,
    pub question_count: i32,
}

/// An attempt percentage is stored in hundredths, so that the store holds no
/// floating-point column: 66.67 percent is stored as 6667.
pub ghost struct QuizAttemptRow {
    pub quiz_id: i64,
    pub score: i32,
    pub max_score: i32,
    pub percentage: i64,
    pub time_taken_seconds: i32,
}

pub ghost struct ExamAttemptRow {
    pub exam_id: i64,
    pub score: i32,
    pub max_score: i32,
    pub percentage: i64,
    pub time_taken_seconds: i32,
}

/// The visible contents of every table, keyed by rowid.
#[verifier::ext_equal]
pub ghost struct Tables {
    pub subjects: Map<i64, SubjectRow>,
    pub topics: Map<i64, TopicRow>,
    pub questions: Map<i64, QuestionRow>,
    pub options: Map<i64, OptionRow>,
    pub blanks: Map<i64, BlankRow>,
    pub order_items: Map<i64, OrderItemRow>,
    pub matches: Map<i64, MatchRow>,
    pub quizzes: Map<i64, QuizRow>,
    pub exams: Map<i64, ExamRow>,
    pub exam_topics: Map<i64, ExamTopicRow>,
    pub quiz_attempts: Map<i64, QuizAttemptRow>,
    pub exam_attempts: Map<i64, ExamAttemptRow>,
}

impl Tables {
    pub open spec fn empty() -> Tables {
        Tables {
            subjects: Map::empty(),
            topics: Map::empty(),
            questions: Map::empty(),
            options: Map::empty(),
            blanks: Map::empty(),
            order_items: Map::empty(),
            matches: Map::empty(),
            quizzes: Map::empty(),
            exams: Map::empty(),
            exam_topics: Map::empty(),
            quiz_attempts: Map::empty(),
            exam_attempts: Map::empty(),
        }
    }
}

/// The full state of one storage connection.
#[verifier::ext_equal]
pub ghost struct Db {
    /// Contents seen by statements issued now.
    pub cur: Tables,
    /// Contents at the start of the open transaction; equal to `cur` when no
    /// transaction is open.
    pub base: Tables,
    /// Whether a transaction is open.
    pub in_tx: bool,
    /// Whether foreign-key enforcement (and with it cascade deletion) is on.
    pub fk_on: bool,
}

/// The state after a successful statement took the visible contents to `t`:
/// outside a transaction the statement is its own atomic unit, so the
/// rollback point advances with it.
pub open spec fn stepped(d: Db, t: Tables) -> Db {
    Db { cur: t, base: if d.in_tx { d.base } else { t }, in_tx: d.in_tx, fk_on: d.fk_on }
}

/// The state after an open transaction was rolled back.
pub open spec fn aborted(d: Db) -> Db {
    Db { cur: d.base, base: d.base, in_tx: false, fk_on: d.fk_on }
}

/// A failed statement either changes nothing or, inside a transaction, may
/// abort the whole transaction (the storage engine does so for some errors).
pub open spec fn unchanged_or_aborted(d0: Db, d1: Db) -> bool {
    d1 == d0 || (d0.in_tx && d1 == aborted(d0))
}

/// A connection between operations: no transaction open, nothing pending,
/// cascade enforcement on.
pub open spec fn ready(d: Db) -> bool {
    &&& !d.in_tx
    &&& d.cur == d.base
    &&& d.fk_on
}

/// Referential integrity: every child row points at an existing parent.
pub open spec fn wf(t: Tables) -> bool {
    &&& forall|id: i64| #[trigger] t.topics.dom().contains(id)
            ==> t.subjects.dom().contains(t.topics[id].subject_id)
    &&& forall|id: i64| #[trigger] t.questions.dom().contains(id)
            ==> t.subjects.dom().contains(t.questions[id].subject_id)
                && t.topics.dom().contains(t.questions[id].topic_id)
    &&& forall|id: i64| #[trigger] t.options.dom().contains(id)
            ==> t.questions.dom().contains(t.options[id].question_id)
    &&& forall|id: i64| #[trigger] t.blanks.dom().contains(id)
            ==> t.questions.dom().contains(t.blanks[id].question_id)
    &&& forall|id: i64| #[trigger] t.order_items.dom().contains(id)
            ==> t.questions.dom().contains(t.order_items[id].question_id)
    &&& forall|id: i64| #[trigger] t.matches.dom().contains(id)
            ==> t.questions.dom().contains(t.matches[id].question_id)
    &&& forall|id: i64| #[trigger] t.quizzes.dom().contains(id)
            ==> t.topics.dom().contains(t.quizzes[id].topic_id)
    &&& forall|id: i64| #[trigger] t.exams.dom().contains(id)
            ==> t.subjects.dom().contains(t.exams[id].subject_id)
    &&& forall|id: i64| #[trigger] t.exam_topics.dom().contains(id)
            ==> t.exams.dom().contains(t.exam_topics[id].exam_id)
                && t.topics.dom().contains(t.exam_topics[id].topic_id)
    &&& forall|id: i64| #[trigger] t.quiz_attempts.dom().contains(id)
            ==> t.quizzes.dom().contains(t.quiz_attempts[id].quiz_id)
    &&& forall|id: i64| #[trigger] t.exam_attempts.dom().contains(id)
            ==> t.exams.dom().contains(t.exam_attempts[id].exam_id)
}

/// The invariant every public repository operation preserves.
pub open spec fn inv(d: Db) -> bool {
    ready(d) && wf(d.cur)
}

// Cascade deletion, table by table.  Each spec function below gives the set
// of rowids a cascading delete removes, mirroring the foreign-key graph of
// the schema.

pub open spec fn topics_of_subject(t: Tables, sid: i64) -> Set<i64> {
    t.topics.dom().filter(|id: i64| t.topics[id].subject_id == sid)
}

pub open spec fn questions_gone_subject(t: Tables, sid: i64) -> Set<i64> {
    t.questions.dom().filter(|id: i64|
        t.questions[id].subject_id == sid
            || topics_of_subject(t, sid).contains(t.questions[id].topic_id))
}

pub open spec fn quizzes_gone_subject(t: Tables, sid: i64) -> Set<i64> {
    t.quizzes.dom().filter(|id: i64| topics_of_subject(t, sid).contains(t.quizzes[id].topic_id))
}

pub open spec fn exams_of_subject(t: Tables, sid: i64) -> Set<i64> {
    t.exams.dom().filter(|id: i64| t.exams[id].subject_id == sid)
}

/// Rows of the four question-variant tables owned by a removed question.
pub open spec fn options_of_questions(t: Tables, qs: Set<i64>) -> Set<i64> {
    t.options.dom().filter(|id: i64| qs.contains(t.options[id].question_id))
}

pub open spec fn blanks_of_questions(t: Tables, qs: Set<i64>) -> Set<i64> {
    t.blanks.dom().filter(|id: i64| qs.contains(t.blanks[id].question_id))
}

pub open spec fn order_items_of_questions(t: Tables, qs: Set<i64>) -> Set<i64> {
    t.order_items.dom().filter(|id: i64| qs.contains(t.order_items[id].question_id))
}

pub open spec fn matches_of_questions(t: Tables, qs: Set<i64>) -> Set<i64> {
    t.matches.dom().filter(|id: i64| qs.contains(t.matches[id].question_id))
}

pub open spec fn quiz_attempts_of_quizzes(t: Tables, zs: Set<i64>) -> Set<i64> {
    t.quiz_attempts.dom().filter(|id: i64| zs.contains(t.quiz_attempts[id].quiz_id))
}

pub open spec fn exam_topics_gone(t: Tables, es: Set<i64>, ts: Set<i64>) -> Set<i64> {
    t.exam_topics.dom().filter(|id: i64|
        es.contains(t.exam_topics[id].exam_id) || ts.contains(t.exam_topics[id].topic_id))
}

pub open spec fn exam_attempts_of_exams(t: Tables, es: Set<i64>) -> Set<i64> {
    t.exam_attempts.dom().filter(|id: i64| es.contains(t.exam_attempts[id].exam_id))
}

/// The contents after `DELETE FROM subjects WHERE id = sid` with cascade on.
pub open spec fn cascade_delete_subject(t: Tables, sid: i64) -> Tables {
    let ts = topics_of_subject(t, sid);
    let qs = questions_gone_subject(t, sid);
    let zs = quizzes_gone_subject(t, sid);
    let es = exams_of_subject(t, sid);
    Tables {
        subjects: t.subjects.remove(sid),
        topics: t.topics.remove_keys(ts),
        questions: t.questions.remove_keys(qs),
        options: t.options.remove_keys(options_of_questions(t, qs)),
        blanks: t.blanks.remove_keys(blanks_of_questions(t, qs)),
        order_items: t.order_items.remove_keys(order_items_of_questions(t, qs)),
        matches: t.matches.remove_keys(matches_of_questions(t, qs)),
        quizzes: t.quizzes.remove_keys(zs),
        exams: t.exams.remove_keys(es),
        exam_topics: t.exam_topics.remove_keys(exam_topics_gone(t, es, ts)),
        quiz_attempts: t.quiz_attempts.remove_keys(quiz_attempts_of_quizzes(t, zs)),
        exam_attempts: t.exam_attempts.remove_keys(exam_attempts_of_exams(t, es)),
    }
}

pub open spec fn questions_of_topic(t: Tables, tid: i64) -> Set<i64> {
    t.questions.dom().filter(|id: i64| t.questions[id].topic_id == tid)
}

pub open spec fn quizzes_of_topic(t: Tables, tid: i64) -> Set<i64> {
    t.quizzes.dom().filter(|id: i64| t.quizzes[id].topic_id == tid)
}

/// The contents after `DELETE FROM topics WHERE id = tid` with cascade on.
pub open spec fn cascade_delete_topic(t: Tables, tid: i64) -> Tables {
    let qs = questions_of_topic(t, tid);
    let zs = quizzes_of_topic(t, tid);
    Tables {
        subjects: t.subjects,
        topics: t.topics.remove(tid),
        questions: t.questions.remove_keys(qs),
        options: t.options.remove_keys(options_of_questions(t, qs)),
        blanks: t.blanks.remove_keys(blanks_of_questions(t, qs)),
        order_items: t.order_items.remove_keys(order_items_of_questions(t, qs)),
        matches: t.matches.remove_keys(matches_of_questions(t, qs)),
        quizzes: t.quizzes.remove_keys(zs),
        exams: t.exams,
        exam_topics: t.exam_topics.remove_keys(exam_topics_gone(t, Set::empty(), set![tid])),
        quiz_attempts: t.quiz_attempts.remove_keys(quiz_attempts_of_quizzes(t, zs)),
        exam_attempts: t.exam_attempts,
    }
}

/// The contents after `DELETE FROM questions WHERE id = qid` with cascade on.
pub open spec fn cascade_delete_question(t: Tables, qid: i64) -> Tables {
    let qs = set![qid];
    Tables {
        questions: t.questions.remove(qid),
        options: t.options.remove_keys(options_of_questions(t, qs)),
        blanks: t.blanks.remove_keys(blanks_of_questions(t, qs)),
        order_items: t.order_items.remove_keys(order_items_of_questions(t, qs)),
        matches: t.matches.remove_keys(matches_of_questions(t, qs)),
        ..t
    }
}

/// The contents after `DELETE FROM quizzes WHERE id = zid` with cascade on.
pub open spec fn cascade_delete_quiz(t: Tables, zid: i64) -> Tables {
    Tables {
        quizzes: t.quizzes.remove(zid),
        quiz_attempts: t.quiz_attempts.remove_keys(quiz_attempts_of_quizzes(t, set![zid])),
        ..t
    }
}

pub open spec fn exam_topics_of_exam(t: Tables, eid: i64) -> Set<i64> {
    t.exam_topics.dom().filter(|id: i64| t.exam_topics[id].exam_id == eid)
}

/// The contents after `DELETE FROM exams WHERE id = eid` with cascade on.
pub open spec fn cascade_delete_exam(t: Tables, eid: i64) -> Tables {
    Tables {
        exams: t.exams.remove(eid),
        exam_topics: t.exam_topics.remove_keys(exam_topics_of_exam(t, eid)),
        exam_attempts: t.exam_attempts.remove_keys(exam_attempts_of_exams(t, set![eid])),
        ..t
    }
}

} // verus!
