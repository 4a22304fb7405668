//! Proofs that cascade deletion preserves referential integrity.

use vstd::prelude::*;
use crate::model::{
    Tables, wf,
    cascade_delete_subject, topics_of_subject, questions_gone_subject, quizzes_gone_subject,
    exams_of_subject,
    cascade_delete_topic, questions_of_topic, quizzes_of_topic,
    cascade_delete_quiz,
    cascade_delete_question, options_of_questions, blanks_of_questions,
    order_items_of_questions, matches_of_questions,
    cascade_delete_exam, exam_topics_of_exam,
};

verus! {

/// Deleting a subject with cascade leaves no dangling reference: every
/// surviving child row's parent survives with it.
pub proof fn lemma_cascade_subject_wf(t: Tables, sid: i64)
    requires
        wf(t),
    ensures
        wf(cascade_delete_subject(t, sid)),
{
    let t1 = cascade_delete_subject(t, sid);
    assert forall|id: i64| #[trigger] t1.topics.dom().contains(id)
        implies t1.subjects.dom().contains(t1.topics[id].subject_id) by {
        assert(t.topics.dom().contains(id));
        assert(!topics_of_subject(t, sid).contains(id));
    }
    assert forall|id: i64| #[trigger] t1.questions.dom().contains(id)
        implies t1.subjects.dom().contains(t1.questions[id].subject_id)
            && t1.topics.dom().contains(t1.questions[id].topic_id) by {
        assert(t.questions.dom().contains(id));
        assert(!questions_gone_subject(t, sid).contains(id));
    }
    assert forall|id: i64| #[trigger] t1.options.dom().contains(id)
        implies t1.questions.dom().contains(t1.options[id].question_id) by {
        assert(t.options.dom().contains(id));
    }
    assert forall|id: i64| #[trigger] t1.blanks.dom().contains(id)
        implies t1.questions.dom().contains(t1.blanks[id].question_id) by {
        assert(t.blanks.dom().contains(id));
    }
    assert forall|id: i64| #[trigger] t1.order_items.dom().contains(id)
        implies t1.questions.dom().contains(t1.order_items[id].question_id) by {
        assert(t.order_items.dom().contains(id));
    }
    assert forall|id: i64| #[trigger] t1.matches.dom().contains(id)
        implies t1.questions.dom().contains(t1.matches[id].question_id) by {
        assert(t.matches.dom().contains(id));
    }
    assert forall|id: i64| #[trigger] t1.quizzes.dom().contains(id)
        implies t1.topics.dom().contains(t1.quizzes[id].topic_id) by {
        assert(t.quizzes.dom().contains(id));
        assert(!quizzes_gone_subject(t, sid).contains(id));
    }
    assert forall|id: i64| #[trigger] t1.exams.dom().contains(id)
        implies t1.subjects.dom().contains(t1.exams[id].subject_id) by {
        assert(t.exams.dom().contains(id));
        assert(!exams_of_subject(t, sid).contains(id));
    }
    assert forall|id: i64| #[trigger] t1.exam_topics.dom().contains(id)
        implies t1.exams.dom().contains(t1.exam_topics[id].exam_id)
            && t1.topics.dom().contains(t1.exam_topics[id].topic_id) by {
        assert(t.exam_topics.dom().contains(id));
    }
    assert forall|id: i64| #[trigger] t1.quiz_attempts.dom().contains(id)
        implies t1.quizzes.dom().contains(t1.quiz_attempts[id].quiz_id) by {
        assert(t.quiz_attempts.dom().contains(id));
    }
    assert forall|id: i64| #[trigger] t1.exam_attempts.dom().contains(id)
        implies t1.exams.dom().contains(t1.exam_attempts[id].exam_id) by {
        assert(t.exam_attempts.dom().contains(id));
    }
}

/// Deleting a topic with cascade leaves no dangling reference.
pub proof fn lemma_cascade_topic_wf(t: Tables, tid: i64)
    requires
        wf(t),
    ensures
        wf(cascade_delete_topic(t, tid)),
{
    let t1 = cascade_delete_topic(t, tid);
    assert forall|id: i64| #[trigger] t1.questions.dom().contains(id)
        implies t1.subjects.dom().contains(t1.questions[id].subject_id)
            && t1.topics.dom().contains(t1.questions[id].topic_id) by {
        assert(t.questions.dom().contains(id));
        assert(!questions_of_topic(t, tid).contains(id));
    }
    assert forall|id: i64| #[trigger] t1.options.dom().contains(id)
        implies t1.questions.dom().contains(t1.options[id].question_id) by {
        assert(t.options.dom().contains(id));
    }
    assert forall|id: i64| #[trigger] t1.blanks.dom().contains(id)
        implies t1.questions.dom().contains(t1.blanks[id].question_id) by {
        assert(t.blanks.dom().contains(id));
    }
    assert forall|id: i64| #[trigger] t1.order_items.dom().contains(id)
        implies t1.questions.dom().contains(t1.order_items[id].question_id) by {
        assert(t.order_items.dom().contains(id));
    }
    assert forall|id: i64| #[trigger] t1.matches.dom().contains(id)
        implies t1.questions.dom().contains(t1.matches[id].question_id) by {
        assert(t.matches.dom().contains(id));
    }
    assert forall|id: i64| #[trigger] t1.quizzes.dom().contains(id)
        implies t1.topics.dom().contains(t1.quizzes[id].topic_id) by {
        assert(t.quizzes.dom().contains(id));
        assert(!quizzes_of_topic(t, tid).contains(id));
    }
    assert forall|id: i64| #[trigger] t1.exam_topics.dom().contains(id)
        implies t1.exams.dom().contains(t1.exam_topics[id].exam_id)
            && t1.topics.dom().contains(t1.exam_topics[id].topic_id) by {
        assert(t.exam_topics.dom().contains(id));
    }
    assert forall|id: i64| #[trigger] t1.quiz_attempts.dom().contains(id)
        implies t1.quizzes.dom().contains(t1.quiz_attempts[id].quiz_id) by {
        assert(t.quiz_attempts.dom().contains(id));
    }
}

/// Deleting a question with cascade leaves no dangling reference: its four
/// variant-row sets go with it and nothing else points at a question.
pub proof fn lemma_cascade_question_wf(t: Tables, qid: i64)
    requires
        wf(t),
    ensures
        wf(cascade_delete_question(t, qid)),
{
    let t1 = cascade_delete_question(t, qid);
    assert forall|id: i64| #[trigger] t1.options.dom().contains(id)
        implies t1.questions.dom().contains(t1.options[id].question_id) by {
        assert(t.options.dom().contains(id));
        assert(!options_of_questions(t, set![qid]).contains(id));
    }
    assert forall|id: i64| #[trigger] t1.blanks.dom().contains(id)
        implies t1.questions.dom().contains(t1.blanks[id].question_id) by {
        assert(t.blanks.dom().contains(id));
        assert(!blanks_of_questions(t, set![qid]).contains(id));
    }
    assert forall|id: i64| #[trigger] t1.order_items.dom().contains(id)
        implies t1.questions.dom().contains(t1.order_items[id].question_id) by {
        assert(t.order_items.dom().contains(id));
        assert(!order_items_of_questions(t, set![qid]).contains(id));
    }
    assert forall|id: i64| #[trigger] t1.matches.dom().contains(id)
        implies t1.questions.dom().contains(t1.matches[id].question_id) by {
        assert(t.matches.dom().contains(id));
        assert(!matches_of_questions(t, set![qid]).contains(id));
    }
}

/// Deleting a quiz with cascade leaves no dangling reference.
pub proof fn lemma_cascade_quiz_wf(t: Tables, zid: i64)
    requires
        wf(t),
    ensures
        wf(cascade_delete_quiz(t, zid)),
{
    let t1 = cascade_delete_quiz(t, zid);
    assert forall|id: i64| #[trigger] t1.quiz_attempts.dom().contains(id)
        implies t1.quizzes.dom().contains(t1.quiz_attempts[id].quiz_id) by {
        assert(t.quiz_attempts.dom().contains(id));
    }
}

/// Deleting an exam with cascade leaves no dangling reference.
pub proof fn lemma_cascade_exam_wf(t: Tables, eid: i64)
    requires
        wf(t),
    ensures
        wf(cascade_delete_exam(t, eid)),
{
    let t1 = cascade_delete_exam(t, eid);
    assert forall|id: i64| #[trigger] t1.exam_topics.dom().contains(id)
        implies t1.exams.dom().contains(t1.exam_topics[id].exam_id)
            && t1.topics.dom().contains(t1.exam_topics[id].topic_id) by {
        assert(t.exam_topics.dom().contains(id));
        assert(!exam_topics_of_exam(t, eid).contains(id));
    }
    assert forall|id: i64| #[trigger] t1.exam_attempts.dom().contains(id)
        implies t1.exams.dom().contains(t1.exam_attempts[id].exam_id) by {
        assert(t.exam_attempts.dom().contains(id));
    }
}

} // verus!
