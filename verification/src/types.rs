//! The caller-visible data types of the repository: persisted records, write
//! payloads, and read-side aggregates, together with the spec-level image of
//! each in the ghost model.
//!
//! Two representation choices keep the types free of floating point:
//! an attempt percentage is carried in hundredths (66.67 percent is 6667) and
//! a numeric tolerance in millionths (0.2 is 200_000).

use vstd::prelude::*;
use crate::model::{
    Tables, SubjectRow, TopicRow, QuestionRow, OptionRow, BlankRow, OrderItemRow, MatchRow,
    QuizRow, ExamRow, ExamTopicRow, QuizAttemptRow, ExamAttemptRow,
};

verus! {

/// The spec image of an optional text column.
pub open spec fn opt_seq(o: Option<String>) -> Option<Seq<char>> {
    match o {
        Option::Some(s) => Option::Some(s@),
        Option::None => Option::None,
    }
}

#[derive(Debug, Clone, PartialEq)]
pub struct Subject {
    pub id: i64,
    pub name: String,
    pub description: Option<String>,
    pub color: String,
    pub icon: Option<String>,
    pub created_at: String,
    pub updated_at: String,
}

impl Subject {
    pub open spec fn row(self) -> SubjectRow {
        SubjectRow {
            name: self.name@,
            description: opt_seq(self.description),
            color: self.color@,
            icon: opt_seq(self.icon),
        }
    }

    /// The record agrees with the modelled contents.
    pub open spec fn in_table(self, t: Tables) -> bool {
        t.subjects.dom().contains(self.id) && t.subjects[self.id] == self.row()
    }
}

#[derive(Debug, Clone, PartialEq)]
pub struct CreateSubjectData {
    pub name: String,
    pub description: Option<String>,
    pub color: String,
    pub icon: Option<String>,
}

impl CreateSubjectData {
    pub open spec fn row(self) -> SubjectRow {
        SubjectRow {
            name: self.name@,
            description: opt_seq(self.description),
            color: self.color@,
            icon: opt_seq(self.icon),
        }
    }
}

#[derive(Debug, Clone, PartialEq)]
pub struct UpdateSubjectData {
    pub name: String,
    pub description: Option<String>,
    pub color: String,
    pub icon: Option<String>,
}

impl UpdateSubjectData {
    pub open spec fn row(self) -> SubjectRow {
        SubjectRow {
            name: self.name@,
            description: opt_seq(self.description),
            color: self.color@,
            icon: opt_seq(self.icon),
        }
    }
}

#[derive(Debug, Clone, PartialEq)]
pub struct Topic {
    pub id: i64,
    pub subject_id: i64,
    pub name: String,
    pub description: Option<String>,
    pub week_number: Option<i32>,
    pub created_at: String,
    pub updated_at: String,
}

impl Topic {
    pub open spec fn row(self) -> TopicRow {
        TopicRow {
            subject_id: self.subject_id,
            name: self.name@,
            description: opt_seq(self.description),
            week_number: self.week_number,
        }
    }

    pub open spec fn in_table(self, t: Tables) -> bool {
        t.topics.dom().contains(self.id) && t.topics[self.id] == self.row()
    }
}

#[derive(Debug, Clone, PartialEq)]
pub struct CreateTopicData {
    pub subject_id: i64,
    pub name: String,
    pub description: Option<String>,
    pub week_number: Option<i32>,
}

impl CreateTopicData {
    pub open spec fn row(self) -> TopicRow {
        TopicRow {
            subject_id: self.subject_id,
            name: self.name@,
            description: opt_seq(self.description),
            week_number: self.week_number,
        }
    }
}

#[derive(Debug, Clone, PartialEq)]
pub struct UpdateTopicData {
    pub name: String,
    pub description: Option<String>,
    pub week_number: Option<i32>,
}

impl UpdateTopicData {
    /// The row an update writes keeps the parent of the old row.
    pub open spec fn row(self, subject_id: i64) -> TopicRow {
        TopicRow {
            subject_id: subject_id,
            name: self.name@,
            description: opt_seq(self.description),
            week_number: self.week_number,
        }
    }
}

#[derive(Debug, Clone, PartialEq)]
pub struct Question {
    pub id: i64,
    pub subject_id: i64,
    pub topic_id: i64,
    pub question_type: String,
    pub question_text: String,
    pub question_image_path: Option<String>,
    pub explanation: Option<String>,
    pub difficulty: String,
    pub points: i32,
    pub source: Option<String>,
    pub created_at: String,
    pub updated_at: String,
}

impl Question {
    pub open spec fn row(self) -> QuestionRow {
        QuestionRow {
            subject_id: self.subject_id,
            topic_id: self.topic_id,
            question_type: self.question_type@,
            question_text: self.question_text@,
            question_image_path: opt_seq(self.question_image_path),
            explanation: opt_seq(self.explanation),
            difficulty: self.difficulty@,
            points: self.points,
            source: opt_seq(self.source),
        }
    }

    pub open spec fn in_table(self, t: Tables) -> bool {
        t.questions.dom().contains(self.id) && t.questions[self.id] == self.row()
    }
}

#[derive(Debug, Clone, PartialEq)]
pub struct QuestionOption {
    pub id: i64,
    pub question_id: i64,
    pub option_text: String,
    pub option_image_path: Option<String>,
    pub is_correct: bool,
    pub display_order: i32,
}

impl QuestionOption {
    pub open spec fn row(self) -> OptionRow {
        OptionRow {
            question_id: self.question_id,
            option_text: self.option_text@,
            option_image_path: opt_seq(self.option_image_path),
            is_correct: self.is_correct,
            display_order: self.display_order,
        }
    }

    pub open spec fn in_table(self, t: Tables) -> bool {
        t.options.dom().contains(self.id) && t.options[self.id] == self.row()
    }
}

#[derive(Debug, Clone, PartialEq)]
pub struct QuestionBlank {
    pub id: i64,
    pub question_id: i64,
    pub blank_index: i32,
    pub correct_answer: String,
    pub acceptable_answers: Option<String>,
    pub is_numeric: bool,
    /// Tolerance in millionths; `Some(200_000)` stands for 0.2.
    pub numeric_tolerance: Option<i64>,
    pub unit: Option<String>,
    pub input_type: String,
    pub dropdown_options: Option<String>,
}

impl QuestionBlank {
    pub open spec fn row(self) -> BlankRow {
        BlankRow {
            question_id: self.question_id,
            blank_index: self.blank_index,
            correct_answer: self.correct_answer@,
            acceptable_answers: opt_seq(self.acceptable_answers),
            is_numeric: self.is_numeric,
            numeric_tolerance: self.numeric_tolerance,
            unit: opt_seq(self.unit),
            input_type: self.input_type@,
            dropdown_options: opt_seq(self.dropdown_options),
        }
    }

    pub open spec fn in_table(self, t: Tables) -> bool {
        t.blanks.dom().contains(self.id) && t.blanks[self.id] == self.row()
    }
}

#[derive(Debug, Clone, PartialEq)]
pub struct QuestionOrderItem {
    pub id: i64,
    pub question_id: i64,
    pub item_text: String,
    pub correct_position: i32,
}

impl QuestionOrderItem {
    pub open spec fn row(self) -> OrderItemRow {
        OrderItemRow {
            question_id: self.question_id,
            item_text: self.item_text@,
            correct_position: self.correct_position,
        }
    }

    pub open spec fn in_table(self, t: Tables) -> bool {
        t.order_items.dom().contains(self.id) && t.order_items[self.id] == self.row()
    }
}

#[derive(Debug, Clone, PartialEq)]
pub struct QuestionMatch {
    pub id: i64,
    pub question_id: i64,
    pub left_item: String,
    pub right_item: String,
    pub left_image_path: Option<String>,
    pub right_image_path: Option<String>,
    pub display_order: i32,
}

impl QuestionMatch {
    pub open spec fn row(self) -> MatchRow {
        MatchRow {
            question_id: self.question_id,
            left_item: self.left_item@,
            right_item: self.right_item@,
            left_image_path: opt_seq(self.left_image_path),
            right_image_path: opt_seq(self.right_image_path),
            display_order: self.display_order,
        }
    }

    pub open spec fn in_table(self, t: Tables) -> bool {
        t.matches.dom().contains(self.id) && t.matches[self.id] == self.row()
    }
}

/// A question aggregate: the base record and all four variant sequences,
/// empty where inapplicable, so the caller's dispatch on the type tag is
/// uniform.
#[derive(Debug, Clone, PartialEq)]
pub struct QuestionWithDetails {
    pub question: Question,
    pub options: Vec<QuestionOption>,
    pub blanks: Vec<QuestionBlank>,
    pub order_items: Vec<QuestionOrderItem>,
    pub matches: Vec<QuestionMatch>,
}

#[derive(Debug, Clone, PartialEq)]
pub struct CreateQuestionOption {
    pub option_text: String,
    pub option_image_path: Option<String>,
    pub is_correct: bool,
    pub display_order: i32,
}

impl CreateQuestionOption {
    pub open spec fn row(self, question_id: i64) -> OptionRow {
        OptionRow {
            question_id: question_id,
            option_text: self.option_text@,
            option_image_path: opt_seq(self.option_image_path),
            is_correct: self.is_correct,
            display_order: self.display_order,
        }
    }
}

#[derive(Debug, Clone, PartialEq)]
pub struct CreateQuestionBlank {
    pub blank_index: i32,
    pub correct_answer: String,
    pub acceptable_answers: Option<String>,
    pub is_numeric: bool,
    /// Tolerance in millionths; `Some(200_000)` stands for 0.2.
    pub numeric_tolerance: Option<i64>,
    pub unit: Option<String>,
    pub input_type: String,
    pub dropdown_options: Option<String>,
}

impl CreateQuestionBlank {
    pub open spec fn row(self, question_id: i64) -> BlankRow {
        BlankRow {
            question_id: question_id,
            blank_index: self.blank_index,
            correct_answer: self.correct_answer@,
            acceptable_answers: opt_seq(self.acceptable_answers),
            is_numeric: self.is_numeric,
            numeric_tolerance: self.numeric_tolerance,
            unit: opt_seq(self.unit),
            input_type: self.input_type@,
            dropdown_options: opt_seq(self.dropdown_options),
        }
    }
}

/// The legacy encoding of a standalone numeric answer: folded on write into
/// one synthetic blank with index 0.  The tolerance arrives as free text and
/// is parsed; a malformed tolerance degrades to the default, it does not
/// reject the write.
#[derive(Debug, Clone, PartialEq)]
pub struct CreateNumericData {
    pub correct_answer: String,
    pub tolerance: String,
    pub unit: Option<String>,
}

#[derive(Debug, Clone, PartialEq)]
pub struct CreateOrderItem {
    pub text: String,
    pub correct_position: i32,
}

impl CreateOrderItem {
    pub open spec fn row(self, question_id: i64) -> OrderItemRow {
        OrderItemRow {
            question_id: question_id,
            item_text: self.text@,
            correct_position: self.correct_position,
        }
    }
}

#[derive(Debug, Clone, PartialEq)]
pub struct CreateMatchPair {
    pub left_item: String,
    pub right_item: String,
    pub left_image_path: Option<String>,
    pub right_image_path: Option<String>,
}

impl CreateMatchPair {
    /// A match pair's display order is its position in the submitted payload.
    pub open spec fn row(self, question_id: i64, display_order: i32) -> MatchRow {
        MatchRow {
            question_id: question_id,
            left_item: self.left_item@,
            right_item: self.right_item@,
            left_image_path: opt_seq(self.left_image_path),
            right_image_path: opt_seq(self.right_image_path),
            display_order: display_order,
        }
    }
}

#[derive(Debug, Clone, PartialEq)]
pub struct CreateQuestionData {
    pub subject_id: i64,
    pub topic_id: i64,
    pub question_type: String,
    pub question_text: String,
    pub question_image_path: Option<String>,
    pub explanation: Option<String>,
    pub difficulty: String,
    pub points: i32,
    pub source: Option<String>,
    pub options: Vec<CreateQuestionOption>,
    pub blanks: Vec<CreateQuestionBlank>,
    pub numeric_data: Option<CreateNumericData>,
    pub order_items: Option<Vec<CreateOrderItem>>,
    pub match_pairs: Option<Vec<CreateMatchPair>>,
}

impl CreateQuestionData {
    pub open spec fn base_row(self) -> QuestionRow {
        QuestionRow {
            subject_id: self.subject_id,
            topic_id: self.topic_id,
            question_type: self.question_type@,
            question_text: self.question_text@,
            question_image_path: opt_seq(self.question_image_path),
            explanation: opt_seq(self.explanation),
            difficulty: self.difficulty@,
            points: self.points,
            source: opt_seq(self.source),
        }
    }
}

#[derive(Debug, Clone, PartialEq)]
pub struct UpdateQuestionData {
    pub question_text: String,
    pub question_image_path: Option<String>,
    pub explanation: Option<String>,
    pub difficulty: String,
    pub points: i32,
    pub source: Option<String>,
    pub options: Vec<CreateQuestionOption>,
    pub blanks: Vec<CreateQuestionBlank>,
    pub numeric_data: Option<CreateNumericData>,
    pub order_items: Option<Vec<CreateOrderItem>>,
    pub match_pairs: Option<Vec<CreateMatchPair>>,
}

impl UpdateQuestionData {
    /// The base row an update writes keeps the parents and the type tag of
    /// the old row.
    pub open spec fn base_row(self, subject_id: i64, topic_id: i64, question_type: Seq<char>) -> QuestionRow {
        QuestionRow {
            subject_id: subject_id,
            topic_id: topic_id,
            question_type: question_type,
            question_text: self.question_text@,
            question_image_path: opt_seq(self.question_image_path),
            explanation: opt_seq(self.explanation),
            difficulty: self.difficulty@,
            points: self.points,
            source: opt_seq(self.source),
        }
    }
}

#[derive(Debug, Clone, PartialEq)]
pub struct Quiz {
    pub id: i64,
    pub topic_id: i64,
    pub name: String,
    pub description: Option<String>,
    pub question_count: i32,
    pub time_limit_minutes: Option<i32>,
    pub shuffle_questions: bool,
    pub shuffle_options: bool,
    pub show_answers_after: String,
    pub passing_score_percent: i32,
    pub created_at: String,
    pub updated_at: String,
}

impl Quiz {
    pub open spec fn row(self) -> QuizRow {
        QuizRow {
            topic_id: self.topic_id,
            name: self.name@,
            description: opt_seq(self.description),
            question_count: self.question_count,
            time_limit_minutes: self.time_limit_minutes,
            shuffle_questions: self.shuffle_questions,
            shuffle_options: self.shuffle_options,
            show_answers_after: self.show_answers_after@,
            passing_score_percent: self.passing_score_percent,
        }
    }

    pub open spec fn in_table(self, t: Tables) -> bool {
        t.quizzes.dom().contains(self.id) && t.quizzes[self.id] == self.row()
    }
}

#[derive(Debug, Clone, PartialEq)]
pub struct CreateQuizData {
    pub topic_id: i64,
    pub name: String,
    pub description: Option<String>,
    pub question_count: i32,
    pub time_limit_minutes: Option<i32>,
    pub shuffle_questions: bool,
    pub shuffle_options: bool,
    pub show_answers_after: String,
    pub passing_score_percent: i32,
}

impl CreateQuizData {
    pub open spec fn row(self) -> QuizRow {
        QuizRow {
            topic_id: self.topic_id,
            name: self.name@,
            description: opt_seq(self.description),
            question_count: self.question_count,
            time_limit_minutes: self.time_limit_minutes,
            shuffle_questions: self.shuffle_questions,
            shuffle_options: self.shuffle_options,
            show_answers_after: self.show_answers_after@,
            passing_score_percent: self.passing_score_percent,
        }
    }
}

#[derive(Debug, Clone, PartialEq)]
pub struct UpdateQuizData {
    pub name: String,
    pub description: Option<String>,
    pub question_count: i32,
    pub time_limit_minutes: Option<i32>,
    pub shuffle_questions: bool,
    pub shuffle_options: bool,
    pub show_answers_after: String,
    pub passing_score_percent: i32,
}

impl UpdateQuizData {
    pub open spec fn row(self, topic_id: i64) -> QuizRow {
        QuizRow {
            topic_id: topic_id,
            name: self.name@,
            description: opt_seq(self.description),
            question_count: self.question_count,
            time_limit_minutes: self.time_limit_minutes,
            shuffle_questions: self.shuffle_questions,
            shuffle_options: self.shuffle_options,
            show_answers_after: self.show_answers_after@,
            passing_score_percent: self.passing_score_percent,
        }
    }
}

#[derive(Debug, Clone, PartialEq)]
pub struct Exam {
    pub id: i64,
    pub subject_id: i64,
    pub name: String,
    pub description: Option<String>,
    pub total_question_count: i32,
    pub time_limit_minutes: Option<i32>,
    pub shuffle_questions: bool,
    pub shuffle_options: bool,
    pub show_answers_after: String,
    pub passing_score_percent: i32,
    pub created_at: String,
    pub updated_at: String,
}

impl Exam {
    pub open spec fn row(self) -> ExamRow {
        ExamRow {
            subject_id: self.subject_id,
            name: self.name@,
            description: opt_seq(self.description),
            total_question_count: self.total_question_count,
            time_limit_minutes: self.time_limit_minutes,
            shuffle_questions: self.shuffle_questions,
            shuffle_options: self.shuffle_options,
            show_answers_after: self.show_answers_after@,
            passing_score_percent: self.passing_score_percent,
        }
    }

    pub open spec fn in_table(self, t: Tables) -> bool {
        t.exams.dom().contains(self.id) && t.exams[self.id] == self.row()
    }
}

#[derive(Debug, Clone, PartialEq)]
pub struct ExamTopic {
    pub id: i64,
    pub exam_id: i64,
    pub topic_id: i64,
    pub question_count: i32,
}

impl ExamTopic {
    pub open spec fn row(self) -> ExamTopicRow {
        ExamTopicRow {
            exam_id: self.exam_id,
            topic_id: self.topic_id,
            question_count: self.question_count,
        }
    }

    pub open spec fn in_table(self, t: Tables) -> bool {
        t.exam_topics.dom().contains(self.id) && t.exam_topics[self.id] == self.row()
    }
}

/// An exam-topic quota joined with the owning topic's name.
#[derive(Debug, Clone, PartialEq)]
pub struct ExamTopicWithName {
    pub id: i64,
    pub exam_id: i64,
    pub topic_id: i64,
    pub topic_name: String,
    pub question_count: i32,
}

impl ExamTopicWithName {
    pub open spec fn row(self) -> ExamTopicRow {
        ExamTopicRow {
            exam_id: self.exam_id,
            topic_id: self.topic_id,
            question_count: self.question_count,
        }
    }

    pub open spec fn in_table(self, t: Tables) -> bool {
        &&& t.exam_topics.dom().contains(self.id)
        &&& t.exam_topics[self.id] == self.row()
        &&& t.topics.dom().contains(self.topic_id)
        &&& t.topics[self.topic_id].name == self.topic_name@
    }
}

/// An exam aggregate: the base record plus its topic-quota rows.
#[derive(Debug, Clone, PartialEq)]
pub struct ExamWithTopics {
    pub id: i64,
    pub subject_id: i64,
    pub name: String,
    pub description: Option<String>,
    pub total_question_count: i32,
    pub time_limit_minutes: Option<i32>,
    pub shuffle_questions: bool,
    pub shuffle_options: bool,
    pub show_answers_after: String,
    pub passing_score_percent: i32,
    pub created_at: String,
    pub updated_at: String,
    pub topics: Vec<ExamTopicWithName>,
}

impl ExamWithTopics {
    pub open spec fn base_row(self) -> ExamRow {
        ExamRow {
            subject_id: self.subject_id,
            name: self.name@,
            description: opt_seq(self.description),
            total_question_count: self.total_question_count,
            time_limit_minutes: self.time_limit_minutes,
            shuffle_questions: self.shuffle_questions,
            shuffle_options: self.shuffle_options,
            show_answers_after: self.show_answers_after@,
            passing_score_percent: self.passing_score_percent,
        }
    }
}

#[derive(Debug, Clone, PartialEq)]
pub struct CreateExamTopicData {
    pub topic_id: i64,
    pub question_count: i32,
}

impl CreateExamTopicData {
    pub open spec fn row(self, exam_id: i64) -> ExamTopicRow {
        ExamTopicRow {
            exam_id: exam_id,
            topic_id: self.topic_id,
            question_count: self.question_count,
        }
    }
}

#[derive(Debug, Clone, PartialEq)]
pub struct CreateExamData {
    pub subject_id: i64,
    pub name: String,
    pub description: Option<String>,
    pub total_question_count: i32,
    pub time_limit_minutes: Option<i32>,
    pub shuffle_questions: bool,
    pub shuffle_options: bool,
    pub show_answers_after: String,
    pub passing_score_percent: i32,
    pub topics: Vec<CreateExamTopicData>,
}

impl CreateExamData {
    pub open spec fn base_row(self) -> ExamRow {
        ExamRow {
            subject_id: self.subject_id,
            name: self.name@,
            description: opt_seq(self.description),
            total_question_count: self.total_question_count,
            time_limit_minutes: self.time_limit_minutes,
            shuffle_questions: self.shuffle_questions,
            shuffle_options: self.shuffle_options,
            show_answers_after: self.show_answers_after@,
            passing_score_percent: self.passing_score_percent,
        }
    }
}

#[derive(Debug, Clone, PartialEq)]
pub struct UpdateExamData {
    pub name: String,
    pub description: Option<String>,
    pub total_question_count: i32,
    pub time_limit_minutes: Option<i32>,
    pub shuffle_questions: bool,
    pub shuffle_options: bool,
    pub show_answers_after: String,
    pub passing_score_percent: i32,
    pub topics: Vec<CreateExamTopicData>,
}

impl UpdateExamData {
    pub open spec fn base_row(self, subject_id: i64) -> ExamRow {
        ExamRow {
            subject_id: subject_id,
            name: self.name@,
            description: opt_seq(self.description),
            total_question_count: self.total_question_count,
            time_limit_minutes: self.time_limit_minutes,
            shuffle_questions: self.shuffle_questions,
            shuffle_options: self.shuffle_options,
            show_answers_after: self.show_answers_after@,
            passing_score_percent: self.passing_score_percent,
        }
    }
}

/// Payload of one recorded quiz sitting; the percentage is caller-computed,
/// in hundredths, and stored verbatim.
#[derive(Debug, Clone, PartialEq)]
pub struct SaveQuizAttemptData {
    pub quiz_id: i64,
    pub score: i32,
    pub max_score: i32,
    pub percentage: i64,
    pub time_taken_seconds: i32,
}

impl SaveQuizAttemptData {
    pub open spec fn row(self) -> QuizAttemptRow {
        QuizAttemptRow {
            quiz_id: self.quiz_id,
            score: self.score,
            max_score: self.max_score,
            percentage: self.percentage,
            time_taken_seconds: self.time_taken_seconds,
        }
    }
}

#[derive(Debug, Clone, PartialEq)]
pub struct SaveExamAttemptData {
    pub exam_id: i64,
    pub score: i32,
    pub max_score: i32,
    pub percentage: i64,
    pub time_taken_seconds: i32,
}

impl SaveExamAttemptData {
    pub open spec fn row(self) -> ExamAttemptRow {
        ExamAttemptRow {
            exam_id: self.exam_id,
            score: self.score,
            max_score: self.max_score,
            percentage: self.percentage,
            time_taken_seconds: self.time_taken_seconds,
        }
    }
}

/// One stored quiz attempt joined with its quiz, topic and subject; the raw
/// material both of the attempt listing and of the per-topic aggregation.
#[derive(Debug, Clone, PartialEq)]
pub struct QuizAttemptRecord {
    pub id: i64,
    pub quiz_id: i64,
    pub quiz_name: String,
    pub passing_score_percent: i32,
    pub topic_id: i64,
    pub topic_name: String,
    pub subject_name: String,
    pub started_at: String,
    pub completed_at: String,
    pub score: i32,
    pub max_score: i32,
    pub percentage: i64,
    pub time_taken_seconds: i32,
}

impl QuizAttemptRecord {
    pub open spec fn attempt_row(self) -> QuizAttemptRow {
        QuizAttemptRow {
            quiz_id: self.quiz_id,
            score: self.score,
            max_score: self.max_score,
            percentage: self.percentage,
            time_taken_seconds: self.time_taken_seconds,
        }
    }

    pub open spec fn in_table(self, t: Tables) -> bool {
        &&& t.quiz_attempts.dom().contains(self.id)
        &&& t.quiz_attempts[self.id] == self.attempt_row()
        &&& t.quizzes.dom().contains(self.quiz_id)
        &&& t.quizzes[self.quiz_id].name == self.quiz_name@
        &&& t.quizzes[self.quiz_id].passing_score_percent == self.passing_score_percent
        &&& t.quizzes[self.quiz_id].topic_id == self.topic_id
        &&& t.topics.dom().contains(self.topic_id)
        &&& t.topics[self.topic_id].name == self.topic_name@
        &&& t.subjects.dom().contains(t.topics[self.topic_id].subject_id)
        &&& t.subjects[t.topics[self.topic_id].subject_id].name == self.subject_name@
    }
}

/// One stored exam attempt joined with its exam and subject.
#[derive(Debug, Clone, PartialEq)]
pub struct ExamAttemptRecord {
    pub id: i64,
    pub exam_id: i64,
    pub exam_name: String,
    pub passing_score_percent: i32,
    pub subject_id: i64,
    pub subject_name: String,
    pub started_at: String,
    pub completed_at: String,
    pub score: i32,
    pub max_score: i32,
    pub percentage: i64,
    pub time_taken_seconds: i32,
}

impl ExamAttemptRecord {
    pub open spec fn attempt_row(self) -> ExamAttemptRow {
        ExamAttemptRow {
            exam_id: self.exam_id,
            score: self.score,
            max_score: self.max_score,
            percentage: self.percentage,
            time_taken_seconds: self.time_taken_seconds,
        }
    }

    pub open spec fn in_table(self, t: Tables) -> bool {
        &&& t.exam_attempts.dom().contains(self.id)
        &&& t.exam_attempts[self.id] == self.attempt_row()
        &&& t.exams.dom().contains(self.exam_id)
        &&& t.exams[self.exam_id].name == self.exam_name@
        &&& t.exams[self.exam_id].passing_score_percent == self.passing_score_percent
        &&& t.exams[self.exam_id].subject_id == self.subject_id
        &&& t.subjects.dom().contains(self.subject_id)
        &&& t.subjects[self.subject_id].name == self.subject_name@
    }
}

/// A quiz attempt as listed to the caller: the joined names plus the derived
/// pass flag, which is computed at read time and never persisted.
#[derive(Debug, Clone, PartialEq)]
pub struct QuizAttemptWithDetails {
    pub id: i64,
    pub quiz_id: i64,
    pub quiz_name: String,
    pub topic_name: String,
    pub subject_name: String,
    pub started_at: String,
    pub completed_at: String,
    pub score: i32,
    pub max_score: i32,
    pub percentage: i64,
    pub time_taken_seconds: i32,
    pub passed: bool,
}

impl QuizAttemptWithDetails {
    /// The record restates a stored attempt with its joined names, and the
    /// derived pass flag compares the stored percentage against the owning
    /// quiz's passing score, both in hundredths.
    pub open spec fn ok_in(self, t: Tables) -> bool {
        &&& t.quiz_attempts.dom().contains(self.id)
        &&& t.quiz_attempts[self.id] == (QuizAttemptRow {
            quiz_id: self.quiz_id,
            score: self.score,
            max_score: self.max_score,
            percentage: self.percentage,
            time_taken_seconds: self.time_taken_seconds,
        })
        &&& t.quizzes.dom().contains(self.quiz_id)
        &&& t.quizzes[self.quiz_id].name == self.quiz_name@
        &&& t.topics.dom().contains(t.quizzes[self.quiz_id].topic_id)
        &&& t.topics[t.quizzes[self.quiz_id].topic_id].name == self.topic_name@
        &&& t.subjects.dom().contains(t.topics[t.quizzes[self.quiz_id].topic_id].subject_id)
        &&& t.subjects[t.topics[t.quizzes[self.quiz_id].topic_id].subject_id].name == self.subject_name@
        &&& self.passed == (self.percentage >= t.quizzes[self.quiz_id].passing_score_percent * 100)
    }
}

#[derive(Debug, Clone, PartialEq)]
pub struct ExamAttemptWithDetails {
    pub id: i64,
    pub exam_id: i64,
    pub exam_name: String,
    pub subject_name: String,
    pub started_at: String,
    pub completed_at: String,
    pub score: i32,
    pub max_score: i32,
    pub percentage: i64,
    pub time_taken_seconds: i32,
    pub passed: bool,
}

impl ExamAttemptWithDetails {
    /// As for quiz attempts: the stored row, its joined names, and the
    /// read-time pass flag against the owning exam's passing score.
    pub open spec fn ok_in(self, t: Tables) -> bool {
        &&& t.exam_attempts.dom().contains(self.id)
        &&& t.exam_attempts[self.id] == (ExamAttemptRow {
            exam_id: self.exam_id,
            score: self.score,
            max_score: self.max_score,
            percentage: self.percentage,
            time_taken_seconds: self.time_taken_seconds,
        })
        &&& t.exams.dom().contains(self.exam_id)
        &&& t.exams[self.exam_id].name == self.exam_name@
        &&& t.subjects.dom().contains(t.exams[self.exam_id].subject_id)
        &&& t.subjects[t.exams[self.exam_id].subject_id].name == self.subject_name@
        &&& self.passed == (self.percentage >= t.exams[self.exam_id].passing_score_percent * 100)
    }
}

/// Per-subject summary of exam attempts.  `average_score` and `pass_rate`
/// are percentages in hundredths, rounded toward zero.
#[derive(Debug, Clone, PartialEq)]
pub struct SubjectPerformance {
    pub subject_name: String,
    pub attempts: i32,
    pub average_score: i64,
    pub pass_rate: i64,
}

/// Per-topic summary of quiz attempts, carrying the owning subject's name.
#[derive(Debug, Clone, PartialEq)]
pub struct TopicPerformance {
    pub topic_name: String,
    pub subject_name: String,
    pub attempts: i32,
    pub average_score: i64,
    pub pass_rate: i64,
}

} // verus!
