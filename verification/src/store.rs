//! The trusted boundary to the relational engine.
//!
//! Every function here marked `external_body` is believed, not verified: its
//! contract states, over the ghost model of `crate::model`, what the one SQL
//! statement in its body does according to the storage engine's documented
//! behaviour.  Everything built on top of these wrappers is verified.
//!
//! Failed statements: the engine rolls a failed statement back by itself, so
//! a failure leaves the visible contents unchanged — except that inside an
//! open transaction some failures abort the whole transaction, which the
//! contracts state as `unchanged_or_aborted`.

use vstd::prelude::*;
use crate::error::StoreError;
use crate::model::{
    Db, Tables, aborted, stepped, unchanged_or_aborted,
    cascade_delete_subject, cascade_delete_topic, cascade_delete_quiz, cascade_delete_question,
    cascade_delete_exam, exam_topics_of_exam,
    options_of_questions, blanks_of_questions, order_items_of_questions, matches_of_questions,
};
use crate::types::{
    Subject, CreateSubjectData, UpdateSubjectData,
    Topic, CreateTopicData, UpdateTopicData,
    Quiz, CreateQuizData, UpdateQuizData,
    SaveQuizAttemptData, QuizAttemptRecord,
    Question, CreateQuestionData, UpdateQuestionData,
    Exam, CreateExamData, UpdateExamData, CreateExamTopicData, ExamTopicWithName,
    SaveExamAttemptData, ExamAttemptRecord,
    QuestionOption, QuestionBlank, QuestionOrderItem, QuestionMatch,
    CreateQuestionOption, CreateQuestionBlank, CreateOrderItem, CreateMatchPair,
};

verus! {

#[verifier::external_type_specification]
#[verifier::external_body]
pub struct ExConnection(rusqlite::Connection);

#[verifier::external_type_specification]
#[verifier::external_body]
pub struct ExSqlError(rusqlite::Error);

#[verifier::external_type_specification]
#[verifier::external_body]
pub struct ExRow<'a>(rusqlite::Row<'a>);

/// The ghost model of a connection's state: what its statements see and what
/// a rollback would restore.
pub uninterp spec fn db(c: rusqlite::Connection) -> Db;

/// Relies on rusqlite::Error: `QueryReturnedNoRows` is the no-row case of a
/// single-row query; `SqliteFailure` with a constraint code is a broken
/// schema rule.  Conversion only; no contract.
#[verifier::external_body]
fn to_store_error(e: rusqlite::Error) -> StoreError {
    match e {
        rusqlite::Error::QueryReturnedNoRows => StoreError::NotFound,
        rusqlite::Error::SqliteFailure(f, m) => {
            if f.code == rusqlite::ErrorCode::ConstraintViolation {
                StoreError::Constraint(format!("{} {}", f, m.unwrap_or_default()))
            } else {
                StoreError::Storage(format!("{} {}", f, m.unwrap_or_default()))
            }
        },
        other => StoreError::Storage(format!("{}", other)),
    }
}

// One row-reader per record shape: each converts one result row into the
// matching record, column by column.  Conversion only; no contracts.

/// Relies on rusqlite::Row::get for each column of a subject row.
#[verifier::external_body]
fn read_subject(row: &rusqlite::Row) -> Result<Subject, rusqlite::Error> {
    Ok(Subject {
        id: row.get(0)?, name: row.get(1)?, description: row.get(2)?, color: row.get(3)?,
        icon: row.get(4)?, created_at: row.get(5)?, updated_at: row.get(6)?,
    })
}

/// Relies on rusqlite::Row::get for each column of a topic row.
#[verifier::external_body]
fn read_topic(row: &rusqlite::Row) -> Result<Topic, rusqlite::Error> {
    Ok(Topic {
        id: row.get(0)?, subject_id: row.get(1)?, name: row.get(2)?, description: row.get(3)?,
        week_number: row.get(4)?, created_at: row.get(5)?, updated_at: row.get(6)?,
    })
}

/// Relies on rusqlite::Row::get for each column of a question base row.
#[verifier::external_body]
fn read_question(row: &rusqlite::Row) -> Result<Question, rusqlite::Error> {
    Ok(Question {
        id: row.get(0)?, subject_id: row.get(1)?, topic_id: row.get(2)?, question_type: row.get(3)?,
        question_text: row.get(4)?, question_image_path: row.get(5)?, explanation: row.get(6)?,
        difficulty: row.get(7)?, points: row.get(8)?, source: row.get(9)?,
        created_at: row.get(10)?, updated_at: row.get(11)?,
    })
}

/// Relies on rusqlite::Row::get for each column of an option row.
#[verifier::external_body]
fn read_option(row: &rusqlite::Row) -> Result<QuestionOption, rusqlite::Error> {
    Ok(QuestionOption {
        id: row.get(0)?, question_id: row.get(1)?, option_text: row.get(2)?,
        option_image_path: row.get(3)?, is_correct: row.get::<_, i32>(4)? != 0,
        display_order: row.get(5)?,
    })
}

/// Relies on rusqlite::Row::get for each column of a blank row.
#[verifier::external_body]
fn read_blank(row: &rusqlite::Row) -> Result<QuestionBlank, rusqlite::Error> {
    Ok(QuestionBlank {
        id: row.get(0)?, question_id: row.get(1)?, blank_index: row.get(2)?,
        correct_answer: row.get(3)?, acceptable_answers: row.get(4)?,
        is_numeric: row.get::<_, i32>(5)? != 0, numeric_tolerance: row.get(6)?,
        unit: row.get(7)?, input_type: row.get(8)?, dropdown_options: row.get(9)?,
    })
}

/// Relies on rusqlite::Row::get for each column of an order-item row.
#[verifier::external_body]
fn read_order_item(row: &rusqlite::Row) -> Result<QuestionOrderItem, rusqlite::Error> {
    Ok(QuestionOrderItem {
        id: row.get(0)?, question_id: row.get(1)?, item_text: row.get(2)?,
        correct_position: row.get(3)?,
    })
}

/// Relies on rusqlite::Row::get for each column of a match-pair row.
#[verifier::external_body]
fn read_match(row: &rusqlite::Row) -> Result<QuestionMatch, rusqlite::Error> {
    Ok(QuestionMatch {
        id: row.get(0)?, question_id: row.get(1)?, left_item: row.get(2)?, right_item: row.get(3)?,
        left_image_path: row.get(4)?, right_image_path: row.get(5)?, display_order: row.get(6)?,
    })
}

/// Relies on rusqlite::Row::get for each column of a quiz row.
#[verifier::external_body]
fn read_quiz(row: &rusqlite::Row) -> Result<Quiz, rusqlite::Error> {
    Ok(Quiz {
        id: row.get(0)?, topic_id: row.get(1)?, name: row.get(2)?, description: row.get(3)?,
        question_count: row.get(4)?, time_limit_minutes: row.get(5)?,
        shuffle_questions: row.get::<_, i32>(6)? != 0, shuffle_options: row.get::<_, i32>(7)? != 0,
        show_answers_after: row.get(8)?, passing_score_percent: row.get(9)?,
        created_at: row.get(10)?, updated_at: row.get(11)?,
    })
}

/// Relies on rusqlite::Row::get for each column of an exam row.
#[verifier::external_body]
fn read_exam(row: &rusqlite::Row) -> Result<Exam, rusqlite::Error> {
    Ok(Exam {
        id: row.get(0)?, subject_id: row.get(1)?, name: row.get(2)?, description: row.get(3)?,
        total_question_count: row.get(4)?, time_limit_minutes: row.get(5)?,
        shuffle_questions: row.get::<_, i32>(6)? != 0, shuffle_options: row.get::<_, i32>(7)? != 0,
        show_answers_after: row.get(8)?, passing_score_percent: row.get(9)?,
        created_at: row.get(10)?, updated_at: row.get(11)?,
    })
}

/// Relies on rusqlite::Row::get for each column of an exam-topic join row.
#[verifier::external_body]
fn read_exam_topic(row: &rusqlite::Row) -> Result<ExamTopicWithName, rusqlite::Error> {
    Ok(ExamTopicWithName {
        id: row.get(0)?, exam_id: row.get(1)?, topic_id: row.get(2)?, topic_name: row.get(3)?,
        question_count: row.get(4)?,
    })
}

/// Relies on rusqlite::Row::get for each column of a quiz-attempt join row.
#[verifier::external_body]
fn read_quiz_attempt(row: &rusqlite::Row) -> Result<QuizAttemptRecord, rusqlite::Error> {
    Ok(QuizAttemptRecord {
        id: row.get(0)?, quiz_id: row.get(1)?, quiz_name: row.get(2)?,
        passing_score_percent: row.get(3)?, topic_id: row.get(4)?, topic_name: row.get(5)?,
        subject_name: row.get(6)?, started_at: row.get(7)?, completed_at: row.get(8)?,
        score: row.get(9)?, max_score: row.get(10)?, percentage: row.get(11)?,
        time_taken_seconds: row.get(12)?,
    })
}

/// Relies on rusqlite::Row::get for each column of an exam-attempt join row.
#[verifier::external_body]
fn read_exam_attempt(row: &rusqlite::Row) -> Result<ExamAttemptRecord, rusqlite::Error> {
    Ok(ExamAttemptRecord {
        id: row.get(0)?, exam_id: row.get(1)?, exam_name: row.get(2)?,
        passing_score_percent: row.get(3)?, subject_id: row.get(4)?, subject_name: row.get(5)?,
        started_at: row.get(6)?, completed_at: row.get(7)?, score: row.get(8)?,
        max_score: row.get(9)?, percentage: row.get(10)?, time_taken_seconds: row.get(11)?,
    })
}

/// Relies on rusqlite::Connection::open_in_memory: a fresh in-memory database
/// is empty, in autocommit mode, with foreign-key enforcement off.
#[verifier::external_body]
pub(crate) fn open_memory_raw() -> (r: Result<rusqlite::Connection, StoreError>)
    ensures
        r matches Ok(c) ==> db(c) == (Db {
            cur: Tables::empty(),
            base: Tables::empty(),
            in_tx: false,
            fk_on: false,
        }),
{
    rusqlite::Connection::open_in_memory().map_err(to_store_error)
}

/// Relies on rusqlite::Connection::open: the file's contents are whatever is
/// on disk, so nothing is claimed of them; the fresh connection is in
/// autocommit mode with foreign-key enforcement off.
#[verifier::external_body]
pub(crate) fn open_path_raw(path: &str) -> (r: Result<rusqlite::Connection, StoreError>)
    ensures
        r matches Ok(c) ==> !db(c).in_tx && db(c).cur == db(c).base && !db(c).fk_on,
{
    rusqlite::Connection::open(path).map_err(to_store_error)
}

/// Relies on rusqlite::Connection::execute running `PRAGMA foreign_keys = ON`,
/// which turns cascade enforcement on for this connection and changes no row.
/// The pragma is a no-op inside an open transaction, hence the requires.
#[verifier::external_body]
pub(crate) fn pragma_foreign_keys_raw(conn: &mut rusqlite::Connection) -> (r: Result<(), StoreError>)
    requires
        !db(*old(conn)).in_tx,
    ensures
        r is Ok ==> db(*final(conn)) == (Db { fk_on: true, ..db(*old(conn)) }),
        r is Err ==> db(*final(conn)) == db(*old(conn)),
        r matches Err(e) ==> !(e is NotFound),
{
    match conn.execute("PRAGMA foreign_keys = ON", []) {
        Ok(_) => Ok(()),
        Err(e) => Err(to_store_error(e)),
    }
}

/// Relies on rusqlite::Connection::execute running the `subjects` table
/// definition shown in the body: idempotent, and it changes no row of any
/// modelled table.
#[verifier::external_body]
pub(crate) fn create_subjects_table(conn: &mut rusqlite::Connection) -> (r: Result<(), StoreError>)
    requires
        !db(*old(conn)).in_tx,
    ensures
        db(*final(conn)) == db(*old(conn)),
        r matches Err(e) ==> !(e is NotFound),
{
    match conn.execute(
        "CREATE TABLE IF NOT EXISTS subjects (id INTEGER PRIMARY KEY, name TEXT NOT NULL, description TEXT, color TEXT NOT NULL, icon TEXT, created_at TEXT NOT NULL DEFAULT CURRENT_TIMESTAMP, updated_at TEXT NOT NULL DEFAULT CURRENT_TIMESTAMP)",
        [],
    ) {
        Ok(_) => Ok(()),
        Err(e) => Err(to_store_error(e)),
    }
}

/// Relies on rusqlite::Connection::execute running the `topics` table
/// definition shown in the body: idempotent, and it changes no row of any
/// modelled table.
#[verifier::external_body]
pub(crate) fn create_topics_table(conn: &mut rusqlite::Connection) -> (r: Result<(), StoreError>)
    requires
        !db(*old(conn)).in_tx,
    ensures
        db(*final(conn)) == db(*old(conn)),
        r matches Err(e) ==> !(e is NotFound),
{
    match conn.execute(
        "CREATE TABLE IF NOT EXISTS topics (id INTEGER PRIMARY KEY, subject_id INTEGER NOT NULL REFERENCES subjects(id) ON DELETE CASCADE, name TEXT NOT NULL, description TEXT, week_number INTEGER, created_at TEXT NOT NULL DEFAULT CURRENT_TIMESTAMP, updated_at TEXT NOT NULL DEFAULT CURRENT_TIMESTAMP)",
        [],
    ) {
        Ok(_) => Ok(()),
        Err(e) => Err(to_store_error(e)),
    }
}

/// Relies on rusqlite::Connection::execute running the `questions` table
/// definition shown in the body: idempotent, and it changes no row of any
/// modelled table.
#[verifier::external_body]
pub(crate) fn create_questions_table(conn: &mut rusqlite::Connection) -> (r: Result<(), StoreError>)
    requires
        !db(*old(conn)).in_tx,
    ensures
        db(*final(conn)) == db(*old(conn)),
        r matches Err(e) ==> !(e is NotFound),
{
    match conn.execute(
        "CREATE TABLE IF NOT EXISTS questions (id INTEGER PRIMARY KEY, subject_id INTEGER NOT NULL REFERENCES subjects(id) ON DELETE CASCADE, topic_id INTEGER NOT NULL REFERENCES topics(id) ON DELETE CASCADE, question_type TEXT NOT NULL, question_text TEXT NOT NULL, question_image_path TEXT, explanation TEXT, difficulty TEXT NOT NULL, points INTEGER NOT NULL, source TEXT, created_at TEXT NOT NULL DEFAULT CURRENT_TIMESTAMP, updated_at TEXT NOT NULL DEFAULT CURRENT_TIMESTAMP)",
        [],
    ) {
        Ok(_) => Ok(()),
        Err(e) => Err(to_store_error(e)),
    }
}

/// Relies on rusqlite::Connection::execute running the `question_options` table
/// definition shown in the body: idempotent, and it changes no row of any
/// modelled table.
#[verifier::external_body]
pub(crate) fn create_question_options_table(conn: &mut rusqlite::Connection) -> (r: Result<(), StoreError>)
    requires
        !db(*old(conn)).in_tx,
    ensures
        db(*final(conn)) == db(*old(conn)),
        r matches Err(e) ==> !(e is NotFound),
{
    match conn.execute(
        "CREATE TABLE IF NOT EXISTS question_options (id INTEGER PRIMARY KEY, question_id INTEGER NOT NULL REFERENCES questions(id) ON DELETE CASCADE, option_text TEXT NOT NULL, option_image_path TEXT, is_correct INTEGER NOT NULL, display_order INTEGER NOT NULL)",
        [],
    ) {
        Ok(_) => Ok(()),
        Err(e) => Err(to_store_error(e)),
    }
}

/// Relies on rusqlite::Connection::execute running the `question_blanks` table
/// definition shown in the body: idempotent, and it changes no row of any
/// modelled table.
#[verifier::external_body]
pub(crate) fn create_question_blanks_table(conn: &mut rusqlite::Connection) -> (r: Result<(), StoreError>)
    requires
        !db(*old(conn)).in_tx,
    ensures
        db(*final(conn)) == db(*old(conn)),
        r matches Err(e) ==> !(e is NotFound),
{
    match conn.execute(
        "CREATE TABLE IF NOT EXISTS question_blanks (id INTEGER PRIMARY KEY, question_id INTEGER NOT NULL REFERENCES questions(id) ON DELETE CASCADE, blank_index INTEGER NOT NULL, correct_answer TEXT NOT NULL, acceptable_answers TEXT, is_numeric INTEGER NOT NULL, numeric_tolerance INTEGER, unit TEXT, input_type TEXT NOT NULL, dropdown_options TEXT)",
        [],
    ) {
        Ok(_) => Ok(()),
        Err(e) => Err(to_store_error(e)),
    }
}

/// Relies on rusqlite::Connection::execute running the `question_order_items` table
/// definition shown in the body: idempotent, and it changes no row of any
/// modelled table.
#[verifier::external_body]
pub(crate) fn create_question_order_items_table(conn: &mut rusqlite::Connection) -> (r: Result<(), StoreError>)
    requires
        !db(*old(conn)).in_tx,
    ensures
        db(*final(conn)) == db(*old(conn)),
        r matches Err(e) ==> !(e is NotFound),
{
    match conn.execute(
        "CREATE TABLE IF NOT EXISTS question_order_items (id INTEGER PRIMARY KEY, question_id INTEGER NOT NULL REFERENCES questions(id) ON DELETE CASCADE, item_text TEXT NOT NULL, correct_position INTEGER NOT NULL)",
        [],
    ) {
        Ok(_) => Ok(()),
        Err(e) => Err(to_store_error(e)),
    }
}

/// Relies on rusqlite::Connection::execute running the `question_matches` table
/// definition shown in the body: idempotent, and it changes no row of any
/// modelled table.
#[verifier::external_body]
pub(crate) fn create_question_matches_table(conn: &mut rusqlite::Connection) -> (r: Result<(), StoreError>)
    requires
        !db(*old(conn)).in_tx,
    ensures
        db(*final(conn)) == db(*old(conn)),
        r matches Err(e) ==> !(e is NotFound),
{
    match conn.execute(
        "CREATE TABLE IF NOT EXISTS question_matches (id INTEGER PRIMARY KEY, question_id INTEGER NOT NULL REFERENCES questions(id) ON DELETE CASCADE, left_item TEXT NOT NULL, right_item TEXT NOT NULL, left_image_path TEXT, right_image_path TEXT, display_order INTEGER NOT NULL)",
        [],
    ) {
        Ok(_) => Ok(()),
        Err(e) => Err(to_store_error(e)),
    }
}

/// Relies on rusqlite::Connection::execute running the `quizzes` table
/// definition shown in the body: idempotent, and it changes no row of any
/// modelled table.
#[verifier::external_body]
pub(crate) fn create_quizzes_table(conn: &mut rusqlite::Connection) -> (r: Result<(), StoreError>)
    requires
        !db(*old(conn)).in_tx,
    ensures
        db(*final(conn)) == db(*old(conn)),
        r matches Err(e) ==> !(e is NotFound),
{
    match conn.execute(
        "CREATE TABLE IF NOT EXISTS quizzes (id INTEGER PRIMARY KEY, topic_id INTEGER NOT NULL REFERENCES topics(id) ON DELETE CASCADE, name TEXT NOT NULL, description TEXT, question_count INTEGER NOT NULL, time_limit_minutes INTEGER, shuffle_questions INTEGER NOT NULL, shuffle_options INTEGER NOT NULL, show_answers_after TEXT NOT NULL, passing_score_percent INTEGER NOT NULL, created_at TEXT NOT NULL DEFAULT CURRENT_TIMESTAMP, updated_at TEXT NOT NULL DEFAULT CURRENT_TIMESTAMP)",
        [],
    ) {
        Ok(_) => Ok(()),
        Err(e) => Err(to_store_error(e)),
    }
}

/// Relies on rusqlite::Connection::execute running the `quiz_attempts` table
/// definition shown in the body: idempotent, and it changes no row of any
/// modelled table.
#[verifier::external_body]
pub(crate) fn create_quiz_attempts_table(conn: &mut rusqlite::Connection) -> (r: Result<(), StoreError>)
    requires
        !db(*old(conn)).in_tx,
    ensures
        db(*final(conn)) == db(*old(conn)),
        r matches Err(e) ==> !(e is NotFound),
{
    match conn.execute(
        "CREATE TABLE IF NOT EXISTS quiz_attempts (id INTEGER PRIMARY KEY, quiz_id INTEGER NOT NULL REFERENCES quizzes(id) ON DELETE CASCADE, started_at TEXT NOT NULL DEFAULT CURRENT_TIMESTAMP, completed_at TEXT, score INTEGER NOT NULL, max_score INTEGER NOT NULL, percentage INTEGER NOT NULL, time_taken_seconds INTEGER NOT NULL)",
        [],
    ) {
        Ok(_) => Ok(()),
        Err(e) => Err(to_store_error(e)),
    }
}

/// Relies on rusqlite::Connection::execute running the `exams` table
/// definition shown in the body: idempotent, and it changes no row of any
/// modelled table.
#[verifier::external_body]
pub(crate) fn create_exams_table(conn: &mut rusqlite::Connection) -> (r: Result<(), StoreError>)
    requires
        !db(*old(conn)).in_tx,
    ensures
        db(*final(conn)) == db(*old(conn)),
        r matches Err(e) ==> !(e is NotFound),
{
    match conn.execute(
        "CREATE TABLE IF NOT EXISTS exams (id INTEGER PRIMARY KEY, subject_id INTEGER NOT NULL REFERENCES subjects(id) ON DELETE CASCADE, name TEXT NOT NULL, description TEXT, total_question_count INTEGER NOT NULL, time_limit_minutes INTEGER, shuffle_questions INTEGER NOT NULL, shuffle_options INTEGER NOT NULL, show_answers_after TEXT NOT NULL, passing_score_percent INTEGER NOT NULL, created_at TEXT NOT NULL DEFAULT CURRENT_TIMESTAMP, updated_at TEXT NOT NULL DEFAULT CURRENT_TIMESTAMP)",
        [],
    ) {
        Ok(_) => Ok(()),
        Err(e) => Err(to_store_error(e)),
    }
}

/// Relies on rusqlite::Connection::execute running the `exam_topics` table
/// definition shown in the body: idempotent, and it changes no row of any
/// modelled table.
#[verifier::external_body]
pub(crate) fn create_exam_topics_table(conn: &mut rusqlite::Connection) -> (r: Result<(), StoreError>)
    requires
        !db(*old(conn)).in_tx,
    ensures
        db(*final(conn)) == db(*old(conn)),
        r matches Err(e) ==> !(e is NotFound),
{
    match conn.execute(
        "CREATE TABLE IF NOT EXISTS exam_topics (id INTEGER PRIMARY KEY, exam_id INTEGER NOT NULL REFERENCES exams(id) ON DELETE CASCADE, topic_id INTEGER NOT NULL REFERENCES topics(id) ON DELETE CASCADE, question_count INTEGER NOT NULL)",
        [],
    ) {
        Ok(_) => Ok(()),
        Err(e) => Err(to_store_error(e)),
    }
}

/// Relies on rusqlite::Connection::execute running the `exam_attempts` table
/// definition shown in the body: idempotent, and it changes no row of any
/// modelled table.
#[verifier::external_body]
pub(crate) fn create_exam_attempts_table(conn: &mut rusqlite::Connection) -> (r: Result<(), StoreError>)
    requires
        !db(*old(conn)).in_tx,
    ensures
        db(*final(conn)) == db(*old(conn)),
        r matches Err(e) ==> !(e is NotFound),
{
    match conn.execute(
        "CREATE TABLE IF NOT EXISTS exam_attempts (id INTEGER PRIMARY KEY, exam_id INTEGER NOT NULL REFERENCES exams(id) ON DELETE CASCADE, started_at TEXT NOT NULL DEFAULT CURRENT_TIMESTAMP, completed_at TEXT, score INTEGER NOT NULL, max_score INTEGER NOT NULL, percentage INTEGER NOT NULL, time_taken_seconds INTEGER NOT NULL)",
        [],
    ) {
        Ok(_) => Ok(()),
        Err(e) => Err(to_store_error(e)),
    }
}

/// Relies on rusqlite::Connection::execute running `BEGIN IMMEDIATE`: on
/// success a transaction is open and the rollback point is the current
/// contents; on failure nothing changed.
#[verifier::external_body]
pub(crate) fn begin_raw(conn: &mut rusqlite::Connection) -> (r: Result<(), StoreError>)
    requires
        !db(*old(conn)).in_tx,
    ensures
        r is Ok ==> db(*final(conn)) == (Db { in_tx: true, ..db(*old(conn)) }),
        r is Err ==> db(*final(conn)) == db(*old(conn)),
        r matches Err(e) ==> !(e is NotFound),
{
    match conn.execute("BEGIN IMMEDIATE", []) {
        Ok(_) => Ok(()),
        Err(e) => Err(to_store_error(e)),
    }
}

/// Relies on rusqlite::Connection::execute running `COMMIT`: on success the
/// transaction's writes become the rollback point; a failed commit either
/// keeps the transaction open or has rolled it back.
#[verifier::external_body]
pub(crate) fn commit_raw(conn: &mut rusqlite::Connection) -> (r: Result<(), StoreError>)
    requires
        db(*old(conn)).in_tx,
    ensures
        r is Ok ==> db(*final(conn)) == (Db { in_tx: false, base: db(*old(conn)).cur, ..db(*old(conn)) }),
        r is Err ==> unchanged_or_aborted(db(*old(conn)), db(*final(conn))),
        r matches Err(e) ==> !(e is NotFound),
{
    match conn.execute("COMMIT", []) {
        Ok(_) => Ok(()),
        Err(e) => Err(to_store_error(e)),
    }
}

/// Relies on rusqlite::Connection::execute running `ROLLBACK` on a connection
/// with no other live statement: afterwards no transaction is open and the
/// contents are back at the rollback point.  When no transaction is open
/// (`cur == base` then) the statement fails and changes nothing, so the
/// contract holds of every outcome and the result needs no inspection.
#[verifier::external_body]
pub(crate) fn rollback_raw(conn: &mut rusqlite::Connection)
    ensures
        db(*final(conn)) == aborted(db(*old(conn))),
{
    let _ = conn.execute("ROLLBACK", []);
}

// ---------------------------------------------------------------- subjects

/// Relies on rusqlite::Connection::execute running
/// `INSERT INTO subjects (name, description, color, icon) VALUES (..)` and
/// Connection::last_insert_rowid: the fresh rowid keys exactly the inserted
/// row.
#[verifier::external_body]
pub(crate) fn insert_subject_raw(conn: &mut rusqlite::Connection, d: &CreateSubjectData) -> (r: Result<i64, StoreError>)
    ensures
        r matches Ok(id) ==> !db(*old(conn)).cur.subjects.dom().contains(id)
            && db(*final(conn)) == stepped(db(*old(conn)), Tables {
                subjects: db(*old(conn)).cur.subjects.insert(id, d.row()),
                ..db(*old(conn)).cur
            }),
        r matches Err(e) ==> unchanged_or_aborted(db(*old(conn)), db(*final(conn))) && !(e is NotFound),
{
    match conn.execute(
        "INSERT INTO subjects (name, description, color, icon) VALUES (?1, ?2, ?3, ?4)",
        (&d.name, &d.description, &d.color, &d.icon),
    ) {
        Ok(_) => Ok(conn.last_insert_rowid()),
        Err(e) => Err(to_store_error(e)),
    }
}

/// Relies on rusqlite::Connection::execute running
/// `UPDATE subjects SET .. WHERE id = ?`: exactly the row keyed by `id` is
/// rewritten, and the returned count says whether it existed.
#[verifier::external_body]
pub(crate) fn update_subject_raw(conn: &mut rusqlite::Connection, id: i64, d: &UpdateSubjectData) -> (r: Result<usize, StoreError>)
    ensures
        r matches Ok(n) ==> ({
            let t0 = db(*old(conn)).cur;
            if t0.subjects.dom().contains(id) {
                n == 1 && db(*final(conn)) == stepped(db(*old(conn)), Tables {
                    subjects: t0.subjects.insert(id, d.row()),
                    ..t0
                })
            } else {
                n == 0 && db(*final(conn)) == stepped(db(*old(conn)), t0)
            }
        }),
        r matches Err(e) ==> unchanged_or_aborted(db(*old(conn)), db(*final(conn))) && !(e is NotFound),
{
    conn.execute(
        "UPDATE subjects SET name = ?1, description = ?2, color = ?3, icon = ?4, updated_at = CURRENT_TIMESTAMP WHERE id = ?5",
        (&d.name, &d.description, &d.color, &d.icon, id),
    ).map_err(to_store_error)
}

/// Relies on rusqlite::Connection::execute running
/// `DELETE FROM subjects WHERE id = ?` with foreign keys on: the subject and
/// every dependent row go; a missing id deletes nothing and is no error.
#[verifier::external_body]
pub(crate) fn delete_subject_raw(conn: &mut rusqlite::Connection, id: i64) -> (r: Result<(), StoreError>)
    requires
        db(*old(conn)).fk_on,
    ensures
        r is Ok ==> db(*final(conn)) == stepped(db(*old(conn)), cascade_delete_subject(db(*old(conn)).cur, id)),
        r matches Err(e) ==> unchanged_or_aborted(db(*old(conn)), db(*final(conn))) && !(e is NotFound),
{
    match conn.execute("DELETE FROM subjects WHERE id = ?1", [id]) {
        Ok(_) => Ok(()),
        Err(e) => Err(to_store_error(e)),
    }
}

/// A sequence of records that reproduces exactly the subject rows of the
/// model: each entry is a stored row, no rowid twice, every stored row shown.
pub open spec fn lists_subjects(t: Tables, v: Seq<Subject>) -> bool {
    &&& forall|i: int| 0 <= i < v.len() ==> (#[trigger] v[i]).in_table(t)
    &&& forall|i: int, j: int| 0 <= i < j < v.len() ==> v[i].id != v[j].id
    &&& forall|id: i64| #[trigger] t.subjects.dom().contains(id)
            ==> exists|i: int| 0 <= i < v.len() && v[i].id == id
}

/// Relies on rusqlite `prepare`/`query_map` running
/// `SELECT .. FROM subjects ORDER BY created_at DESC`: every stored subject
/// row is returned once (the recency order rests on unmodelled timestamps and
/// is not stated).
#[verifier::external_body]
pub(crate) fn select_subjects_raw(conn: &rusqlite::Connection) -> (r: Result<Vec<Subject>, StoreError>)
    ensures
        r matches Ok(v) ==> lists_subjects(db(*conn).cur, v@),
        r matches Err(e) ==> !(e is NotFound),
{
    let mut stmt = match conn.prepare("SELECT id, name, description, color, icon, created_at, updated_at FROM subjects ORDER BY created_at DESC") {
        Ok(s) => s, Err(e) => return Err(to_store_error(e)),
    };
    let rows = match stmt.query_map([], read_subject) { Ok(it) => it, Err(e) => return Err(to_store_error(e)) };
    rows.collect::<Result<Vec<Subject>, rusqlite::Error>>().map_err(to_store_error)
}

/// Relies on rusqlite::Connection::query_row running
/// `SELECT .. FROM subjects WHERE id = ?`: the returned record is the stored
/// row, and the no-row failure happens exactly when the id is absent.
#[verifier::external_body]
pub(crate) fn select_subject_raw(conn: &rusqlite::Connection, id: i64) -> (r: Result<Subject, StoreError>)
    ensures
        r matches Ok(s) ==> s.id == id && s.in_table(db(*conn).cur),
        r matches Err(e) ==> (e is NotFound ==> !db(*conn).cur.subjects.dom().contains(id)),
{
    conn.query_row(
        "SELECT id, name, description, color, icon, created_at, updated_at FROM subjects WHERE id = ?1",
        [id],
        read_subject,
    ).map_err(to_store_error)
}

// ------------------------------------------------------------------ topics

/// Relies on rusqlite::Connection::execute running
/// `INSERT INTO topics (subject_id, name, description, week_number)
/// VALUES (..)` and Connection::last_insert_rowid.  With foreign keys on, a
/// successful insert implies the parent subject exists.
#[verifier::external_body]
pub(crate) fn insert_topic_raw(conn: &mut rusqlite::Connection, d: &CreateTopicData) -> (r: Result<i64, StoreError>)
    requires
        db(*old(conn)).fk_on,
    ensures
        r matches Ok(id) ==> !db(*old(conn)).cur.topics.dom().contains(id)
            && db(*old(conn)).cur.subjects.dom().contains(d.subject_id)
            && db(*final(conn)) == stepped(db(*old(conn)), Tables {
                topics: db(*old(conn)).cur.topics.insert(id, d.row()),
                ..db(*old(conn)).cur
            }),
        r matches Err(e) ==> unchanged_or_aborted(db(*old(conn)), db(*final(conn))) && !(e is NotFound),
{
    match conn.execute(
        "INSERT INTO topics (subject_id, name, description, week_number) VALUES (?1, ?2, ?3, ?4)",
        (d.subject_id, &d.name, &d.description, &d.week_number),
    ) {
        Ok(_) => Ok(conn.last_insert_rowid()),
        Err(e) => Err(to_store_error(e)),
    }
}

/// Relies on rusqlite::Connection::execute running
/// `UPDATE topics SET .. WHERE id = ?`: the row keeps its parent subject,
/// and the returned count says whether it existed.
#[verifier::external_body]
pub(crate) fn update_topic_raw(conn: &mut rusqlite::Connection, id: i64, d: &UpdateTopicData) -> (r: Result<usize, StoreError>)
    ensures
        r matches Ok(n) ==> ({
            let t0 = db(*old(conn)).cur;
            if t0.topics.dom().contains(id) {
                n == 1 && db(*final(conn)) == stepped(db(*old(conn)), Tables {
                    topics: t0.topics.insert(id, d.row(t0.topics[id].subject_id)),
                    ..t0
                })
            } else {
                n == 0 && db(*final(conn)) == stepped(db(*old(conn)), t0)
            }
        }),
        r matches Err(e) ==> unchanged_or_aborted(db(*old(conn)), db(*final(conn))) && !(e is NotFound),
{
    conn.execute(
        "UPDATE topics SET name = ?1, description = ?2, week_number = ?3, updated_at = CURRENT_TIMESTAMP WHERE id = ?4",
        (&d.name, &d.description, &d.week_number, id),
    ).map_err(to_store_error)
}

/// Relies on rusqlite::Connection::execute running
/// `DELETE FROM topics WHERE id = ?` with foreign keys on: the topic and its
/// questions, variant rows, quizzes, attempts and exam quotas go.
#[verifier::external_body]
pub(crate) fn delete_topic_raw(conn: &mut rusqlite::Connection, id: i64) -> (r: Result<(), StoreError>)
    requires
        db(*old(conn)).fk_on,
    ensures
        r is Ok ==> db(*final(conn)) == stepped(db(*old(conn)), cascade_delete_topic(db(*old(conn)).cur, id)),
        r matches Err(e) ==> unchanged_or_aborted(db(*old(conn)), db(*final(conn))) && !(e is NotFound),
{
    match conn.execute("DELETE FROM topics WHERE id = ?1", [id]) {
        Ok(_) => Ok(()),
        Err(e) => Err(to_store_error(e)),
    }
}

/// A sequence that reproduces exactly the topic rows under one subject.
pub open spec fn lists_topics(t: Tables, subject_id: i64, v: Seq<Topic>) -> bool {
    &&& forall|i: int| 0 <= i < v.len()
            ==> (#[trigger] v[i]).in_table(t) && v[i].subject_id == subject_id
    &&& forall|i: int, j: int| 0 <= i < j < v.len() ==> v[i].id != v[j].id
    &&& forall|id: i64| #[trigger] t.topics.dom().contains(id) && t.topics[id].subject_id == subject_id
            ==> exists|i: int| 0 <= i < v.len() && v[i].id == id
}

/// Relies on rusqlite `prepare`/`query_map` running `SELECT .. FROM topics
/// WHERE subject_id = ? ORDER BY week_number ASC, created_at DESC`: every
/// topic row under the subject is returned once (the stated contract leaves
/// the order open, as it rests partly on unmodelled timestamps).
#[verifier::external_body]
pub(crate) fn select_topics_raw(conn: &rusqlite::Connection, subject_id: i64) -> (r: Result<Vec<Topic>, StoreError>)
    ensures
        r matches Ok(v) ==> lists_topics(db(*conn).cur, subject_id, v@),
        r matches Err(e) ==> !(e is NotFound),
{
    let mut stmt = match conn.prepare("SELECT id, subject_id, name, description, week_number, created_at, updated_at FROM topics WHERE subject_id = ? ORDER BY week_number ASC, created_at DESC") {
        Ok(s) => s, Err(e) => return Err(to_store_error(e)),
    };
    let rows = match stmt.query_map([subject_id], read_topic) { Ok(it) => it, Err(e) => return Err(to_store_error(e)) };
    rows.collect::<Result<Vec<Topic>, rusqlite::Error>>().map_err(to_store_error)
}

/// Relies on rusqlite::Connection::query_row running
/// `SELECT .. FROM topics WHERE id = ?`.
#[verifier::external_body]
pub(crate) fn select_topic_raw(conn: &rusqlite::Connection, id: i64) -> (r: Result<Topic, StoreError>)
    ensures
        r matches Ok(s) ==> s.id == id && s.in_table(db(*conn).cur),
        r matches Err(e) ==> (e is NotFound ==> !db(*conn).cur.topics.dom().contains(id)),
{
    conn.query_row(
        "SELECT id, subject_id, name, description, week_number, created_at, updated_at FROM topics WHERE id = ?1",
        [id],
        read_topic,
    ).map_err(to_store_error)
}

// ----------------------------------------------------------------- quizzes

/// Relies on rusqlite::Connection::execute running
/// `INSERT INTO quizzes (..) VALUES (..)` and Connection::last_insert_rowid.
/// With foreign keys on, a successful insert implies the parent topic exists.
#[verifier::external_body]
pub(crate) fn insert_quiz_raw(conn: &mut rusqlite::Connection, d: &CreateQuizData) -> (r: Result<i64, StoreError>)
    requires
        db(*old(conn)).fk_on,
    ensures
        r matches Ok(id) ==> !db(*old(conn)).cur.quizzes.dom().contains(id)
            && db(*old(conn)).cur.topics.dom().contains(d.topic_id)
            && db(*final(conn)) == stepped(db(*old(conn)), Tables {
                quizzes: db(*old(conn)).cur.quizzes.insert(id, d.row()),
                ..db(*old(conn)).cur
            }),
        r matches Err(e) ==> unchanged_or_aborted(db(*old(conn)), db(*final(conn))) && !(e is NotFound),
{
    match conn.execute(
        "INSERT INTO quizzes (topic_id, name, description, question_count, time_limit_minutes, shuffle_questions, shuffle_options, show_answers_after, passing_score_percent) VALUES (?1, ?2, ?3, ?4, ?5, ?6, ?7, ?8, ?9)",
        (d.topic_id, &d.name, &d.description, d.question_count, d.time_limit_minutes,
         d.shuffle_questions as i32, d.shuffle_options as i32, &d.show_answers_after, d.passing_score_percent),
    ) {
        Ok(_) => Ok(conn.last_insert_rowid()),
        Err(e) => Err(to_store_error(e)),
    }
}

/// Relies on rusqlite::Connection::execute running
/// `UPDATE quizzes SET .. WHERE id = ?`: the row keeps its parent topic.
#[verifier::external_body]
pub(crate) fn update_quiz_raw(conn: &mut rusqlite::Connection, id: i64, d: &UpdateQuizData) -> (r: Result<usize, StoreError>)
    ensures
        r matches Ok(n) ==> ({
            let t0 = db(*old(conn)).cur;
            if t0.quizzes.dom().contains(id) {
                n == 1 && db(*final(conn)) == stepped(db(*old(conn)), Tables {
                    quizzes: t0.quizzes.insert(id, d.row(t0.quizzes[id].topic_id)),
                    ..t0
                })
            } else {
                n == 0 && db(*final(conn)) == stepped(db(*old(conn)), t0)
            }
        }),
        r matches Err(e) ==> unchanged_or_aborted(db(*old(conn)), db(*final(conn))) && !(e is NotFound),
{
    conn.execute(
        "UPDATE quizzes SET name = ?1, description = ?2, question_count = ?3, time_limit_minutes = ?4, shuffle_questions = ?5, shuffle_options = ?6, show_answers_after = ?7, passing_score_percent = ?8, updated_at = CURRENT_TIMESTAMP WHERE id = ?9",
        (&d.name, &d.description, d.question_count, d.time_limit_minutes,
         d.shuffle_questions as i32, d.shuffle_options as i32, &d.show_answers_after, d.passing_score_percent, id),
    ).map_err(to_store_error)
}

/// Relies on rusqlite::Connection::execute running
/// `DELETE FROM quizzes WHERE id = ?` with foreign keys on: the quiz and its
/// attempts go.
#[verifier::external_body]
pub(crate) fn delete_quiz_raw(conn: &mut rusqlite::Connection, id: i64) -> (r: Result<(), StoreError>)
    requires
        db(*old(conn)).fk_on,
    ensures
        r is Ok ==> db(*final(conn)) == stepped(db(*old(conn)), cascade_delete_quiz(db(*old(conn)).cur, id)),
        r matches Err(e) ==> unchanged_or_aborted(db(*old(conn)), db(*final(conn))) && !(e is NotFound),
{
    match conn.execute("DELETE FROM quizzes WHERE id = ?1", [id]) {
        Ok(_) => Ok(()),
        Err(e) => Err(to_store_error(e)),
    }
}

/// A sequence that reproduces exactly the quiz rows under one topic.
pub open spec fn lists_quizzes(t: Tables, topic_id: i64, v: Seq<Quiz>) -> bool {
    &&& forall|i: int| 0 <= i < v.len()
            ==> (#[trigger] v[i]).in_table(t) && v[i].topic_id == topic_id
    &&& forall|i: int, j: int| 0 <= i < j < v.len() ==> v[i].id != v[j].id
    &&& forall|id: i64| #[trigger] t.quizzes.dom().contains(id) && t.quizzes[id].topic_id == topic_id
            ==> exists|i: int| 0 <= i < v.len() && v[i].id == id
}

/// Relies on rusqlite `prepare`/`query_map` running `SELECT .. FROM quizzes
/// WHERE topic_id = ? ORDER BY created_at DESC`: every quiz row under the
/// topic is returned once.
#[verifier::external_body]
pub(crate) fn select_quizzes_raw(conn: &rusqlite::Connection, topic_id: i64) -> (r: Result<Vec<Quiz>, StoreError>)
    ensures
        r matches Ok(v) ==> lists_quizzes(db(*conn).cur, topic_id, v@),
        r matches Err(e) ==> !(e is NotFound),
{
    let mut stmt = match conn.prepare("SELECT id, topic_id, name, description, question_count, time_limit_minutes, shuffle_questions, shuffle_options, show_answers_after, passing_score_percent, created_at, updated_at FROM quizzes WHERE topic_id = ? ORDER BY created_at DESC") {
        Ok(s) => s, Err(e) => return Err(to_store_error(e)),
    };
    let rows = match stmt.query_map([topic_id], read_quiz) { Ok(it) => it, Err(e) => return Err(to_store_error(e)) };
    rows.collect::<Result<Vec<Quiz>, rusqlite::Error>>().map_err(to_store_error)
}

/// Relies on rusqlite::Connection::query_row running
/// `SELECT .. FROM quizzes WHERE id = ?`.
#[verifier::external_body]
pub(crate) fn select_quiz_raw(conn: &rusqlite::Connection, id: i64) -> (r: Result<Quiz, StoreError>)
    ensures
        r matches Ok(s) ==> s.id == id && s.in_table(db(*conn).cur),
        r matches Err(e) ==> (e is NotFound ==> !db(*conn).cur.quizzes.dom().contains(id)),
{
    conn.query_row(
        "SELECT id, topic_id, name, description, question_count, time_limit_minutes, shuffle_questions, shuffle_options, show_answers_after, passing_score_percent, created_at, updated_at FROM quizzes WHERE id = ?1",
        [id],
        read_quiz,
    ).map_err(to_store_error)
}

// ----------------------------------------------------------- quiz attempts

/// Relies on rusqlite::Connection::execute running `INSERT INTO
/// quiz_attempts (..) VALUES (.., datetime('now'))` and last_insert_rowid.
/// With foreign keys on, a successful insert implies the quiz exists.
#[verifier::external_body]
pub(crate) fn insert_quiz_attempt_raw(conn: &mut rusqlite::Connection, d: &SaveQuizAttemptData) -> (r: Result<i64, StoreError>)
    requires
        db(*old(conn)).fk_on,
    ensures
        r matches Ok(id) ==> !db(*old(conn)).cur.quiz_attempts.dom().contains(id)
            && db(*old(conn)).cur.quizzes.dom().contains(d.quiz_id)
            && db(*final(conn)) == stepped(db(*old(conn)), Tables {
                quiz_attempts: db(*old(conn)).cur.quiz_attempts.insert(id, d.row()),
                ..db(*old(conn)).cur
            }),
        r matches Err(e) ==> unchanged_or_aborted(db(*old(conn)), db(*final(conn))) && !(e is NotFound),
{
    match conn.execute(
        "INSERT INTO quiz_attempts (quiz_id, score, max_score, percentage, time_taken_seconds, completed_at) VALUES (?1, ?2, ?3, ?4, ?5, datetime('now'))",
        (d.quiz_id, d.score, d.max_score, d.percentage, d.time_taken_seconds),
    ) {
        Ok(_) => Ok(conn.last_insert_rowid()),
        Err(e) => Err(to_store_error(e)),
    }
}

/// A sequence that reproduces exactly the quiz attempts whose quiz, topic
/// and subject all resolve, joined with their names.
pub open spec fn lists_quiz_attempt_records(t: Tables, v: Seq<QuizAttemptRecord>) -> bool {
    &&& forall|i: int| 0 <= i < v.len() ==> (#[trigger] v[i]).in_table(t)
    &&& forall|i: int, j: int| 0 <= i < j < v.len() ==> v[i].id != v[j].id
    &&& forall|id: i64| #[trigger] t.quiz_attempts.dom().contains(id)
            && t.quizzes.dom().contains(t.quiz_attempts[id].quiz_id)
            && t.topics.dom().contains(t.quizzes[t.quiz_attempts[id].quiz_id].topic_id)
            && t.subjects.dom().contains(t.topics[t.quizzes[t.quiz_attempts[id].quiz_id].topic_id].subject_id)
            ==> exists|i: int| 0 <= i < v.len() && v[i].id == id
}

/// Relies on rusqlite `prepare`/`query_map` running the quiz-attempt listing
/// join (`quiz_attempts` x `quizzes` x `topics` x `subjects`, newest first):
/// every attempt whose joins resolve is returned once with the joined names.
#[verifier::external_body]
pub(crate) fn select_quiz_attempt_records_raw(conn: &rusqlite::Connection) -> (r: Result<Vec<QuizAttemptRecord>, StoreError>)
    ensures
        r matches Ok(v) ==> lists_quiz_attempt_records(db(*conn).cur, v@),
        r matches Err(e) ==> !(e is NotFound),
{
    let mut stmt = match conn.prepare(
        "SELECT qa.id, qa.quiz_id, q.name, q.passing_score_percent, t.id, t.name, s.name, qa.started_at, qa.completed_at, qa.score, qa.max_score, qa.percentage, qa.time_taken_seconds \
         FROM quiz_attempts qa JOIN quizzes q ON qa.quiz_id = q.id JOIN topics t ON q.topic_id = t.id JOIN subjects s ON t.subject_id = s.id \
         ORDER BY qa.completed_at DESC") {
        Ok(s) => s, Err(e) => return Err(to_store_error(e)),
    };
    let rows = match stmt.query_map([], read_quiz_attempt) { Ok(it) => it, Err(e) => return Err(to_store_error(e)) };
    rows.collect::<Result<Vec<QuizAttemptRecord>, rusqlite::Error>>().map_err(to_store_error)
}


// --------------------------------------------------------------- questions

/// Relies on rusqlite::Connection::execute running
/// `INSERT INTO questions (..) VALUES (..)` and last_insert_rowid: the base
/// row alone; the variant rows are written one by one afterwards.  With
/// foreign keys on, a successful insert implies both parents exist.
#[verifier::external_body]
pub(crate) fn insert_question_raw(conn: &mut rusqlite::Connection, d: &CreateQuestionData) -> (r: Result<i64, StoreError>)
    requires
        db(*old(conn)).fk_on,
    ensures
        r matches Ok(id) ==> !db(*old(conn)).cur.questions.dom().contains(id)
            && db(*old(conn)).cur.subjects.dom().contains(d.subject_id)
            && db(*old(conn)).cur.topics.dom().contains(d.topic_id)
            && db(*final(conn)) == stepped(db(*old(conn)), Tables {
                questions: db(*old(conn)).cur.questions.insert(id, d.base_row()),
                ..db(*old(conn)).cur
            }),
        r matches Err(e) ==> unchanged_or_aborted(db(*old(conn)), db(*final(conn))) && !(e is NotFound),
{
    match conn.execute(
        "INSERT INTO questions (subject_id, topic_id, question_type, question_text, question_image_path, explanation, difficulty, points, source) VALUES (?1, ?2, ?3, ?4, ?5, ?6, ?7, ?8, ?9)",
        (d.subject_id, d.topic_id, &d.question_type, &d.question_text, &d.question_image_path,
         &d.explanation, &d.difficulty, d.points, &d.source),
    ) {
        Ok(_) => Ok(conn.last_insert_rowid()),
        Err(e) => Err(to_store_error(e)),
    }
}

/// Relies on rusqlite::Connection::execute running
/// `UPDATE questions SET .. WHERE id = ?`: the row keeps its parents and its
/// type tag, and the returned count says whether it existed.
#[verifier::external_body]
pub(crate) fn update_question_raw(conn: &mut rusqlite::Connection, id: i64, d: &UpdateQuestionData) -> (r: Result<usize, StoreError>)
    ensures
        r matches Ok(n) ==> ({
            let t0 = db(*old(conn)).cur;
            if t0.questions.dom().contains(id) {
                n == 1 && db(*final(conn)) == stepped(db(*old(conn)), Tables {
                    questions: t0.questions.insert(id, d.base_row(
                        t0.questions[id].subject_id,
                        t0.questions[id].topic_id,
                        t0.questions[id].question_type,
                    )),
                    ..t0
                })
            } else {
                n == 0 && db(*final(conn)) == stepped(db(*old(conn)), t0)
            }
        }),
        r matches Err(e) ==> unchanged_or_aborted(db(*old(conn)), db(*final(conn))) && !(e is NotFound),
{
    conn.execute(
        "UPDATE questions SET question_text = ?1, question_image_path = ?2, explanation = ?3, difficulty = ?4, points = ?5, source = ?6, updated_at = CURRENT_TIMESTAMP WHERE id = ?7",
        (&d.question_text, &d.question_image_path, &d.explanation, &d.difficulty, d.points,
         &d.source, id),
    ).map_err(to_store_error)
}

/// Relies on rusqlite::Connection::execute running
/// `DELETE FROM questions WHERE id = ?` with foreign keys on: the question
/// and its four variant-row sets go.
#[verifier::external_body]
pub(crate) fn delete_question_raw(conn: &mut rusqlite::Connection, id: i64) -> (r: Result<(), StoreError>)
    requires
        db(*old(conn)).fk_on,
    ensures
        r is Ok ==> db(*final(conn)) == stepped(db(*old(conn)), cascade_delete_question(db(*old(conn)).cur, id)),
        r matches Err(e) ==> unchanged_or_aborted(db(*old(conn)), db(*final(conn))) && !(e is NotFound),
{
    match conn.execute("DELETE FROM questions WHERE id = ?1", [id]) {
        Ok(_) => Ok(()),
        Err(e) => Err(to_store_error(e)),
    }
}

/// Relies on rusqlite::Connection::execute running
/// `INSERT INTO question_options (..) VALUES (..)` and last_insert_rowid.
#[verifier::external_body]
pub(crate) fn insert_option_raw(conn: &mut rusqlite::Connection, question_id: i64, d: &CreateQuestionOption) -> (r: Result<i64, StoreError>)
    requires
        db(*old(conn)).fk_on,
    ensures
        r matches Ok(id) ==> !db(*old(conn)).cur.options.dom().contains(id)
            && db(*old(conn)).cur.questions.dom().contains(question_id)
            && db(*final(conn)) == stepped(db(*old(conn)), Tables {
                options: db(*old(conn)).cur.options.insert(id, d.row(question_id)),
                ..db(*old(conn)).cur
            }),
        r matches Err(e) ==> unchanged_or_aborted(db(*old(conn)), db(*final(conn))) && !(e is NotFound),
{
    match conn.execute(
        "INSERT INTO question_options (question_id, option_text, option_image_path, is_correct, display_order) VALUES (?1, ?2, ?3, ?4, ?5)",
        (question_id, &d.option_text, &d.option_image_path, d.is_correct as i32, d.display_order),
    ) {
        Ok(_) => Ok(conn.last_insert_rowid()),
        Err(e) => Err(to_store_error(e)),
    }
}

/// Relies on rusqlite::Connection::execute running
/// `INSERT INTO question_blanks (..) VALUES (..)` and last_insert_rowid.
/// The tolerance column holds millionths as an integer.
#[verifier::external_body]
pub(crate) fn insert_blank_raw(conn: &mut rusqlite::Connection, question_id: i64, d: &CreateQuestionBlank) -> (r: Result<i64, StoreError>)
    requires
        db(*old(conn)).fk_on,
    ensures
        r matches Ok(id) ==> !db(*old(conn)).cur.blanks.dom().contains(id)
            && db(*old(conn)).cur.questions.dom().contains(question_id)
            && db(*final(conn)) == stepped(db(*old(conn)), Tables {
                blanks: db(*old(conn)).cur.blanks.insert(id, d.row(question_id)),
                ..db(*old(conn)).cur
            }),
        r matches Err(e) ==> unchanged_or_aborted(db(*old(conn)), db(*final(conn))) && !(e is NotFound),
{
    match conn.execute(
        "INSERT INTO question_blanks (question_id, blank_index, correct_answer, acceptable_answers, is_numeric, numeric_tolerance, unit, input_type, dropdown_options) VALUES (?1, ?2, ?3, ?4, ?5, ?6, ?7, ?8, ?9)",
        (question_id, d.blank_index, &d.correct_answer, &d.acceptable_answers,
         d.is_numeric as i32, &d.numeric_tolerance, &d.unit, &d.input_type, &d.dropdown_options),
    ) {
        Ok(_) => Ok(conn.last_insert_rowid()),
        Err(e) => Err(to_store_error(e)),
    }
}

/// Relies on rusqlite::Connection::execute running
/// `INSERT INTO question_order_items (..) VALUES (..)` and last_insert_rowid.
#[verifier::external_body]
pub(crate) fn insert_order_item_raw(conn: &mut rusqlite::Connection, question_id: i64, d: &CreateOrderItem) -> (r: Result<i64, StoreError>)
    requires
        db(*old(conn)).fk_on,
    ensures
        r matches Ok(id) ==> !db(*old(conn)).cur.order_items.dom().contains(id)
            && db(*old(conn)).cur.questions.dom().contains(question_id)
            && db(*final(conn)) == stepped(db(*old(conn)), Tables {
                order_items: db(*old(conn)).cur.order_items.insert(id, d.row(question_id)),
                ..db(*old(conn)).cur
            }),
        r matches Err(e) ==> unchanged_or_aborted(db(*old(conn)), db(*final(conn))) && !(e is NotFound),
{
    match conn.execute(
        "INSERT INTO question_order_items (question_id, item_text, correct_position) VALUES (?1, ?2, ?3)",
        (question_id, &d.text, d.correct_position),
    ) {
        Ok(_) => Ok(conn.last_insert_rowid()),
        Err(e) => Err(to_store_error(e)),
    }
}

/// Relies on rusqlite::Connection::execute running
/// `INSERT INTO question_matches (..) VALUES (..)` and last_insert_rowid.
/// The display order is the pair's position in the submitted payload.
#[verifier::external_body]
pub(crate) fn insert_match_raw(conn: &mut rusqlite::Connection, question_id: i64, d: &CreateMatchPair, display_order: i32) -> (r: Result<i64, StoreError>)
    requires
        db(*old(conn)).fk_on,
    ensures
        r matches Ok(id) ==> !db(*old(conn)).cur.matches.dom().contains(id)
            && db(*old(conn)).cur.questions.dom().contains(question_id)
            && db(*final(conn)) == stepped(db(*old(conn)), Tables {
                matches: db(*old(conn)).cur.matches.insert(id, d.row(question_id, display_order)),
                ..db(*old(conn)).cur
            }),
        r matches Err(e) ==> unchanged_or_aborted(db(*old(conn)), db(*final(conn))) && !(e is NotFound),
{
    match conn.execute(
        "INSERT INTO question_matches (question_id, left_item, right_item, left_image_path, right_image_path, display_order) VALUES (?1, ?2, ?3, ?4, ?5, ?6)",
        (question_id, &d.left_item, &d.right_item, &d.left_image_path, &d.right_image_path,
         display_order),
    ) {
        Ok(_) => Ok(conn.last_insert_rowid()),
        Err(e) => Err(to_store_error(e)),
    }
}

/// Relies on rusqlite::Connection::execute running
/// `DELETE FROM question_options WHERE question_id = ?`.
#[verifier::external_body]
pub(crate) fn delete_options_for_raw(conn: &mut rusqlite::Connection, question_id: i64) -> (r: Result<(), StoreError>)
    ensures
        r is Ok ==> db(*final(conn)) == stepped(db(*old(conn)), Tables {
            options: db(*old(conn)).cur.options.remove_keys(
                options_of_questions(db(*old(conn)).cur, set![question_id])),
            ..db(*old(conn)).cur
        }),
        r matches Err(e) ==> unchanged_or_aborted(db(*old(conn)), db(*final(conn))) && !(e is NotFound),
{
    match conn.execute("DELETE FROM question_options WHERE question_id = ?1", [question_id]) {
        Ok(_) => Ok(()),
        Err(e) => Err(to_store_error(e)),
    }
}

/// Relies on rusqlite::Connection::execute running
/// `DELETE FROM question_blanks WHERE question_id = ?`.
#[verifier::external_body]
pub(crate) fn delete_blanks_for_raw(conn: &mut rusqlite::Connection, question_id: i64) -> (r: Result<(), StoreError>)
    ensures
        r is Ok ==> db(*final(conn)) == stepped(db(*old(conn)), Tables {
            blanks: db(*old(conn)).cur.blanks.remove_keys(
                blanks_of_questions(db(*old(conn)).cur, set![question_id])),
            ..db(*old(conn)).cur
        }),
        r matches Err(e) ==> unchanged_or_aborted(db(*old(conn)), db(*final(conn))) && !(e is NotFound),
{
    match conn.execute("DELETE FROM question_blanks WHERE question_id = ?1", [question_id]) {
        Ok(_) => Ok(()),
        Err(e) => Err(to_store_error(e)),
    }
}

/// Relies on rusqlite::Connection::execute running
/// `DELETE FROM question_order_items WHERE question_id = ?`.
#[verifier::external_body]
pub(crate) fn delete_order_items_for_raw(conn: &mut rusqlite::Connection, question_id: i64) -> (r: Result<(), StoreError>)
    ensures
        r is Ok ==> db(*final(conn)) == stepped(db(*old(conn)), Tables {
            order_items: db(*old(conn)).cur.order_items.remove_keys(
                order_items_of_questions(db(*old(conn)).cur, set![question_id])),
            ..db(*old(conn)).cur
        }),
        r matches Err(e) ==> unchanged_or_aborted(db(*old(conn)), db(*final(conn))) && !(e is NotFound),
{
    match conn.execute("DELETE FROM question_order_items WHERE question_id = ?1", [question_id]) {
        Ok(_) => Ok(()),
        Err(e) => Err(to_store_error(e)),
    }
}

/// Relies on rusqlite::Connection::execute running
/// `DELETE FROM question_matches WHERE question_id = ?`.
#[verifier::external_body]
pub(crate) fn delete_matches_for_raw(conn: &mut rusqlite::Connection, question_id: i64) -> (r: Result<(), StoreError>)
    ensures
        r is Ok ==> db(*final(conn)) == stepped(db(*old(conn)), Tables {
            matches: db(*old(conn)).cur.matches.remove_keys(
                matches_of_questions(db(*old(conn)).cur, set![question_id])),
            ..db(*old(conn)).cur
        }),
        r matches Err(e) ==> unchanged_or_aborted(db(*old(conn)), db(*final(conn))) && !(e is NotFound),
{
    match conn.execute("DELETE FROM question_matches WHERE question_id = ?1", [question_id]) {
        Ok(_) => Ok(()),
        Err(e) => Err(to_store_error(e)),
    }
}

/// A sequence that reproduces exactly the question base rows under one topic.
pub open spec fn lists_questions(t: Tables, topic_id: i64, v: Seq<Question>) -> bool {
    &&& forall|i: int| 0 <= i < v.len()
            ==> (#[trigger] v[i]).in_table(t) && v[i].topic_id == topic_id
    &&& forall|i: int, j: int| 0 <= i < j < v.len() ==> v[i].id != v[j].id
    &&& forall|id: i64| #[trigger] t.questions.dom().contains(id) && t.questions[id].topic_id == topic_id
            ==> exists|i: int| 0 <= i < v.len() && v[i].id == id
}

/// Relies on rusqlite `prepare`/`query_map` running `SELECT .. FROM
/// questions WHERE topic_id = ? ORDER BY created_at DESC`.
#[verifier::external_body]
pub(crate) fn select_questions_raw(conn: &rusqlite::Connection, topic_id: i64) -> (r: Result<Vec<Question>, StoreError>)
    ensures
        r matches Ok(v) ==> lists_questions(db(*conn).cur, topic_id, v@),
        r matches Err(e) ==> !(e is NotFound),
{
    let mut stmt = match conn.prepare("SELECT id, subject_id, topic_id, question_type, question_text, question_image_path, explanation, difficulty, points, source, created_at, updated_at FROM questions WHERE topic_id = ? ORDER BY created_at DESC") {
        Ok(s) => s, Err(e) => return Err(to_store_error(e)),
    };
    let rows = match stmt.query_map([topic_id], read_question) { Ok(it) => it, Err(e) => return Err(to_store_error(e)) };
    rows.collect::<Result<Vec<Question>, rusqlite::Error>>().map_err(to_store_error)
}

/// Relies on rusqlite::Connection::query_row running
/// `SELECT .. FROM questions WHERE id = ?`.
#[verifier::external_body]
pub(crate) fn select_question_raw(conn: &rusqlite::Connection, id: i64) -> (r: Result<Question, StoreError>)
    ensures
        r matches Ok(s) ==> s.id == id && s.in_table(db(*conn).cur),
        r matches Err(e) ==> (e is NotFound ==> !db(*conn).cur.questions.dom().contains(id)),
{
    conn.query_row(
        "SELECT id, subject_id, topic_id, question_type, question_text, question_image_path, explanation, difficulty, points, source, created_at, updated_at FROM questions WHERE id = ?1",
        [id],
        read_question,
    ).map_err(to_store_error)
}

/// A sequence that reproduces exactly one question's option rows, ascending
/// by display order.
pub open spec fn lists_options(t: Tables, question_id: i64, v: Seq<QuestionOption>) -> bool {
    &&& forall|i: int| 0 <= i < v.len()
            ==> (#[trigger] v[i]).in_table(t) && v[i].question_id == question_id
    &&& forall|i: int, j: int| 0 <= i < j < v.len() ==> v[i].id != v[j].id
    &&& forall|id: i64| #[trigger] t.options.dom().contains(id) && t.options[id].question_id == question_id
            ==> exists|i: int| 0 <= i < v.len() && v[i].id == id
    &&& forall|i: int, j: int| 0 <= i < j < v.len() ==> v[i].display_order <= v[j].display_order
}

/// Relies on rusqlite `prepare`/`query_map` running `SELECT .. FROM
/// question_options WHERE question_id = ? ORDER BY display_order ASC`.
#[verifier::external_body]
pub(crate) fn select_options_raw(conn: &rusqlite::Connection, question_id: i64) -> (r: Result<Vec<QuestionOption>, StoreError>)
    ensures
        r matches Ok(v) ==> lists_options(db(*conn).cur, question_id, v@),
        r matches Err(e) ==> !(e is NotFound),
{
    let mut stmt = match conn.prepare("SELECT id, question_id, option_text, option_image_path, is_correct, display_order FROM question_options WHERE question_id = ? ORDER BY display_order ASC") {
        Ok(s) => s, Err(e) => return Err(to_store_error(e)),
    };
    let rows = match stmt.query_map([question_id], read_option) { Ok(it) => it, Err(e) => return Err(to_store_error(e)) };
    rows.collect::<Result<Vec<QuestionOption>, rusqlite::Error>>().map_err(to_store_error)
}

/// A sequence that reproduces exactly one question's blank rows, ascending
/// by blank index.
pub open spec fn lists_blanks(t: Tables, question_id: i64, v: Seq<QuestionBlank>) -> bool {
    &&& forall|i: int| 0 <= i < v.len()
            ==> (#[trigger] v[i]).in_table(t) && v[i].question_id == question_id
    &&& forall|i: int, j: int| 0 <= i < j < v.len() ==> v[i].id != v[j].id
    &&& forall|id: i64| #[trigger] t.blanks.dom().contains(id) && t.blanks[id].question_id == question_id
            ==> exists|i: int| 0 <= i < v.len() && v[i].id == id
    &&& forall|i: int, j: int| 0 <= i < j < v.len() ==> v[i].blank_index <= v[j].blank_index
}

/// Relies on rusqlite `prepare`/`query_map` running `SELECT .. FROM
/// question_blanks WHERE question_id = ? ORDER BY blank_index ASC`.
#[verifier::external_body]
pub(crate) fn select_blanks_raw(conn: &rusqlite::Connection, question_id: i64) -> (r: Result<Vec<QuestionBlank>, StoreError>)
    ensures
        r matches Ok(v) ==> lists_blanks(db(*conn).cur, question_id, v@),
        r matches Err(e) ==> !(e is NotFound),
{
    let mut stmt = match conn.prepare("SELECT id, question_id, blank_index, correct_answer, acceptable_answers, is_numeric, numeric_tolerance, unit, input_type, dropdown_options FROM question_blanks WHERE question_id = ? ORDER BY blank_index ASC") {
        Ok(s) => s, Err(e) => return Err(to_store_error(e)),
    };
    let rows = match stmt.query_map([question_id], read_blank) { Ok(it) => it, Err(e) => return Err(to_store_error(e)) };
    rows.collect::<Result<Vec<QuestionBlank>, rusqlite::Error>>().map_err(to_store_error)
}

/// A sequence that reproduces exactly one question's order items, ascending
/// by correct position: the persisted order is the answer key.
pub open spec fn lists_order_items(t: Tables, question_id: i64, v: Seq<QuestionOrderItem>) -> bool {
    &&& forall|i: int| 0 <= i < v.len()
            ==> (#[trigger] v[i]).in_table(t) && v[i].question_id == question_id
    &&& forall|i: int, j: int| 0 <= i < j < v.len() ==> v[i].id != v[j].id
    &&& forall|id: i64| #[trigger] t.order_items.dom().contains(id) && t.order_items[id].question_id == question_id
            ==> exists|i: int| 0 <= i < v.len() && v[i].id == id
    &&& forall|i: int, j: int| 0 <= i < j < v.len() ==> v[i].correct_position <= v[j].correct_position
}

/// Relies on rusqlite `prepare`/`query_map` running `SELECT .. FROM
/// question_order_items WHERE question_id = ? ORDER BY correct_position ASC`.
#[verifier::external_body]
pub(crate) fn select_order_items_raw(conn: &rusqlite::Connection, question_id: i64) -> (r: Result<Vec<QuestionOrderItem>, StoreError>)
    ensures
        r matches Ok(v) ==> lists_order_items(db(*conn).cur, question_id, v@),
        r matches Err(e) ==> !(e is NotFound),
{
    let mut stmt = match conn.prepare("SELECT id, question_id, item_text, correct_position FROM question_order_items WHERE question_id = ? ORDER BY correct_position ASC") {
        Ok(s) => s, Err(e) => return Err(to_store_error(e)),
    };
    let rows = match stmt.query_map([question_id], read_order_item) { Ok(it) => it, Err(e) => return Err(to_store_error(e)) };
    rows.collect::<Result<Vec<QuestionOrderItem>, rusqlite::Error>>().map_err(to_store_error)
}

/// A sequence that reproduces exactly one question's match pairs, ascending
/// by display order.
pub open spec fn lists_matches(t: Tables, question_id: i64, v: Seq<QuestionMatch>) -> bool {
    &&& forall|i: int| 0 <= i < v.len()
            ==> (#[trigger] v[i]).in_table(t) && v[i].question_id == question_id
    &&& forall|i: int, j: int| 0 <= i < j < v.len() ==> v[i].id != v[j].id
    &&& forall|id: i64| #[trigger] t.matches.dom().contains(id) && t.matches[id].question_id == question_id
            ==> exists|i: int| 0 <= i < v.len() && v[i].id == id
    &&& forall|i: int, j: int| 0 <= i < j < v.len() ==> v[i].display_order <= v[j].display_order
}

/// Relies on rusqlite `prepare`/`query_map` running `SELECT .. FROM
/// question_matches WHERE question_id = ? ORDER BY display_order ASC`.
#[verifier::external_body]
pub(crate) fn select_matches_raw(conn: &rusqlite::Connection, question_id: i64) -> (r: Result<Vec<QuestionMatch>, StoreError>)
    ensures
        r matches Ok(v) ==> lists_matches(db(*conn).cur, question_id, v@),
        r matches Err(e) ==> !(e is NotFound),
{
    let mut stmt = match conn.prepare("SELECT id, question_id, left_item, right_item, left_image_path, right_image_path, display_order FROM question_matches WHERE question_id = ? ORDER BY display_order ASC") {
        Ok(s) => s, Err(e) => return Err(to_store_error(e)),
    };
    let rows = match stmt.query_map([question_id], read_match) { Ok(it) => it, Err(e) => return Err(to_store_error(e)) };
    rows.collect::<Result<Vec<QuestionMatch>, rusqlite::Error>>().map_err(to_store_error)
}


// ------------------------------------------------------------------- exams

/// Relies on rusqlite::Connection::execute running
/// `INSERT INTO exams (..) VALUES (..)` and last_insert_rowid: the base row
/// alone; the topic-quota rows are written one by one afterwards.  With
/// foreign keys on, a successful insert implies the parent subject exists.
#[verifier::external_body]
pub(crate) fn insert_exam_raw(conn: &mut rusqlite::Connection, d: &CreateExamData) -> (r: Result<i64, StoreError>)
    requires
        db(*old(conn)).fk_on,
    ensures
        r matches Ok(id) ==> !db(*old(conn)).cur.exams.dom().contains(id)
            && db(*old(conn)).cur.subjects.dom().contains(d.subject_id)
            && db(*final(conn)) == stepped(db(*old(conn)), Tables {
                exams: db(*old(conn)).cur.exams.insert(id, d.base_row()),
                ..db(*old(conn)).cur
            }),
        r matches Err(e) ==> unchanged_or_aborted(db(*old(conn)), db(*final(conn))) && !(e is NotFound),
{
    match conn.execute(
        "INSERT INTO exams (subject_id, name, description, total_question_count, time_limit_minutes, shuffle_questions, shuffle_options, show_answers_after, passing_score_percent) VALUES (?1, ?2, ?3, ?4, ?5, ?6, ?7, ?8, ?9)",
        (d.subject_id, &d.name, &d.description, d.total_question_count, d.time_limit_minutes,
         d.shuffle_questions as i32, d.shuffle_options as i32, &d.show_answers_after, d.passing_score_percent),
    ) {
        Ok(_) => Ok(conn.last_insert_rowid()),
        Err(e) => Err(to_store_error(e)),
    }
}

/// Relies on rusqlite::Connection::execute running
/// `UPDATE exams SET .. WHERE id = ?`: the row keeps its parent subject,
/// and the returned count says whether it existed.
#[verifier::external_body]
pub(crate) fn update_exam_raw(conn: &mut rusqlite::Connection, id: i64, d: &UpdateExamData) -> (r: Result<usize, StoreError>)
    ensures
        r matches Ok(n) ==> ({
            let t0 = db(*old(conn)).cur;
            if t0.exams.dom().contains(id) {
                n == 1 && db(*final(conn)) == stepped(db(*old(conn)), Tables {
                    exams: t0.exams.insert(id, d.base_row(t0.exams[id].subject_id)),
                    ..t0
                })
            } else {
                n == 0 && db(*final(conn)) == stepped(db(*old(conn)), t0)
            }
        }),
        r matches Err(e) ==> unchanged_or_aborted(db(*old(conn)), db(*final(conn))) && !(e is NotFound),
{
    conn.execute(
        "UPDATE exams SET name = ?1, description = ?2, total_question_count = ?3, time_limit_minutes = ?4, shuffle_questions = ?5, shuffle_options = ?6, show_answers_after = ?7, passing_score_percent = ?8, updated_at = CURRENT_TIMESTAMP WHERE id = ?9",
        (&d.name, &d.description, d.total_question_count, d.time_limit_minutes,
         d.shuffle_questions as i32, d.shuffle_options as i32, &d.show_answers_after,
         d.passing_score_percent, id),
    ).map_err(to_store_error)
}

/// Relies on rusqlite::Connection::execute running
/// `DELETE FROM exams WHERE id = ?` with foreign keys on: the exam, its
/// topic-quota rows and its attempts go.
#[verifier::external_body]
pub(crate) fn delete_exam_raw(conn: &mut rusqlite::Connection, id: i64) -> (r: Result<(), StoreError>)
    requires
        db(*old(conn)).fk_on,
    ensures
        r is Ok ==> db(*final(conn)) == stepped(db(*old(conn)), cascade_delete_exam(db(*old(conn)).cur, id)),
        r matches Err(e) ==> unchanged_or_aborted(db(*old(conn)), db(*final(conn))) && !(e is NotFound),
{
    match conn.execute("DELETE FROM exams WHERE id = ?1", [id]) {
        Ok(_) => Ok(()),
        Err(e) => Err(to_store_error(e)),
    }
}

/// Relies on rusqlite::Connection::execute running
/// `INSERT INTO exam_topics (exam_id, topic_id, question_count) VALUES (..)`
/// and last_insert_rowid.  With foreign keys on, a successful insert implies
/// both the exam and the topic exist.
#[verifier::external_body]
pub(crate) fn insert_exam_topic_raw(conn: &mut rusqlite::Connection, exam_id: i64, d: &CreateExamTopicData) -> (r: Result<i64, StoreError>)
    requires
        db(*old(conn)).fk_on,
    ensures
        r matches Ok(id) ==> !db(*old(conn)).cur.exam_topics.dom().contains(id)
            && db(*old(conn)).cur.exams.dom().contains(exam_id)
            && db(*old(conn)).cur.topics.dom().contains(d.topic_id)
            && db(*final(conn)) == stepped(db(*old(conn)), Tables {
                exam_topics: db(*old(conn)).cur.exam_topics.insert(id, d.row(exam_id)),
                ..db(*old(conn)).cur
            }),
        r matches Err(e) ==> unchanged_or_aborted(db(*old(conn)), db(*final(conn))) && !(e is NotFound),
{
    match conn.execute(
        "INSERT INTO exam_topics (exam_id, topic_id, question_count) VALUES (?1, ?2, ?3)",
        (exam_id, d.topic_id, d.question_count),
    ) {
        Ok(_) => Ok(conn.last_insert_rowid()),
        Err(e) => Err(to_store_error(e)),
    }
}

/// Relies on rusqlite::Connection::execute running
/// `DELETE FROM exam_topics WHERE exam_id = ?`.
#[verifier::external_body]
pub(crate) fn delete_exam_topics_for_raw(conn: &mut rusqlite::Connection, exam_id: i64) -> (r: Result<(), StoreError>)
    ensures
        r is Ok ==> db(*final(conn)) == stepped(db(*old(conn)), Tables {
            exam_topics: db(*old(conn)).cur.exam_topics.remove_keys(
                exam_topics_of_exam(db(*old(conn)).cur, exam_id)),
            ..db(*old(conn)).cur
        }),
        r matches Err(e) ==> unchanged_or_aborted(db(*old(conn)), db(*final(conn))) && !(e is NotFound),
{
    match conn.execute("DELETE FROM exam_topics WHERE exam_id = ?1", [exam_id]) {
        Ok(_) => Ok(()),
        Err(e) => Err(to_store_error(e)),
    }
}

/// A sequence that reproduces exactly the exam base rows under one subject.
pub open spec fn lists_exams(t: Tables, subject_id: i64, v: Seq<Exam>) -> bool {
    &&& forall|i: int| 0 <= i < v.len()
            ==> (#[trigger] v[i]).in_table(t) && v[i].subject_id == subject_id
    &&& forall|i: int, j: int| 0 <= i < j < v.len() ==> v[i].id != v[j].id
    &&& forall|id: i64| #[trigger] t.exams.dom().contains(id) && t.exams[id].subject_id == subject_id
            ==> exists|i: int| 0 <= i < v.len() && v[i].id == id
}

/// Relies on rusqlite `prepare`/`query_map` running `SELECT .. FROM exams
/// WHERE subject_id = ? ORDER BY created_at DESC`.
#[verifier::external_body]
pub(crate) fn select_exams_raw(conn: &rusqlite::Connection, subject_id: i64) -> (r: Result<Vec<Exam>, StoreError>)
    ensures
        r matches Ok(v) ==> lists_exams(db(*conn).cur, subject_id, v@),
        r matches Err(e) ==> !(e is NotFound),
{
    let mut stmt = match conn.prepare("SELECT id, subject_id, name, description, total_question_count, time_limit_minutes, shuffle_questions, shuffle_options, show_answers_after, passing_score_percent, created_at, updated_at FROM exams WHERE subject_id = ? ORDER BY created_at DESC") {
        Ok(s) => s, Err(e) => return Err(to_store_error(e)),
    };
    let rows = match stmt.query_map([subject_id], read_exam) { Ok(it) => it, Err(e) => return Err(to_store_error(e)) };
    rows.collect::<Result<Vec<Exam>, rusqlite::Error>>().map_err(to_store_error)
}

/// Relies on rusqlite::Connection::query_row running
/// `SELECT .. FROM exams WHERE id = ?`.
#[verifier::external_body]
pub(crate) fn select_exam_raw(conn: &rusqlite::Connection, id: i64) -> (r: Result<Exam, StoreError>)
    ensures
        r matches Ok(s) ==> s.id == id && s.in_table(db(*conn).cur),
        r matches Err(e) ==> (e is NotFound ==> !db(*conn).cur.exams.dom().contains(id)),
{
    conn.query_row(
        "SELECT id, subject_id, name, description, total_question_count, time_limit_minutes, shuffle_questions, shuffle_options, show_answers_after, passing_score_percent, created_at, updated_at FROM exams WHERE id = ?1",
        [id],
        read_exam,
    ).map_err(to_store_error)
}

/// A sequence that reproduces exactly one exam's topic-quota rows whose
/// topic resolves, each joined with the topic's name.
pub open spec fn lists_exam_topics(t: Tables, exam_id: i64, v: Seq<ExamTopicWithName>) -> bool {
    &&& forall|i: int| 0 <= i < v.len()
            ==> (#[trigger] v[i]).in_table(t) && v[i].exam_id == exam_id
    &&& forall|i: int, j: int| 0 <= i < j < v.len() ==> v[i].id != v[j].id
    &&& forall|id: i64| #[trigger] t.exam_topics.dom().contains(id)
            && t.exam_topics[id].exam_id == exam_id
            && t.topics.dom().contains(t.exam_topics[id].topic_id)
            ==> exists|i: int| 0 <= i < v.len() && v[i].id == id
}

/// Relies on rusqlite `prepare`/`query_map` running the exam-topic join
/// (`exam_topics` x `topics`, ordered by topic name): every quota row of the
/// exam whose topic resolves is returned once with the topic's name (the
/// name order rests on text collation and is not stated).
#[verifier::external_body]
pub(crate) fn select_exam_topics_raw(conn: &rusqlite::Connection, exam_id: i64) -> (r: Result<Vec<ExamTopicWithName>, StoreError>)
    ensures
        r matches Ok(v) ==> lists_exam_topics(db(*conn).cur, exam_id, v@),
        r matches Err(e) ==> !(e is NotFound),
{
    let mut stmt = match conn.prepare(
        "SELECT et.id, et.exam_id, et.topic_id, t.name, et.question_count \
         FROM exam_topics et JOIN topics t ON et.topic_id = t.id \
         WHERE et.exam_id = ? ORDER BY t.name") {
        Ok(s) => s, Err(e) => return Err(to_store_error(e)),
    };
    let rows = match stmt.query_map([exam_id], read_exam_topic) { Ok(it) => it, Err(e) => return Err(to_store_error(e)) };
    rows.collect::<Result<Vec<ExamTopicWithName>, rusqlite::Error>>().map_err(to_store_error)
}

// ----------------------------------------------------------- exam attempts

/// Relies on rusqlite::Connection::execute running `INSERT INTO
/// exam_attempts (..) VALUES (.., datetime('now'))` and last_insert_rowid.
/// With foreign keys on, a successful insert implies the exam exists.
#[verifier::external_body]
pub(crate) fn insert_exam_attempt_raw(conn: &mut rusqlite::Connection, d: &SaveExamAttemptData) -> (r: Result<i64, StoreError>)
    requires
        db(*old(conn)).fk_on,
    ensures
        r matches Ok(id) ==> !db(*old(conn)).cur.exam_attempts.dom().contains(id)
            && db(*old(conn)).cur.exams.dom().contains(d.exam_id)
            && db(*final(conn)) == stepped(db(*old(conn)), Tables {
                exam_attempts: db(*old(conn)).cur.exam_attempts.insert(id, d.row()),
                ..db(*old(conn)).cur
            }),
        r matches Err(e) ==> unchanged_or_aborted(db(*old(conn)), db(*final(conn))) && !(e is NotFound),
{
    match conn.execute(
        "INSERT INTO exam_attempts (exam_id, score, max_score, percentage, time_taken_seconds, completed_at) VALUES (?1, ?2, ?3, ?4, ?5, datetime('now'))",
        (d.exam_id, d.score, d.max_score, d.percentage, d.time_taken_seconds),
    ) {
        Ok(_) => Ok(conn.last_insert_rowid()),
        Err(e) => Err(to_store_error(e)),
    }
}

/// A sequence that reproduces exactly the exam attempts whose exam and
/// subject both resolve, joined with their names.
pub open spec fn lists_exam_attempt_records(t: Tables, v: Seq<ExamAttemptRecord>) -> bool {
    &&& forall|i: int| 0 <= i < v.len() ==> (#[trigger] v[i]).in_table(t)
    &&& forall|i: int, j: int| 0 <= i < j < v.len() ==> v[i].id != v[j].id
    &&& forall|id: i64| #[trigger] t.exam_attempts.dom().contains(id)
            && t.exams.dom().contains(t.exam_attempts[id].exam_id)
            && t.subjects.dom().contains(t.exams[t.exam_attempts[id].exam_id].subject_id)
            ==> exists|i: int| 0 <= i < v.len() && v[i].id == id
}

/// Relies on rusqlite `prepare`/`query_map` running the exam-attempt listing
/// join (`exam_attempts` x `exams` x `subjects`, newest first): every
/// attempt whose joins resolve is returned once with the joined names.
#[verifier::external_body]
pub(crate) fn select_exam_attempt_records_raw(conn: &rusqlite::Connection) -> (r: Result<Vec<ExamAttemptRecord>, StoreError>)
    ensures
        r matches Ok(v) ==> lists_exam_attempt_records(db(*conn).cur, v@),
        r matches Err(e) ==> !(e is NotFound),
{
    let mut stmt = match conn.prepare(
        "SELECT ea.id, ea.exam_id, e.name, e.passing_score_percent, e.subject_id, s.name, ea.started_at, ea.completed_at, ea.score, ea.max_score, ea.percentage, ea.time_taken_seconds \
         FROM exam_attempts ea JOIN exams e ON ea.exam_id = e.id JOIN subjects s ON e.subject_id = s.id \
         ORDER BY ea.completed_at DESC") {
        Ok(s) => s, Err(e) => return Err(to_store_error(e)),
    };
    let rows = match stmt.query_map([], read_exam_attempt) { Ok(it) => it, Err(e) => return Err(to_store_error(e)) };
    rows.collect::<Result<Vec<ExamAttemptRecord>, rusqlite::Error>>().map_err(to_store_error)
}

} // verus!
