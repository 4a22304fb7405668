use quizforge::error::StoreError;
use quizforge::exams::save_exam_attempt;
use quizforge::perf::{get_subject_performance, get_topic_performance, subject_performance_from};
use quizforge::quizzes::{create_quiz, save_quiz_attempt};
use quizforge::schema::open_store_in_memory;
use quizforge::subjects::create_subject;
use quizforge::topics::create_topic;
use quizforge::exams::create_exam;
use quizforge::types::{
    CreateExamData, CreateQuizData, CreateSubjectData, CreateTopicData, ExamAttemptRecord,
    SaveExamAttemptData, SaveQuizAttemptData,
};

fn subject(name: &str) -> CreateSubjectData {
    CreateSubjectData {
        name: name.to_string(),
        description: None,
        color: "#abcdef".to_string(),
        icon: None,
    }
}

fn exam(subject_id: i64, name: &str, passing: i32) -> CreateExamData {
    CreateExamData {
        subject_id,
        name: name.to_string(),
        description: None,
        total_question_count: 10,
        time_limit_minutes: None,
        shuffle_questions: false,
        shuffle_options: false,
        show_answers_after: "END".to_string(),
        passing_score_percent: passing,
        topics: Vec::new(),
    }
}

fn attempt(exam_id: i64, percentage: i64) -> SaveExamAttemptData {
    SaveExamAttemptData { exam_id, score: 0, max_score: 10, percentage, time_taken_seconds: 60 }
}

#[test]
fn subject_performance_mean_and_pass_rate() {
    let mut conn = open_store_in_memory().unwrap();
    let s = create_subject(&mut conn, &subject("Math")).unwrap();
    let e = create_exam(&mut conn, exam(s.id, "Exam", 60)).unwrap();
    for p in [9000, 4000, 7000] {
        save_exam_attempt(&mut conn, &attempt(e.id, p)).unwrap();
    }
    let report = get_subject_performance(&conn).unwrap();
    assert_eq!(report.len(), 1);
    let row = &report[0];
    assert_eq!(row.subject_name, "Math");
    assert_eq!(row.attempts, 3);
    // hundredths, rounded toward zero: 20000 / 3 = 6666 stands for 66.66
    assert_eq!(row.average_score, 6666);
    // two of three meet or exceed 60.00: 2 * 10000 / 3 = 6666
    assert_eq!(row.pass_rate, 6666);
}

#[test]
fn subjects_without_attempts_are_excluded_and_order_is_by_average() {
    let mut conn = open_store_in_memory().unwrap();
    let quiet = create_subject(&mut conn, &subject("Quiet")).unwrap();
    create_exam(&mut conn, exam(quiet.id, "Unused", 60)).unwrap();
    let low = create_subject(&mut conn, &subject("Low")).unwrap();
    let le = create_exam(&mut conn, exam(low.id, "L", 60)).unwrap();
    save_exam_attempt(&mut conn, &attempt(le.id, 3000)).unwrap();
    let high = create_subject(&mut conn, &subject("High")).unwrap();
    let he = create_exam(&mut conn, exam(high.id, "H", 60)).unwrap();
    save_exam_attempt(&mut conn, &attempt(he.id, 9500)).unwrap();
    let report = get_subject_performance(&conn).unwrap();
    assert_eq!(report.len(), 2);
    assert_eq!(report[0].subject_name, "High");
    assert_eq!(report[1].subject_name, "Low");
    assert!(report[0].average_score >= report[1].average_score);
}

#[test]
fn topic_performance_over_quiz_attempts() {
    let mut conn = open_store_in_memory().unwrap();
    let s = create_subject(&mut conn, &subject("Math")).unwrap();
    let t = create_topic(
        &mut conn,
        &CreateTopicData {
            subject_id: s.id,
            name: "Algebra".to_string(),
            description: None,
            week_number: None,
        },
    )
    .unwrap();
    let z = create_quiz(
        &mut conn,
        &CreateQuizData {
            topic_id: t.id,
            name: "Drill".to_string(),
            description: None,
            question_count: 5,
            time_limit_minutes: None,
            shuffle_questions: false,
            shuffle_options: false,
            show_answers_after: "END".to_string(),
            passing_score_percent: 50,
        },
    )
    .unwrap();
    for p in [5000, 10000] {
        save_quiz_attempt(
            &mut conn,
            &SaveQuizAttemptData {
                quiz_id: z.id,
                score: 0,
                max_score: 5,
                percentage: p,
                time_taken_seconds: 30,
            },
        )
        .unwrap();
    }
    let report = get_topic_performance(&conn).unwrap();
    assert_eq!(report.len(), 1);
    assert_eq!(report[0].topic_name, "Algebra");
    assert_eq!(report[0].subject_name, "Math");
    assert_eq!(report[0].attempts, 2);
    assert_eq!(report[0].average_score, 7500);
    // both meet the passing score of 50.00
    assert_eq!(report[0].pass_rate, 10000);
}

fn record(sid: i64, name: &str, passing: i32, percentage: i64) -> ExamAttemptRecord {
    ExamAttemptRecord {
        id: 0,
        exam_id: 1,
        exam_name: "E".to_string(),
        passing_score_percent: passing,
        subject_id: sid,
        subject_name: name.to_string(),
        started_at: String::new(),
        completed_at: String::new(),
        score: 0,
        max_score: 10,
        percentage,
        time_taken_seconds: 1,
    }
}

#[test]
fn fold_handles_negative_percentages() {
    // stored verbatim, a caller-supplied percentage may even be negative;
    // the mean still rounds toward zero
    let rows = vec![record(1, "S", 60, -5000), record(1, "S", 60, 2000)];
    let report = subject_performance_from(&rows);
    assert_eq!(report.len(), 1);
    assert_eq!(report[0].attempts, 2);
    assert_eq!(report[0].average_score, -1500);
    assert_eq!(report[0].pass_rate, 0);
}

#[test]
fn empty_store_reports_nothing() {
    let conn = open_store_in_memory().unwrap();
    assert_eq!(get_subject_performance(&conn).unwrap().len(), 0);
    assert_eq!(get_topic_performance(&conn).unwrap().len(), 0);
    // and the error path is never NotFound for reports
    match get_subject_performance(&conn) {
        Ok(_) => {},
        Err(e) => assert!(!matches!(e, StoreError::NotFound)),
    }
}
