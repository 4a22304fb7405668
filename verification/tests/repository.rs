use quizforge::error::StoreError;
use quizforge::schema::open_store_in_memory;
use quizforge::subjects::{create_subject, delete_subject, get_subject, get_subjects, update_subject};
use quizforge::topics::{create_topic, delete_topic, get_topic, get_topics, update_topic};
use quizforge::quizzes::{
    create_quiz, delete_quiz, get_all_quiz_attempts, get_quiz, get_quizzes, save_quiz_attempt,
    update_quiz,
};
use quizforge::questions::{create_question, delete_question, get_question, get_questions, update_question};
use quizforge::exams::{
    create_exam, delete_exam, get_all_exam_attempts, get_exam, get_exams, save_exam_attempt,
    update_exam,
};
use quizforge::types::{
    CreateExamData, CreateExamTopicData, CreateMatchPair, CreateNumericData, CreateOrderItem,
    CreateQuestionData, CreateQuestionOption, CreateQuizData, CreateSubjectData, CreateTopicData,
    SaveExamAttemptData, SaveQuizAttemptData, UpdateExamData, UpdateQuestionData, UpdateQuizData,
    UpdateSubjectData, UpdateTopicData,
};

fn subject_data(name: &str) -> CreateSubjectData {
    CreateSubjectData {
        name: name.to_string(),
        description: Some("about".to_string()),
        color: "#336699".to_string(),
        icon: None,
    }
}

fn topic_data(subject_id: i64, name: &str) -> CreateTopicData {
    CreateTopicData {
        subject_id,
        name: name.to_string(),
        description: None,
        week_number: Some(3),
    }
}

fn quiz_data(topic_id: i64, name: &str, passing: i32) -> CreateQuizData {
    CreateQuizData {
        topic_id,
        name: name.to_string(),
        description: None,
        question_count: 5,
        time_limit_minutes: Some(30),
        shuffle_questions: true,
        shuffle_options: false,
        show_answers_after: "END".to_string(),
        passing_score_percent: passing,
    }
}

fn mc_question(subject_id: i64, topic_id: i64, orders: &[i32]) -> CreateQuestionData {
    CreateQuestionData {
        subject_id,
        topic_id,
        question_type: "MULTIPLE_CHOICE".to_string(),
        question_text: "Pick one".to_string(),
        question_image_path: None,
        explanation: Some("because".to_string()),
        difficulty: "EASY".to_string(),
        points: 2,
        source: None,
        options: orders
            .iter()
            .map(|o| CreateQuestionOption {
                option_text: format!("choice {}", o),
                option_image_path: None,
                is_correct: *o == 0,
                display_order: *o,
            })
            .collect(),
        blanks: Vec::new(),
        numeric_data: None,
        order_items: None,
        match_pairs: None,
    }
}

#[test]
fn subject_crud_round_trip() {
    let mut conn = open_store_in_memory().unwrap();
    let s = create_subject(&mut conn, &subject_data("Math")).unwrap();
    assert_eq!(s.name, "Math");
    assert_eq!(s.color, "#336699");
    let fetched = get_subject(&conn, s.id).unwrap();
    assert_eq!(fetched, s);
    let updated = update_subject(
        &mut conn,
        s.id,
        &UpdateSubjectData {
            name: "Maths".to_string(),
            description: None,
            color: "#000000".to_string(),
            icon: Some("sigma".to_string()),
        },
    )
    .unwrap();
    assert_eq!(updated.name, "Maths");
    assert_eq!(updated.description, None);
    let all = get_subjects(&conn).unwrap();
    assert_eq!(all.len(), 1);
    delete_subject(&mut conn, s.id).unwrap();
    assert!(matches!(get_subject(&conn, s.id), Err(StoreError::NotFound)));
    // deleting a missing id is not an error
    delete_subject(&mut conn, s.id).unwrap();
}

#[test]
fn empty_parent_listing_is_ok() {
    let mut conn = open_store_in_memory().unwrap();
    let s = create_subject(&mut conn, &subject_data("Physics")).unwrap();
    let topics = get_topics(&conn, s.id).unwrap();
    assert_eq!(topics.len(), 0);
    // a parent id that does not even exist still lists empty, never errs
    let topics = get_topics(&conn, 424242).unwrap();
    assert_eq!(topics.len(), 0);
}

#[test]
fn topic_crud_round_trip() {
    let mut conn = open_store_in_memory().unwrap();
    let s = create_subject(&mut conn, &subject_data("History")).unwrap();
    let t = create_topic(&mut conn, &topic_data(s.id, "Antiquity")).unwrap();
    assert_eq!(t.subject_id, s.id);
    assert_eq!(t.week_number, Some(3));
    let fetched = get_topic(&conn, t.id).unwrap();
    assert_eq!(fetched, t);
    let updated = update_topic(
        &mut conn,
        t.id,
        &UpdateTopicData { name: "Middle Ages".to_string(), description: None, week_number: None },
    )
    .unwrap();
    assert_eq!(updated.name, "Middle Ages");
    assert_eq!(updated.subject_id, s.id);
    assert_eq!(get_topics(&conn, s.id).unwrap().len(), 1);
    delete_topic(&mut conn, t.id).unwrap();
    assert!(matches!(get_topic(&conn, t.id), Err(StoreError::NotFound)));
}

#[test]
fn topic_with_missing_parent_is_rejected() {
    let mut conn = open_store_in_memory().unwrap();
    let r = create_topic(&mut conn, &topic_data(999, "Orphan"));
    assert!(matches!(r, Err(StoreError::Constraint(_))));
}

#[test]
fn quiz_crud_round_trip() {
    let mut conn = open_store_in_memory().unwrap();
    let s = create_subject(&mut conn, &subject_data("Chem")).unwrap();
    let t = create_topic(&mut conn, &topic_data(s.id, "Acids")).unwrap();
    let q = create_quiz(&mut conn, &quiz_data(t.id, "Weekly", 60)).unwrap();
    assert_eq!(q.topic_id, t.id);
    assert_eq!(q.passing_score_percent, 60);
    assert!(q.shuffle_questions);
    assert!(!q.shuffle_options);
    assert_eq!(get_quiz(&conn, q.id).unwrap(), q);
    let updated = update_quiz(
        &mut conn,
        q.id,
        &UpdateQuizData {
            name: "Weekly 2".to_string(),
            description: Some("harder".to_string()),
            question_count: 8,
            time_limit_minutes: None,
            shuffle_questions: false,
            shuffle_options: true,
            show_answers_after: "EACH".to_string(),
            passing_score_percent: 70,
        },
    )
    .unwrap();
    assert_eq!(updated.question_count, 8);
    assert_eq!(updated.topic_id, t.id);
    assert_eq!(get_quizzes(&conn, t.id).unwrap().len(), 1);
    delete_quiz(&mut conn, q.id).unwrap();
    assert!(matches!(get_quiz(&conn, q.id), Err(StoreError::NotFound)));
}

#[test]
fn options_return_ascending_by_display_order() {
    let mut conn = open_store_in_memory().unwrap();
    let s = create_subject(&mut conn, &subject_data("Math")).unwrap();
    let t = create_topic(&mut conn, &topic_data(s.id, "Algebra")).unwrap();
    let q = create_question(&mut conn, mc_question(s.id, t.id, &[2, 0, 1])).unwrap();
    let orders: Vec<i32> = q.options.iter().map(|o| o.display_order).collect();
    assert_eq!(orders, vec![0, 1, 2]);
    assert_eq!(q.options[0].option_text, "choice 0");
    assert_eq!(q.options[1].option_text, "choice 1");
    assert_eq!(q.options[2].option_text, "choice 2");
    // reading it back again gives the same order
    let again = get_question(&conn, q.question.id).unwrap();
    let orders: Vec<i32> = again.options.iter().map(|o| o.display_order).collect();
    assert_eq!(orders, vec![0, 1, 2]);
}

#[test]
fn question_round_trip_reproduces_canonical_payload() {
    let mut conn = open_store_in_memory().unwrap();
    let s = create_subject(&mut conn, &subject_data("Geo")).unwrap();
    let t = create_topic(&mut conn, &topic_data(s.id, "Maps")).unwrap();
    let payload = CreateQuestionData {
        subject_id: s.id,
        topic_id: t.id,
        question_type: "MATCHING".to_string(),
        question_text: "Match capitals".to_string(),
        question_image_path: None,
        explanation: None,
        difficulty: "MEDIUM".to_string(),
        points: 4,
        source: Some("atlas".to_string()),
        options: Vec::new(),
        blanks: Vec::new(),
        numeric_data: None,
        order_items: None,
        match_pairs: Some(vec![
            CreateMatchPair {
                left_item: "France".to_string(),
                right_item: "Paris".to_string(),
                left_image_path: None,
                right_image_path: None,
            },
            CreateMatchPair {
                left_item: "Japan".to_string(),
                right_item: "Tokyo".to_string(),
                left_image_path: None,
                right_image_path: None,
            },
        ]),
    };
    let q = create_question(&mut conn, payload).unwrap();
    assert_eq!(q.question.question_type, "MATCHING");
    assert_eq!(q.matches.len(), 2);
    assert_eq!(q.matches[0].left_item, "France");
    assert_eq!(q.matches[0].display_order, 0);
    assert_eq!(q.matches[1].left_item, "Japan");
    assert_eq!(q.matches[1].display_order, 1);
    assert_eq!(q.options.len(), 0);
    assert_eq!(q.blanks.len(), 0);
    assert_eq!(q.order_items.len(), 0);

    let ordering = CreateQuestionData {
        subject_id: s.id,
        topic_id: t.id,
        question_type: "ORDERING".to_string(),
        question_text: "Sort these".to_string(),
        question_image_path: None,
        explanation: None,
        difficulty: "EASY".to_string(),
        points: 1,
        source: None,
        options: Vec::new(),
        blanks: Vec::new(),
        numeric_data: None,
        order_items: Some(vec![
            CreateOrderItem { text: "first".to_string(), correct_position: 0 },
            CreateOrderItem { text: "second".to_string(), correct_position: 1 },
            CreateOrderItem { text: "third".to_string(), correct_position: 2 },
        ]),
        match_pairs: None,
    };
    let q2 = create_question(&mut conn, ordering).unwrap();
    let texts: Vec<String> = q2.order_items.iter().map(|x| x.item_text.clone()).collect();
    assert_eq!(texts, vec!["first", "second", "third"]);
    assert_eq!(get_questions(&conn, t.id).unwrap().len(), 2);
}

#[test]
fn numeric_blank_synthesis() {
    let mut conn = open_store_in_memory().unwrap();
    let s = create_subject(&mut conn, &subject_data("Physics")).unwrap();
    let t = create_topic(&mut conn, &topic_data(s.id, "Kinematics")).unwrap();
    let payload = CreateQuestionData {
        subject_id: s.id,
        topic_id: t.id,
        question_type: "NUMERIC".to_string(),
        question_text: "g?".to_string(),
        question_image_path: None,
        explanation: None,
        difficulty: "EASY".to_string(),
        points: 1,
        source: None,
        options: Vec::new(),
        blanks: Vec::new(),
        numeric_data: Some(CreateNumericData {
            correct_answer: "9.8".to_string(),
            tolerance: "0.2".to_string(),
            unit: Some("m/s²".to_string()),
        }),
        order_items: None,
        match_pairs: None,
    };
    let q = create_question(&mut conn, payload).unwrap();
    assert_eq!(q.blanks.len(), 1);
    let b = &q.blanks[0];
    assert_eq!(b.blank_index, 0);
    assert!(b.is_numeric);
    assert_eq!(b.correct_answer, "9.8");
    assert_eq!(b.numeric_tolerance, Some(200_000));
    assert_eq!(b.unit, Some("m/s²".to_string()));
    assert_eq!(b.input_type, "INPUT");
    assert_eq!(b.dropdown_options, None);
}

#[test]
fn malformed_tolerance_defaults_instead_of_failing() {
    let mut conn = open_store_in_memory().unwrap();
    let s = create_subject(&mut conn, &subject_data("Physics")).unwrap();
    let t = create_topic(&mut conn, &topic_data(s.id, "Units")).unwrap();
    let payload = CreateQuestionData {
        subject_id: s.id,
        topic_id: t.id,
        question_type: "NUMERIC".to_string(),
        question_text: "c?".to_string(),
        question_image_path: None,
        explanation: None,
        difficulty: "HARD".to_string(),
        points: 1,
        source: None,
        options: Vec::new(),
        blanks: Vec::new(),
        numeric_data: Some(CreateNumericData {
            correct_answer: "299792458".to_string(),
            tolerance: "roughly".to_string(),
            unit: None,
        }),
        order_items: None,
        match_pairs: None,
    };
    let q = create_question(&mut conn, payload).unwrap();
    assert_eq!(q.blanks[0].numeric_tolerance, Some(100_000));
}

#[test]
fn update_question_replaces_all_variants() {
    let mut conn = open_store_in_memory().unwrap();
    let s = create_subject(&mut conn, &subject_data("Math")).unwrap();
    let t = create_topic(&mut conn, &topic_data(s.id, "Sets")).unwrap();
    let q = create_question(&mut conn, mc_question(s.id, t.id, &[0, 1, 2, 3])).unwrap();
    assert_eq!(q.options.len(), 4);
    let updated = update_question(
        &mut conn,
        q.question.id,
        UpdateQuestionData {
            question_text: "Pick again".to_string(),
            question_image_path: None,
            explanation: None,
            difficulty: "HARD".to_string(),
            points: 5,
            source: None,
            options: vec![
                CreateQuestionOption {
                    option_text: "yes".to_string(),
                    option_image_path: None,
                    is_correct: true,
                    display_order: 0,
                },
                CreateQuestionOption {
                    option_text: "no".to_string(),
                    option_image_path: None,
                    is_correct: false,
                    display_order: 1,
                },
            ],
            blanks: Vec::new(),
            numeric_data: None,
            order_items: None,
            match_pairs: None,
        },
    )
    .unwrap();
    assert_eq!(updated.options.len(), 2);
    assert_eq!(updated.question.question_text, "Pick again");
    assert_eq!(updated.question.question_type, "MULTIPLE_CHOICE");
    let again = get_question(&conn, q.question.id).unwrap();
    assert_eq!(again.options.len(), 2);
}

#[test]
fn update_question_missing_id_is_not_found() {
    let mut conn = open_store_in_memory().unwrap();
    let r = update_question(
        &mut conn,
        777,
        UpdateQuestionData {
            question_text: "x".to_string(),
            question_image_path: None,
            explanation: None,
            difficulty: "EASY".to_string(),
            points: 1,
            source: None,
            options: Vec::new(),
            blanks: Vec::new(),
            numeric_data: None,
            order_items: None,
            match_pairs: None,
        },
    );
    assert!(matches!(r, Err(StoreError::NotFound)));
}

#[test]
fn cascade_delete_subject_removes_children() {
    let mut conn = open_store_in_memory().unwrap();
    let s = create_subject(&mut conn, &subject_data("Bio")).unwrap();
    let t = create_topic(&mut conn, &topic_data(s.id, "Cells")).unwrap();
    let q = create_question(&mut conn, mc_question(s.id, t.id, &[0, 1, 2])).unwrap();
    let z = create_quiz(&mut conn, &quiz_data(t.id, "Cell quiz", 50)).unwrap();
    delete_subject(&mut conn, s.id).unwrap();
    assert!(matches!(get_topic(&conn, t.id), Err(StoreError::NotFound)));
    assert!(matches!(get_question(&conn, q.question.id), Err(StoreError::NotFound)));
    assert!(matches!(get_quiz(&conn, z.id), Err(StoreError::NotFound)));
    assert_eq!(get_subjects(&conn).unwrap().len(), 0);
}

#[test]
fn delete_question_removes_variant_rows_only() {
    let mut conn = open_store_in_memory().unwrap();
    let s = create_subject(&mut conn, &subject_data("Math")).unwrap();
    let t = create_topic(&mut conn, &topic_data(s.id, "Logic")).unwrap();
    let q = create_question(&mut conn, mc_question(s.id, t.id, &[0, 1])).unwrap();
    delete_question(&mut conn, q.question.id).unwrap();
    assert!(matches!(get_question(&conn, q.question.id), Err(StoreError::NotFound)));
    // the topic survives
    assert_eq!(get_topic(&conn, t.id).unwrap().id, t.id);
}

#[test]
fn exam_crud_and_topic_quotas() {
    let mut conn = open_store_in_memory().unwrap();
    let s = create_subject(&mut conn, &subject_data("CS")).unwrap();
    let t1 = create_topic(&mut conn, &topic_data(s.id, "Parsing")).unwrap();
    let t2 = create_topic(&mut conn, &topic_data(s.id, "Automata")).unwrap();
    let e = create_exam(
        &mut conn,
        CreateExamData {
            subject_id: s.id,
            name: "Final".to_string(),
            description: None,
            total_question_count: 20,
            time_limit_minutes: Some(90),
            shuffle_questions: true,
            shuffle_options: true,
            show_answers_after: "END".to_string(),
            passing_score_percent: 60,
            topics: vec![
                CreateExamTopicData { topic_id: t1.id, question_count: 12 },
                CreateExamTopicData { topic_id: t2.id, question_count: 8 },
            ],
        },
    )
    .unwrap();
    assert_eq!(e.topics.len(), 2);
    let fetched = get_exam(&conn, e.id).unwrap();
    assert_eq!(fetched.topics.len(), 2);
    assert_eq!(get_exams(&conn, s.id).unwrap().len(), 1);
    let updated = update_exam(
        &mut conn,
        e.id,
        UpdateExamData {
            name: "Final v2".to_string(),
            description: None,
            total_question_count: 10,
            time_limit_minutes: None,
            shuffle_questions: false,
            shuffle_options: false,
            show_answers_after: "NONE".to_string(),
            passing_score_percent: 50,
            topics: vec![CreateExamTopicData { topic_id: t2.id, question_count: 10 }],
        },
    )
    .unwrap();
    // replace-all also holds for exam quota rows
    assert_eq!(updated.topics.len(), 1);
    assert_eq!(updated.topics[0].topic_id, t2.id);
    delete_exam(&mut conn, e.id).unwrap();
    assert!(matches!(get_exam(&conn, e.id), Err(StoreError::NotFound)));
}

#[test]
fn failed_quota_row_rolls_back_whole_exam() {
    let mut conn = open_store_in_memory().unwrap();
    let s = create_subject(&mut conn, &subject_data("CS")).unwrap();
    let t = create_topic(&mut conn, &topic_data(s.id, "Graphs")).unwrap();
    let r = create_exam(
        &mut conn,
        CreateExamData {
            subject_id: s.id,
            name: "Broken".to_string(),
            description: None,
            total_question_count: 5,
            time_limit_minutes: None,
            shuffle_questions: false,
            shuffle_options: false,
            show_answers_after: "END".to_string(),
            passing_score_percent: 60,
            topics: vec![
                CreateExamTopicData { topic_id: t.id, question_count: 3 },
                CreateExamTopicData { topic_id: 99999, question_count: 2 },
            ],
        },
    );
    assert!(matches!(r, Err(StoreError::Constraint(_))));
    // the base row of the failed unit is gone too
    assert_eq!(get_exams(&conn, s.id).unwrap().len(), 0);
}

#[test]
fn attempts_are_recorded_and_classified() {
    let mut conn = open_store_in_memory().unwrap();
    let s = create_subject(&mut conn, &subject_data("Math")).unwrap();
    let t = create_topic(&mut conn, &topic_data(s.id, "Algebra")).unwrap();
    let z = create_quiz(&mut conn, &quiz_data(t.id, "Drill", 60)).unwrap();
    let a1 = save_quiz_attempt(
        &mut conn,
        &SaveQuizAttemptData {
            quiz_id: z.id,
            score: 9,
            max_score: 10,
            percentage: 9000,
            time_taken_seconds: 120,
        },
    )
    .unwrap();
    let a2 = save_quiz_attempt(
        &mut conn,
        &SaveQuizAttemptData {
            quiz_id: z.id,
            score: 4,
            max_score: 10,
            percentage: 4000,
            time_taken_seconds: 95,
        },
    )
    .unwrap();
    assert_ne!(a1, a2);
    let attempts = get_all_quiz_attempts(&conn).unwrap();
    assert_eq!(attempts.len(), 2);
    for a in &attempts {
        assert_eq!(a.quiz_name, "Drill");
        assert_eq!(a.topic_name, "Algebra");
        assert_eq!(a.subject_name, "Math");
        assert_eq!(a.passed, a.percentage >= 6000);
    }
    assert!(attempts.iter().any(|a| a.percentage == 9000 && a.passed));
    assert!(attempts.iter().any(|a| a.percentage == 4000 && !a.passed));
}

#[test]
fn exam_attempts_are_recorded_and_classified() {
    let mut conn = open_store_in_memory().unwrap();
    let s = create_subject(&mut conn, &subject_data("Law")).unwrap();
    let e = create_exam(
        &mut conn,
        CreateExamData {
            subject_id: s.id,
            name: "Bar".to_string(),
            description: None,
            total_question_count: 100,
            time_limit_minutes: None,
            shuffle_questions: false,
            shuffle_options: false,
            show_answers_after: "END".to_string(),
            passing_score_percent: 75,
            topics: Vec::new(),
        },
    )
    .unwrap();
    save_exam_attempt(
        &mut conn,
        &SaveExamAttemptData {
            exam_id: e.id,
            score: 80,
            max_score: 100,
            percentage: 8000,
            time_taken_seconds: 3600,
        },
    )
    .unwrap();
    let attempts = get_all_exam_attempts(&conn).unwrap();
    assert_eq!(attempts.len(), 1);
    assert_eq!(attempts[0].exam_name, "Bar");
    assert_eq!(attempts[0].subject_name, "Law");
    assert!(attempts[0].passed);
}

#[test]
fn schema_bootstrap_is_idempotent() {
    let mut conn = open_store_in_memory().unwrap();
    let s = create_subject(&mut conn, &subject_data("Kept")).unwrap();
    // applying the schema again neither fails nor disturbs stored rows
    quizforge::schema::init_database(&mut conn).unwrap();
    assert_eq!(get_subject(&conn, s.id).unwrap().name, "Kept");
}
