use qm_core::models::{
    Answer, CreateQuizSessionDto, ProgressStatus, Question, QuestionProgress, QuizResult,
    QuizSession, QuizSessionType, UpdateProgressDto,
};
use qm_core::models::{resolve_question_number, resolve_question_number_excluding};
use qm_core::quiz::{select_questions, QuizCandidate};

fn candidate(id: &str, order: i32, status: ProgressStatus) -> QuizCandidate {
    QuizCandidate {
        question: Question {
            id: id.to_string(),
            topic_id: "t1".to_string(),
            subtopic: None,
            question_number: order,
            question: format!("question {order}"),
            answer: Answer { markdown: "answer".to_string() },
            tags: vec![],
            difficulty: "beginner".to_string(),
            order,
            created_at: "2024-01-01T00:00:00+00:00".to_string(),
            updated_at: "2024-01-01T00:00:00+00:00".to_string(),
        },
        progress: QuestionProgress {
            status,
            ..QuestionProgress::new(id.to_string(), "t1".to_string())
        },
    }
}

fn dto(kind: QuizSessionType, max: Option<i32>) -> CreateQuizSessionDto {
    CreateQuizSessionDto { session_type: kind, topic_ids: None, difficulty: None, max_questions: max }
}

#[test]
fn sequential_selection_orders_by_question_order() {
    let cands = vec![
        candidate("c", 3, ProgressStatus::NotStudied),
        candidate("a", 1, ProgressStatus::Studying),
        candidate("b", 2, ProgressStatus::Mastered),
    ];
    let ids = select_questions(&dto(QuizSessionType::Sequential, None), cands).unwrap();
    assert_eq!(ids, vec!["a", "b", "c"]);
}

#[test]
fn quick_refresher_keeps_only_mastered() {
    let cands = vec![
        candidate("m1", 1, ProgressStatus::Mastered),
        candidate("s1", 2, ProgressStatus::Studying),
        candidate("m2", 3, ProgressStatus::Mastered),
    ];
    let mut ids = select_questions(&dto(QuizSessionType::QuickRefresher, None), cands).unwrap();
    ids.sort();
    assert_eq!(ids, vec!["m1", "m2"]);

    let none_mastered = vec![candidate("s1", 1, ProgressStatus::Studying)];
    assert!(select_questions(&dto(QuizSessionType::QuickRefresher, None), none_mastered).is_err());
}

#[test]
fn random_selection_is_a_permutation() {
    let cands = vec![
        candidate("x", 1, ProgressStatus::NotStudied),
        candidate("y", 2, ProgressStatus::NotStudied),
        candidate("z", 3, ProgressStatus::NotStudied),
    ];
    let mut ids = select_questions(&dto(QuizSessionType::Random, None), cands).unwrap();
    ids.sort();
    assert_eq!(ids, vec!["x", "y", "z"]);
}

#[test]
fn max_questions_caps_the_selection() {
    let cands = vec![
        candidate("a", 1, ProgressStatus::NotStudied),
        candidate("b", 2, ProgressStatus::NotStudied),
        candidate("c", 3, ProgressStatus::NotStudied),
    ];
    let ids = select_questions(&dto(QuizSessionType::Sequential, Some(2)), cands).unwrap();
    assert_eq!(ids, vec!["a", "b"]);

    let cands2 = vec![candidate("a", 1, ProgressStatus::NotStudied)];
    let ids = select_questions(&dto(QuizSessionType::Sequential, Some(-1)), cands2).unwrap();
    assert_eq!(ids, vec!["a"]);
}

#[test]
fn session_constructor_and_codecs() {
    let s = QuizSession::new(
        QuizSessionType::Sequential,
        vec!["t1".to_string()],
        vec!["q1".to_string()],
    );
    assert_eq!(s.id.len(), 36);
    assert!(!s.is_completed());
    assert_eq!(s.current_index, 0);

    assert_eq!(QuizSessionType::from_name(&"Sequential".to_string()), QuizSessionType::Sequential);
    assert_eq!(QuizSessionType::from_name(&"anything else".to_string()), QuizSessionType::Random);
    assert_eq!(QuizSessionType::QuickRefresher.name(), "QuickRefresher");
    assert_eq!(ProgressStatus::from_name(&"Mastered".to_string()), ProgressStatus::Mastered);
    assert_eq!(ProgressStatus::from_name(&"bogus".to_string()), ProgressStatus::NotStudied);
    assert_eq!(ProgressStatus::NeedsReview.name(), "NeedsReview");
}

#[test]
fn progress_update_applies_the_spaced_repetition_rules() {
    let mut p = QuestionProgress::new("q1".to_string(), "t1".to_string());
    p.apply_update(&UpdateProgressDto {
        status: Some(ProgressStatus::Studying),
        confidence_level: Some(9),
        was_correct: Some(true),
    });
    assert_eq!(p.status, ProgressStatus::Studying);
    assert_eq!(p.confidence_level, 5);
    assert_eq!(p.times_reviewed, 1);
    assert_eq!(p.times_correct, 1);
    assert_eq!(p.times_incorrect, 0);
    assert!(p.last_reviewed_at.is_some());
    assert!(p.next_review_at.is_some());

    p.apply_update(&UpdateProgressDto {
        status: None,
        confidence_level: Some(-3),
        was_correct: Some(false),
    });
    assert_eq!(p.confidence_level, 0);
    assert_eq!(p.times_reviewed, 2);
    assert_eq!(p.times_incorrect, 1);
}

#[test]
fn quiz_session_submit_and_complete() {
    let mut s = QuizSession::new(
        QuizSessionType::Sequential,
        vec!["t1".to_string()],
        vec!["q1".to_string(), "q2".to_string()],
    );
    let res = |id: &str| QuizResult {
        question_id: id.to_string(),
        was_correct: true,
        confidence_rating: 4,
        time_spent_seconds: Some(12),
        answered_at: "2024-01-01T00:00:00+00:00".to_string(),
    };
    assert!(s.submit_result(res("outside")).is_err());
    s.submit_result(res("q1")).unwrap();
    assert_eq!(s.current_index, 1);
    assert!(s.submit_result(res("q1")).is_err());
    s.submit_result(res("q2")).unwrap();
    assert_eq!(s.current_index, 2);

    s.complete().unwrap();
    assert!(s.is_completed());
    assert!(s.complete().is_err());
}

#[test]
fn question_numbers_avoid_duplicates() {
    let qs: Vec<Question> = vec![
        candidate("a", 1, ProgressStatus::NotStudied).question,
        candidate("b", 5, ProgressStatus::NotStudied).question,
    ];
    // a free number is kept; a taken one falls back to max + 1
    assert_eq!(resolve_question_number(&qs, 3), 3);
    assert_eq!(resolve_question_number(&qs, 5), 6);
    // renumbering a question to its own number is not a collision
    assert_eq!(resolve_question_number_excluding(&qs, 5, &"b".to_string()), 5);
    assert_eq!(resolve_question_number_excluding(&qs, 1, &"b".to_string()), 6);
    // an empty topic starts at the requested number
    assert_eq!(resolve_question_number(&Vec::new(), 7), 7);
}

#[test]
fn test_calculate_next_review() {
    // Low confidence should be 1 day
    let mut low = QuestionProgress::new("q1".to_string(), "t1".to_string());
    low.apply_update(&UpdateProgressDto {
        status: None,
        confidence_level: Some(0),
        was_correct: None,
    });
    let next = low.next_review_at.unwrap();
    assert!(next.len() > 0);

    // High confidence should be 14-30 days
    let mut high = QuestionProgress::new("q2".to_string(), "t1".to_string());
    high.apply_update(&UpdateProgressDto {
        status: None,
        confidence_level: Some(5),
        was_correct: None,
    });
    let next = high.next_review_at.unwrap();
    assert!(next.len() > 0);
}
