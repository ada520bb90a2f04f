use challenges::endpoints::attempts::QuizEffects;
use challenges::endpoints::cloze::{
    answer_count_message, cloze_effects, cloze_feedback, cloze_wait, extract_placeholders, grade_cloze,
    normalize_answer, sanitize_synonyms, ClozeAnswer, ClozeAnswerError, ClozeAttemptError, ClozeBlankRow,
    ClozeFeedback, CreateClozeBlank, PreparedCloze, ValidationError,
};
use challenges::services::subtasks::{SubtaskModel, SubtaskType, User};

#[test]
fn parses_placeholders() {
    let content = "Fill {{blank_1}} and {{blank_2}}.";
    assert_eq!(extract_placeholders(content).unwrap(), vec![1, 2]);
}

#[test]
fn normalizes_answers() {
    assert_eq!(normalize_answer(" Foo  bar ", false), "foo bar");
    assert_eq!(normalize_answer(" Foo  bar ", true), "Foo bar");
}

#[test]
fn prepared_rejects_duplicate_placeholder_definitions() {
    let blank = CreateClozeBlank {
        placeholder: 1,
        answer: "A".into(),
        synonyms: vec![],
        option_index: None,
    };
    let err = PreparedCloze::new(
        "{{blank_1}}".into(),
        false,
        vec![blank.clone(), blank],
        vec![],
    )
    .unwrap_err();
    assert!(matches!(err, ValidationError::DuplicatePlaceholder(1)));
}

#[test]
fn prepared_requires_option_assignments_when_options_exist() {
    let blank = CreateClozeBlank {
        placeholder: 1,
        answer: "A".into(),
        synonyms: vec![],
        option_index: None,
    };
    let err = PreparedCloze::new("{{blank_1}}".into(), false, vec![blank], vec!["A".into()])
        .unwrap_err();
    assert!(matches!(err, ValidationError::MissingOptionAssignment(1)));
}

#[test]
fn content_without_placeholders_is_refused() {
    assert_eq!(extract_placeholders("no blanks here"), Ok(vec![]));
    let err = PreparedCloze::new("no blanks here".into(), false, vec![], vec![]).unwrap_err();
    assert_eq!(err, ValidationError::NoPlaceholders);
}

#[test]
fn a_repeated_placeholder_in_the_content_is_refused() {
    assert_eq!(
        extract_placeholders("{{blank_3}} and {{blank_3}}"),
        Err(ValidationError::DuplicatePlaceholder(3))
    );
}

#[test]
fn synonyms_keep_the_first_spelling_of_each_normal_form() {
    let values: Vec<String> = vec!["Foo".into(), " foo ".into(), "  ".into(), "Bar".into()];
    assert_eq!(sanitize_synonyms(&values, false), vec!["Foo".to_string(), "Bar".to_string()]);
    assert_eq!(
        sanitize_synonyms(&values, true),
        vec!["Foo".to_string(), " foo ".to_string(), "Bar".to_string()]
    );
}

#[test]
fn prepared_orders_blanks_by_placeholder() {
    let blank = |placeholder: u32, answer: &str| CreateClozeBlank {
        placeholder,
        answer: answer.into(),
        synonyms: vec![],
        option_index: None,
    };
    let prepared = PreparedCloze::new(
        "{{blank_2}} {{blank_1}}".into(),
        false,
        vec![blank(2, "b"), blank(1, "a")],
        vec![],
    )
    .unwrap();
    let order: Vec<u32> = prepared.blanks.iter().map(|b| b.placeholder).collect();
    assert_eq!(order, vec![1, 2]);
    assert_eq!(prepared.blanks[0].answer, "a");
}

#[test]
fn an_empty_answer_is_refused() {
    let blank = CreateClozeBlank {
        placeholder: 1,
        answer: "  ".into(),
        synonyms: vec![],
        option_index: None,
    };
    let err = PreparedCloze::new("{{blank_1}}".into(), false, vec![blank], vec![]).unwrap_err();
    assert_eq!(err, ValidationError::EmptyAnswer(1));
}

fn stored(id: u128, answer: &str, option: Option<u128>) -> ClozeBlankRow {
    ClozeBlankRow {
        id,
        placeholder: id as i32,
        answer: answer.into(),
        synonyms: vec!["Alt".into()],
        correct_option_id: option,
    }
}

#[test]
fn the_author_answers_solve_a_cloze_with_options() {
    let blanks = vec![stored(1, "a", Some(20)), stored(2, "b", Some(10))];
    let options = vec![10, 20];
    let answers = vec![
        ClozeAnswer { blank_id: 1, option_id: Some(20), text: None },
        ClozeAnswer { blank_id: 2, option_id: Some(10), text: None },
    ];
    assert_eq!(grade_cloze(&blanks, &options, false, &answers), Ok(2));
    let swapped = vec![
        ClozeAnswer { blank_id: 1, option_id: Some(10), text: None },
        ClozeAnswer { blank_id: 2, option_id: Some(20), text: None },
    ];
    assert_eq!(grade_cloze(&blanks, &options, false, &swapped), Ok(0));
    let reused = vec![
        ClozeAnswer { blank_id: 1, option_id: Some(10), text: None },
        ClozeAnswer { blank_id: 2, option_id: Some(10), text: None },
    ];
    assert_eq!(grade_cloze(&blanks, &options, false, &reused), Err(ClozeAnswerError::OptionReused(10)));
}

#[test]
fn the_author_answers_solve_a_typed_cloze() {
    let blanks = vec![stored(1, " Foo  Bar ", None), stored(2, "x", None)];
    let answers = vec![
        ClozeAnswer { blank_id: 2, option_id: None, text: Some("x".into()) },
        ClozeAnswer { blank_id: 1, option_id: None, text: Some(" Foo  Bar ".into()) },
    ];
    assert_eq!(grade_cloze(&blanks, &vec![], true, &answers), Ok(2));
    let loose = vec![
        ClozeAnswer { blank_id: 1, option_id: None, text: Some("foo bar".into()) },
        ClozeAnswer { blank_id: 2, option_id: None, text: Some("nope".into()) },
    ];
    assert_eq!(grade_cloze(&blanks, &vec![], false, &loose), Ok(1));
    let synonym = vec![
        ClozeAnswer { blank_id: 1, option_id: None, text: Some("  ALT ".into()) },
        ClozeAnswer { blank_id: 2, option_id: None, text: Some("X".into()) },
    ];
    assert_eq!(grade_cloze(&blanks, &vec![], false, &synonym), Ok(2));
    let missing = vec![ClozeAnswer { blank_id: 1, option_id: None, text: Some("foo".into()) }];
    assert_eq!(grade_cloze(&blanks, &vec![], false, &missing), Err(ClozeAnswerError::Unanswered));
    let unknown = vec![ClozeAnswer { blank_id: 9, option_id: None, text: None }];
    assert_eq!(grade_cloze(&blanks, &vec![], false, &unknown), Err(ClozeAnswerError::UnknownBlank(9)));
}

#[test]
fn validation_errors_explain_themselves() {
    assert_eq!(
        ValidationError::DuplicatePlaceholder(3).message(),
        "Placeholder {blank_3} appears more than once (in the content or definitions)."
    );
    assert_eq!(
        ValidationError::InvalidPlaceholder.message(),
        "Placeholders must follow the form {blank_<number>} with positive numbers."
    );
    assert_eq!(
        ValidationError::TooFewOptions { blanks: 3, options: 2 }.message(),
        "Received 2 options for 3 blanks. Variant B requires at least as many options as blanks."
    );
    assert_eq!(
        ValidationError::OptionOutOfRange { placeholder: 4, index: 7 }.message(),
        "Placeholder {blank_4} references option index 7, which is out of range."
    );
    assert_eq!(ValidationError::DuplicateOption("x".into()).message(), "Option \"x\" is duplicated.");
}

#[test]
fn answer_errors_explain_themselves() {
    let id = uuid::Uuid::parse_str("67e55044-10b1-426f-9247-bb680e5fe0c8").unwrap();
    assert_eq!(
        ClozeAnswerError::UnknownBlank(id.as_u128()).message(),
        "Unknown blank id 67e55044-10b1-426f-9247-bb680e5fe0c8."
    );
    assert_eq!(
        ClozeAnswerError::RepeatedBlank(id.as_u128()).message(),
        "Blank 67e55044-10b1-426f-9247-bb680e5fe0c8 provided multiple times."
    );
    assert_eq!(answer_count_message(3, 2), "Expected 3 answers, got 2.");
}

#[test]
fn feedback_counts_the_correct_blanks_out_of_all() {
    let blanks = vec![stored(1, "a", Some(20)), stored(2, "b", Some(10))];
    let options = vec![10, 20];
    let solving = vec![
        ClozeAnswer { blank_id: 1, option_id: Some(20), text: None },
        ClozeAnswer { blank_id: 2, option_id: Some(10), text: None },
    ];
    assert_eq!(
        cloze_feedback(&blanks, &options, false, &solving),
        Ok(ClozeFeedback { solved: true, correct: 2, total: 2 })
    );
    let swapped = vec![
        ClozeAnswer { blank_id: 1, option_id: Some(10), text: None },
        ClozeAnswer { blank_id: 2, option_id: Some(20), text: None },
    ];
    assert_eq!(
        cloze_feedback(&blanks, &options, false, &swapped),
        Ok(ClozeFeedback { solved: false, correct: 0, total: 2 })
    );
    let typed = vec![stored(1, "Foo", None), stored(2, "x", None)];
    let half = vec![
        ClozeAnswer { blank_id: 1, option_id: None, text: Some(" foo ".into()) },
        ClozeAnswer { blank_id: 2, option_id: None, text: Some("y".into()) },
    ];
    assert_eq!(
        cloze_feedback(&typed, &vec![], false, &half),
        Ok(ClozeFeedback { solved: false, correct: 1, total: 2 })
    );
}

#[test]
fn feedback_checks_the_number_of_answers_first() {
    let blanks = vec![stored(1, "a", None), stored(2, "b", None), stored(3, "c", None)];
    let two = vec![
        ClozeAnswer { blank_id: 1, option_id: None, text: Some("a".into()) },
        ClozeAnswer { blank_id: 1, option_id: None, text: Some("a".into()) },
    ];
    let res = cloze_feedback(&blanks, &vec![], false, &two);
    assert_eq!(res, Err(ClozeAttemptError::AnswerCount { expected: 3, got: 2 }));
    assert_eq!(res.unwrap_err().message(), "Expected 3 answers, got 2.");
    let repeated = vec![
        ClozeAnswer { blank_id: 1, option_id: None, text: Some("a".into()) },
        ClozeAnswer { blank_id: 1, option_id: None, text: Some("a".into()) },
        ClozeAnswer { blank_id: 2, option_id: None, text: Some("b".into()) },
    ];
    let res = cloze_feedback(&blanks, &vec![], false, &repeated);
    assert_eq!(res, Err(ClozeAttemptError::Answer(ClozeAnswerError::RepeatedBlank(1))));
    assert_eq!(
        res.unwrap_err().message(),
        "Blank 00000000-0000-0000-0000-000000000001 provided multiple times."
    );
}

#[test]
fn an_empty_cloze_is_solved_by_no_answers() {
    let res = cloze_feedback(&vec![], &vec![], false, &vec![]);
    assert_eq!(res, Ok(ClozeFeedback { solved: true, correct: 0, total: 0 }));
}

#[test]
fn the_cloze_wait_counts_from_the_last_attempt() {
    let second: i64 = 1_000_000;
    assert_eq!(cloze_wait(10, None, 100 * second), None);
    assert_eq!(cloze_wait(10, Some(0), 3 * second + 999_999), Some(7));
    assert_eq!(cloze_wait(10, Some(0), 10 * second), None);
    assert_eq!(cloze_wait(10, Some(0), 12 * second), None);
    assert_eq!(cloze_wait(0, Some(0), 0), None);
}

fn cloze_subtask(creator: u128) -> SubtaskModel {
    SubtaskModel {
        id: 1,
        task_id: 2,
        ty: SubtaskType::Cloze,
        creator,
        creation_timestamp: 0,
        xp: 10,
        coins: 0,
        fee: 0,
        enabled: true,
        retired: false,
        moderation_removed: false,
    }
}

#[test]
fn a_cloze_attempt_changes_nothing_once_solved() {
    let user = User { id: 7, email_verified: true, admin: false };
    let nothing = QuizEffects { mark_solved: false, mark_unlocked: false, send_rewards: false, record_attempt: false };
    assert_eq!(
        cloze_effects(false, true, &user, &cloze_subtask(3)),
        QuizEffects { mark_solved: true, mark_unlocked: false, send_rewards: true, record_attempt: true }
    );
    assert_eq!(
        cloze_effects(false, true, &user, &cloze_subtask(7)),
        QuizEffects { mark_solved: true, mark_unlocked: false, send_rewards: false, record_attempt: true }
    );
    assert_eq!(
        cloze_effects(false, false, &user, &cloze_subtask(3)),
        QuizEffects { mark_solved: false, mark_unlocked: false, send_rewards: false, record_attempt: true }
    );
    assert_eq!(cloze_effects(true, true, &user, &cloze_subtask(3)), nothing);
    assert_eq!(cloze_effects(true, false, &user, &cloze_subtask(3)), nothing);
}

#[test]
fn the_normal_form_is_its_own_normal_form() {
    for case_sensitive in [false, true] {
        for raw in ["  Foo \t\n BAR\u{a0}baz  ", "x", "", "   ", "A\u{3000}\u{3000}b C"] {
            let once = normalize_answer(raw, case_sensitive);
            assert_eq!(normalize_answer(&once, case_sensitive), once);
            assert_eq!(once.trim(), once);
            assert!(!once.contains("  "));
            assert!(once.chars().all(|c| !c.is_whitespace() || c == ' '));
            if !case_sensitive {
                assert!(!once.chars().any(|c| c.is_ascii_uppercase()));
            }
            let kept: String = raw.chars().filter(|c| !c.is_whitespace()).collect();
            let kept = if case_sensitive { kept } else { kept.to_ascii_lowercase() };
            let once_kept: String = once.chars().filter(|c| !c.is_whitespace()).collect();
            assert_eq!(once_kept, kept);
        }
    }
    assert_eq!(normalize_answer("  Foo \t\n BAR\u{a0}baz  ", false), "foo bar baz");
}
