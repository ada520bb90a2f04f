use challenges::endpoints::question::{check_answers, is_solved_by, normalize_answer};

#[test]
fn test_normalize_answer() {
    assert_eq!(normalize_answer("", true), "");
    assert_eq!(
        normalize_answer(" This     is my ANSWER!   \n\n \t  42 ", true),
        "This is my ANSWER! 42"
    );
    assert_eq!(
        normalize_answer(" This     is my ANSWER!   \n\n \t  42 ", false),
        "this is my answer! 42"
    );
}

#[test]
fn a_typed_answer_matches_an_accepted_answer_in_normal_form() {
    let answers: Vec<String> = vec!["Hello World".into(), "hi".into()];
    assert!(is_solved_by(&answers, "  hello   WORLD ", false));
    assert!(!is_solved_by(&answers, "  hello   WORLD ", true));
    assert!(!is_solved_by(&answers, "bye", false));
}

#[test]
fn accepted_answers_use_only_the_allowed_characters() {
    let answers: Vec<String> = vec!["abc 12".into()];
    assert!(check_answers(&answers, true, true, false));
    assert!(!check_answers(&answers, true, false, false));
    let punctuated: Vec<String> = vec!["a!".into()];
    assert!(!check_answers(&punctuated, true, false, false));
    assert!(check_answers(&punctuated, true, false, true));
}
