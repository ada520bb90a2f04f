use challenges::endpoints::multiple_choice::{
    check_correct_count, count_correct_answers, count_ones, grade, AnswersError,
};
use challenges::schemas::multiple_choice::{check_answers, combine_answers, split_answers, Answer};

#[test]
fn test_combine_answers() {
    let answers = vec!["foo".into(), "bar".into(), "baz".into()];
    let correct = 0b011;
    let res = combine_answers(answers, correct);
    assert_eq!(res[0].answer, "foo");
    assert_eq!(res[1].answer, "bar");
    assert_eq!(res[2].answer, "baz");
    assert!(res[0].correct);
    assert!(res[1].correct);
    assert!(!res[2].correct);
}

#[test]
fn test_split_answers() {
    let answers = vec![
        Answer {
            answer: "foo".into(),
            correct: true,
        },
        Answer {
            answer: "bar".into(),
            correct: true,
        },
        Answer {
            answer: "baz".into(),
            correct: false,
        },
    ];
    let (answers, correct) = split_answers(answers);
    assert_eq!(answers, ["foo", "bar", "baz"]);
    assert_eq!(correct, 0b011);
}

#[test]
fn test_check_answers() {
    assert_eq!(check_answers(&[true, true, false, true], 0b1001), 3);
    assert_eq!(check_answers(&[true, true, true, true], 0b1001), 2);
    assert_eq!(check_answers(&[true, false, false, true], 0b1001), 4);
    assert_eq!(check_answers(&[true, true, true, false], 0b1001), 1);
    assert_eq!(check_answers(&[false, true, true, false], 0b1001), 0);
}

#[test]
fn splitting_and_combining_gives_the_answers_back() {
    let answers = vec![
        Answer { answer: "a".into(), correct: false },
        Answer { answer: "b".into(), correct: true },
        Answer { answer: "c".into(), correct: true },
    ];
    let (texts, mask) = split_answers(answers);
    let combined = combine_answers(texts, mask);
    let flags: Vec<bool> = combined.iter().map(|a| a.correct).collect();
    assert_eq!(flags, vec![false, true, true]);
    assert_eq!(combined[1].answer, "b");
}

#[test]
fn marking_the_flagged_answers_solves_the_question() {
    assert_eq!(grade(&[false, true, true], 0b110), (true, 3));
    assert_eq!(grade(&[true, true, true], 0b110), (false, 2));
}

#[test]
fn authored_questions_need_correct_answers() {
    let answers = vec![
        Answer { answer: "a".into(), correct: true },
        Answer { answer: "b".into(), correct: true },
    ];
    assert_eq!(count_correct_answers(&answers), 2);
    assert_eq!(check_correct_count(true, 2), Err(AnswersError::InvalidSingleChoice));
    assert_eq!(check_correct_count(false, 0), Err(AnswersError::InvalidMultipleChoice));
    assert_eq!(check_correct_count(true, 1), Ok(()));
    assert_eq!(count_ones(0b1011), 3);
    assert_eq!(count_ones(-1), 64);
}

#[test]
fn splitting_combined_answers_keeps_the_texts_and_the_low_bits() {
    let texts: Vec<String> = vec!["a".into(), "b".into(), "c".into()];
    let mask: i64 = -1 ^ 0b010;
    let (back, bits) = split_answers(combine_answers(texts.clone(), mask));
    assert_eq!(back, texts);
    assert_eq!(bits, mask & !(-1i64 << texts.len()));
    assert_eq!(bits, 0b101);
    let (none, zero) = split_answers(combine_answers(vec![], -1));
    assert!(none.is_empty());
    assert_eq!(zero, 0);
}
