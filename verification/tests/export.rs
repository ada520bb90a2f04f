use std::collections::HashMap;

use challenges::schemas::multiple_choice::{split_answers, Answer};
use challenges::services::authored_export::{
    correct_answer_indices, insert_all_unique, insert_unique, InconsistentContent,
};

#[test]
fn a_second_definition_makes_the_export_inconsistent() {
    let mut map: HashMap<u128, &str> = HashMap::new();
    assert_eq!(insert_unique(&mut map, 1, "a"), Ok(()));
    assert_eq!(insert_unique(&mut map, 2, "b"), Ok(()));
    assert_eq!(insert_unique(&mut map, 1, "c"), Err(InconsistentContent));
    assert_eq!(map.len(), 2);
    assert_eq!(map[&1], "c");
    assert_eq!(
        InconsistentContent.message(),
        "Authored export has missing or inconsistent subtype records"
    );
}

#[test]
fn the_export_lists_the_flagged_answers() {
    assert_eq!(correct_answer_indices(4, 0b1010), vec![1, 3]);
    assert_eq!(correct_answer_indices(2, 0b1010), vec![1]);
    assert_eq!(correct_answer_indices(100, -1).len(), 64);
    let answers = vec![
        Answer { answer: "a".into(), correct: true },
        Answer { answer: "b".into(), correct: false },
        Answer { answer: "c".into(), correct: true },
    ];
    let (_, mask) = split_answers(answers);
    assert_eq!(correct_answer_indices(3, mask), vec![0, 2]);
}

#[test]
fn rows_of_one_kind_are_added_by_their_keys() {
    let mut content: HashMap<u128, String> = HashMap::new();
    assert_eq!(insert_all_unique(&mut content, vec![(1, "a".to_string()), (2, "b".to_string())]), Ok(()));
    assert_eq!(content.len(), 2);
    assert_eq!(content[&2], "b");
    assert_eq!(insert_all_unique(&mut content, vec![]), Ok(()));
    let res = insert_all_unique(
        &mut content,
        vec![(3, "c".to_string()), (1, "again".to_string()), (4, "d".to_string())],
    );
    assert_eq!(res, Err(InconsistentContent));
    assert_eq!(content[&3], "c");
    assert_eq!(content[&1], "again");
    assert!(!content.contains_key(&4));
}
