use std::collections::HashSet;

use challenges::endpoints::matchings::{check_matching, count_correct, is_solved, InvalidMatchingError};

#[test]
fn test_check_matching() {
    let left: [String; 3] = ["A".into(), "B".into(), "C".into()];
    let right: [String; 3] = ["X".into(), "Y".into(), "Z".into()];
    let solution = [2, 0, 1];
    assert_eq!(check_matching(&left, &right, &solution), Ok(()));
    assert_eq!(
        check_matching(&left, &right, &[2, 0, 1, 3]),
        Err(InvalidMatchingError::SolutionDifferentLength)
    );
    assert_eq!(
        check_matching(&left, &right, &[2, 0, 3]),
        Err(InvalidMatchingError::InvalidIndex(3))
    );
    assert_eq!(
        check_matching(&left, &right, &[2, 0, 2]),
        Err(InvalidMatchingError::RightEntriesNotMatched(HashSet::from([1])))
    );
    assert_eq!(
        check_matching(&left, &right, &[1, 1, 1]),
        Err(InvalidMatchingError::RightEntriesNotMatched(HashSet::from([0, 2])))
    );
    assert_eq!(
        check_matching(&left, &["foo".into()], &solution),
        Err(InvalidMatchingError::LeftRightDifferentLength)
    );
}

#[test]
fn the_solution_solves_its_matching() {
    let solution = [2u8, 0, 1];
    assert_eq!(count_correct(&solution, &solution), 3);
    assert!(is_solved(&solution, &solution));
    assert_eq!(count_correct(&[2, 1, 1], &solution), 2);
    assert!(!is_solved(&[2, 1, 1], &solution));
}
