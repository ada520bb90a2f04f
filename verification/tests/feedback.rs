use challenges::endpoints::feedback::{count_ratings, should_auto_hide, AUTO_HIDE_NEGATIVE_RATINGS};
use challenges::schemas::subtasks::Rating;

fn ratings(positive: usize, negative: usize) -> Vec<Option<Rating>> {
    let mut ratings = vec![Some(Rating::Positive); positive];
    ratings.resize(positive + negative, Some(Rating::Negative));
    ratings
}

#[test]
fn only_positive_and_negative_ratings_are_counted() {
    let mixed = [
        Some(Rating::Positive),
        Some(Rating::Neutral),
        Some(Rating::Negative),
        Some(Rating::Negative),
        None,
    ];

    assert_eq!(count_ratings(&mixed), (1, 2));
}

/// Ten negative ratings hide the subtask, nine do not.
#[test]
fn ten_negative_ratings_hide_a_subtask() {
    for count in 0..AUTO_HIDE_NEGATIVE_RATINGS {
        let (positive, negative) = count_ratings(&ratings(0, count));
        assert!(!should_auto_hide(positive, negative), "{count}");
    }

    let (positive, negative) = count_ratings(&ratings(0, AUTO_HIDE_NEGATIVE_RATINGS));
    assert!(should_auto_hide(positive, negative));
}

/// A subtask most users like stays visible however often it is disliked.
#[test]
fn more_likes_than_dislikes_keep_a_subtask_visible() {
    let (positive, negative) = count_ratings(&ratings(10, 10));
    assert!(!should_auto_hide(positive, negative));

    let (positive, negative) = count_ratings(&ratings(10, 11));
    assert!(should_auto_hide(positive, negative));
}

#[test]
fn a_liked_subtask_stays_visible_under_many_dislikes() {
    let (positive, negative) = count_ratings(&ratings(500, 500));
    assert!(!should_auto_hide(positive, negative));
}
