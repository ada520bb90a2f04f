//! Ratings of subtasks and the automatic hiding of disliked subtasks.
use vstd::prelude::*;

use crate::schemas::subtasks::Rating;
use crate::text::{decimal, u64_to_string};

verus! {

/// Number of negative ratings from which a subtask is hidden automatically.
pub const AUTO_HIDE_NEGATIVE_RATINGS: usize = 10;

/// The number of the first `n` ratings that equal `which`.
pub open spec fn rating_count(ratings: Seq<Option<Rating>>, which: Rating, n: nat) -> nat
    decreases n,
{
    if n == 0 {
        0
    } else {
        rating_count(ratings, which, (n - 1) as nat) + if ratings[n - 1] == Some(which) {
            1nat
        } else {
            0nat
        }
    }
}

/// Count the positive and the negative ratings, in that order.
pub fn count_ratings(ratings: &[Option<Rating>]) -> (res: (usize, usize))
    ensures
        res.0 == rating_count(ratings@, Rating::Positive, ratings@.len()),
        res.1 == rating_count(ratings@, Rating::Negative, ratings@.len()),
{
    let mut positive: usize = 0;
    let mut negative: usize = 0;
    let mut i: usize = 0;
    while i < ratings.len()
        invariant
            i <= ratings@.len(),
            positive + negative <= i,
            positive == rating_count(ratings@, Rating::Positive, i as nat),
            negative == rating_count(ratings@, Rating::Negative, i as nat),
        decreases ratings.len() - i,
    {
        match ratings[i] {
            Some(Rating::Positive) => {
                positive = positive + 1;
            },
            Some(Rating::Negative) => {
                negative = negative + 1;
            },
            Some(Rating::Neutral) | None => {},
        }
        i = i + 1;
    }
    (positive, negative)
}

/// Whether a subtask with these counts of positive and negative ratings is
/// hidden and reported for review: at least ten negative ratings, and more
/// negative than positive ones.
pub open spec fn auto_hidden(positive: nat, negative: nat) -> bool {
    negative >= AUTO_HIDE_NEGATIVE_RATINGS && negative > positive
}

/// Whether a subtask with these ratings is hidden and reported for review
/// (see [`auto_hidden`]).
pub fn should_auto_hide(positive: usize, negative: usize) -> (hide: bool)
    ensures
        hide == auto_hidden(positive as nat, negative as nat),
{
    negative >= AUTO_HIDE_NEGATIVE_RATINGS && negative > positive
}

/// A subtask that at least as many users like as dislike stays visible,
/// however often it is disliked; fewer than ten dislikes never hide a
/// subtask.
pub proof fn lemma_liked_subtask_stays_visible(ratings: Seq<Option<Rating>>)
    ensures
        rating_count(ratings, Rating::Positive, ratings.len()) >= rating_count(ratings, Rating::Negative, ratings.len())
            ==> !auto_hidden(
            rating_count(ratings, Rating::Positive, ratings.len()),
            rating_count(ratings, Rating::Negative, ratings.len()),
        ),
        rating_count(ratings, Rating::Negative, ratings.len()) < AUTO_HIDE_NEGATIVE_RATINGS ==> !auto_hidden(
            rating_count(ratings, Rating::Positive, ratings.len()),
            rating_count(ratings, Rating::Negative, ratings.len()),
        ),
{
}

/// A further dislike never lifts the hiding of a subtask, and a further like
/// never hides it.
pub proof fn lemma_hiding_is_monotone(positive: nat, negative: nat)
    ensures
        auto_hidden(positive, negative) ==> auto_hidden(positive, negative + 1),
        !auto_hidden(positive, negative) ==> !auto_hidden(positive + 1, negative),
{
}

/// Whether a rating files an automatic report against its subtask: a
/// negative rating after which the subtask is auto hidden, unless the same
/// cohort of ratings was reported already.
pub fn auto_report_due(rating: Rating, positive: usize, negative: usize, cohort_reported: bool) -> (due: bool)
    ensures
        due == (rating == Rating::Negative && auto_hidden(positive as nat, negative as nat) && !cohort_reported),
{
    match rating {
        Rating::Negative => should_auto_hide(positive, negative) && !cohort_reported,
        _ => false,
    }
}

/// The comment of an automatic report.
pub fn auto_report_comment(negative: usize, positive: usize) -> (comment: String)
    requires
        negative <= u64::MAX,
        positive <= u64::MAX,
    ensures
        comment@ == decimal(negative as nat) + " negative und "@ + decimal(positive as nat)
            + " positive Bewertungen (mindestens 10 negative und mehr negative als positive Bewertungen)."@,
{
    let mut comment = u64_to_string(negative as u64);
    comment.append(" negative und ");
    let p = u64_to_string(positive as u64);
    comment.append(p.as_str());
    comment.append(" positive Bewertungen (mindestens 10 negative und mehr negative als positive Bewertungen).");
    comment
}

} // verus!
