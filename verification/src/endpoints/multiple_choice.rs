//! Multiple choice questions: what an authored question must satisfy and how
//! an attempt is graded.
use vstd::prelude::*;

use crate::schemas::multiple_choice::{agreements, bit, check_answers, mask_of, Answer};

verus! {

/// Why an authored multiple choice question is refused.
#[derive(PartialEq, Eq, Structural, Debug, Clone, Copy)]
pub enum AnswersError {
    /// `single_choice` is set, but there is not exactly one correct answer.
    InvalidSingleChoice,
    /// There is no correct answer.
    InvalidMultipleChoice,
}

/// The number of the first `n` flags that are set.
pub open spec fn flagged(flags: Seq<bool>, n: nat) -> nat
    decreases n,
{
    if n == 0 {
        0
    } else {
        flagged(flags, (n - 1) as nat) + if flags[n - 1] {
            1nat
        } else {
            0nat
        }
    }
}

/// The flags of a list of answers.
pub open spec fn flags_of(answers: Seq<Answer>) -> Seq<bool> {
    answers.map_values(|a: Answer| a.correct)
}

/// The number of the first `n` bits of `mask` that are set.
pub open spec fn set_bits(mask: i64, n: nat) -> nat
    decreases n,
{
    if n == 0 {
        0
    } else {
        set_bits(mask, (n - 1) as nat) + if bit(mask, (n - 1) as nat) {
            1nat
        } else {
            0nat
        }
    }
}

/// The number of answers that are marked correct.
pub fn count_correct_answers(answers: &[Answer]) -> (n: usize)
    ensures
        n == flagged(flags_of(answers@), answers@.len()),
{
    let ghost flags = flags_of(answers@);
    let mut n: usize = 0;
    let mut i: usize = 0;
    while i < answers.len()
        invariant
            i <= answers@.len(),
            flags == flags_of(answers@),
            n <= i,
            n == flagged(flags, i as nat),
        decreases answers.len() - i,
    {
        assert(flags[i as int] == answers@[i as int].correct);
        if answers[i].correct {
            n = n + 1;
        }
        i = i + 1;
    }
    n
}

/// `i64::count_ones`: the number of set bits of a bitmask.
pub fn count_ones(mask: i64) -> (n: usize)
    ensures
        n == set_bits(mask, 64),
{
    let mut n: usize = 0;
    let mut i: usize = 0;
    while i < 64
        invariant
            i <= 64,
            n <= i,
            n == set_bits(mask, i as nat),
        decreases 64 - i,
    {
        if mask & (1i64 << i) != 0 {
            n = n + 1;
        }
        i = i + 1;
    }
    n
}

/// Check the number of correct answers of an authored question: exactly one
/// for a single choice question, at least one otherwise.
pub fn check_correct_count(single_choice: bool, correct: usize) -> (res: Result<(), AnswersError>)
    ensures
        single_choice && correct != 1 ==> res == Err::<(), AnswersError>(AnswersError::InvalidSingleChoice),
        !(single_choice && correct != 1) && correct == 0 ==> res == Err::<(), AnswersError>(
            AnswersError::InvalidMultipleChoice,
        ),
        !(single_choice && correct != 1) && correct != 0 ==> res is Ok,
{
    if single_choice && correct != 1 {
        return Err(AnswersError::InvalidSingleChoice);
    }
    if correct == 0 {
        return Err(AnswersError::InvalidMultipleChoice);
    }
    Ok(())
}

/// The feedback on an attempt: whether it solves the question, and how many
/// answers it marks as they are flagged.
pub fn grade(answers: &[bool], correct: i64) -> (res: (bool, usize))
    requires
        answers@.len() <= 64,
    ensures
        res.1 == agreements(answers@, correct, answers@.len()),
        res.0 == (res.1 == answers@.len()),
{
    let n = check_answers(answers, correct);
    (n == answers.len(), n)
}

/// The stored bitmask of a question counts as many correct answers as its
/// authored flags: a question keeps its number of correct answers when it is
/// updated without new answers.
pub proof fn lemma_mask_counts_flags(flags: Seq<bool>, n: nat)
    requires
        flags.len() <= 64,
        n <= 64,
    ensures
        set_bits(mask_of(flags), n) == flagged(flags, if n < flags.len() { n } else { flags.len() }),
    decreases n,
{
    if n > 0 {
        lemma_mask_counts_flags(flags, (n - 1) as nat);
        crate::schemas::multiple_choice::lemma_mask_of(flags, (n - 1) as nat);
    }
}

} // verus!
