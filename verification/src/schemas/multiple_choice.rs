//! Multiple choice questions: the answers of a question are stored as a list of
//! texts plus a bitmask whose bit `i` says whether answer `i` is correct.
use vstd::prelude::*;

verus! {

/// One possible answer of a multiple choice question.
pub struct Answer {
    /// The answer.
    pub answer: String,
    /// Whether this answer is correct.
    pub correct: bool,
}

/// The request to create a multiple choice question.
pub struct CreateMultipleChoiceQuestionRequest {
    /// The question text.
    pub question: String,
    /// The possible answers to the question.
    pub answers: Vec<Answer>,
    /// The number of xp a user gets for completing this subtask.
    pub xp: u64,
    /// The number of morphcoins a user gets for completing this subtask.
    pub coins: u64,
    /// The number of morphcoins a user has to pay to access this subtask.
    pub fee: u64,
}

/// An attempt to solve a multiple choice question.
pub struct SolveQuestionRequest {
    /// For each possible answer exactly one boolean (`true` for "answer is
    /// correct" or `false` for "answer is incorrect").
    pub answers: Vec<bool>,
}

/// The feedback on an attempt.
pub struct SolveQuestionFeedback {
    /// Whether the user has successfully solved the question.
    pub solved: bool,
    /// The number of answers that were marked correctly.
    pub correct: usize,
}

/// Whether bit `i` of the bitmask `correct` is set.
pub open spec fn bit(correct: i64, i: nat) -> bool {
    correct & (1i64 << (i as u64)) != 0
}

/// The bitmask whose bit `i` is the flag `flags[i]` (and every higher bit is
/// clear).
pub open spec fn mask_of(flags: Seq<bool>) -> i64
    decreases flags.len(),
{
    if flags.len() == 0 {
        0
    } else {
        mask_of(flags.drop_last()) | ((if flags.last() {
            1i64
        } else {
            0i64
        }) << ((flags.len() - 1) as u64))
    }
}

/// The number of positions `i < n` at which the marking `answers[i]` agrees
/// with bit `i` of `correct`.
pub open spec fn agreements(answers: Seq<bool>, correct: i64, n: nat) -> nat
    decreases n,
{
    if n == 0 {
        0
    } else {
        agreements(answers, correct, (n - 1) as nat) + if bit(correct, (n - 1) as nat)
            == answers[n - 1] {
            1nat
        } else {
            0nat
        }
    }
}

proof fn lemma_bit_or(acc: i64, x: i64, i: u64, j: u64)
    by (bit_vector)
    requires
        i < 64,
        j < 64,
        x == 0 || x == 1,
    ensures
        j != i ==> (((acc | (x << i)) & (1i64 << j)) != 0) == ((acc & (1i64 << j)) != 0),
        j == i ==> (((acc | (x << i)) & (1i64 << j)) != 0) == ((acc & (1i64 << j)) != 0 || x
            == 1),
{
}

proof fn lemma_bit_zero(j: u64)
    by (bit_vector)
    requires
        j < 64,
    ensures
        (0i64 & (1i64 << j)) == 0,
{
}

/// Bit `j` of the mask of `flags` is `flags[j]` below the length of `flags`
/// and clear from there on.
pub proof fn lemma_mask_of(flags: Seq<bool>, j: nat)
    requires
        flags.len() <= 64,
        j < 64,
    ensures
        bit(mask_of(flags), j) == (j < flags.len() && flags[j as int]),
    decreases flags.len(),
{
    if flags.len() == 0 {
        lemma_bit_zero(j as u64);
    } else {
        let before = flags.drop_last();
        lemma_mask_of(before, j);
        let x: i64 = if flags.last() {
            1
        } else {
            0
        };
        lemma_bit_or(mask_of(before), x, (flags.len() - 1) as u64, j as u64);
    }
}

/// Pair every answer text with its flag from the bitmask `correct`.
pub fn combine_answers(answers: Vec<String>, correct: i64) -> (res: Vec<Answer>)
    requires
        answers.len() <= 64,
    ensures
        res.len() == answers.len(),
        forall|i: int|
            0 <= i < res.len() ==> (#[trigger] res[i]).answer@ == answers[i]@ && res[i].correct
                == bit(correct, i as nat),
{
    let mut res: Vec<Answer> = Vec::new();
    let mut i: usize = 0;
    while i < answers.len()
        invariant
            i <= answers.len() <= 64,
            res.len() == i,
            forall|k: int|
                0 <= k < i ==> (#[trigger] res[k]).answer@ == answers[k]@ && res[k].correct
                    == bit(correct, k as nat),
        decreases answers.len() - i,
    {
        let flag = correct & (1i64 << i) != 0;
        res.push(Answer { answer: answers[i].clone(), correct: flag });
        i = i + 1;
    }
    res
}

/// Split answers into their texts and the bitmask of their flags.
pub fn split_answers(answers: Vec<Answer>) -> (res: (Vec<String>, i64))
    requires
        answers.len() <= 64,
    ensures
        res.0.len() == answers.len(),
        forall|i: int| 0 <= i < res.0.len() ==> (#[trigger] res.0[i])@ == answers[i].answer@,
        res.1 == mask_of(answers@.map_values(|a: Answer| a.correct)),
        forall|i: nat| i < 64 ==> #[trigger] bit(res.1, i) == (i < answers.len() && answers[i as int].correct),
{
    let ghost flags = answers@.map_values(|a: Answer| a.correct);
    let mut out: Vec<String> = Vec::new();
    let mut correct: i64 = 0;
    let mut i: usize = 0;
    while i < answers.len()
        invariant
            i <= answers.len() <= 64,
            flags == answers@.map_values(|a: Answer| a.correct),
            out.len() == i,
            forall|k: int| 0 <= k < i ==> (#[trigger] out[k])@ == answers[k].answer@,
            correct == mask_of(flags.take(i as int)),
        decreases answers.len() - i,
    {
        out.push(answers[i].answer.clone());
        let x: i64 = if answers[i].correct {
            1
        } else {
            0
        };
        proof {
            let next = flags.take(i + 1);
            assert(next.drop_last() =~= flags.take(i as int));
            assert(next.last() == answers[i as int].correct);
        }
        correct = correct | (x << i);
        i = i + 1;
    }
    assert(flags.take(answers.len() as int) =~= flags);
    proof {
        assert forall|j: nat| j < 64 implies #[trigger] bit(correct, j) == (j < answers.len()
            && answers[j as int].correct) by {
            lemma_mask_of(flags, j);
        }
    }
    (out, correct)
}

/// The number of answers that are marked as they are flagged in `correct`.
pub fn check_answers(answers: &[bool], correct: i64) -> (n: usize)
    requires
        answers@.len() <= 64,
    ensures
        n == agreements(answers@, correct, answers@.len()),
{
    let mut n: usize = 0;
    let mut i: usize = 0;
    while i < answers.len()
        invariant
            i <= answers@.len() <= 64,
            n == agreements(answers@, correct, i as nat),
            n <= i,
        decreases answers.len() - i,
    {
        if (correct & (1i64 << i) != 0) == answers[i] {
            n = n + 1;
        }
        i = i + 1;
    }
    n
}

/// Splitting answers and pairing them again gives back the same answers.
pub proof fn lemma_combine_split_roundtrip(flags: Seq<bool>)
    requires
        flags.len() <= 64,
    ensures
        forall|i: nat| i < flags.len() ==> #[trigger] bit(mask_of(flags), i) == flags[i as int],
{
    assert forall|i: nat| i < flags.len() implies #[trigger] bit(mask_of(flags), i)
        == flags[i as int] by {
        lemma_mask_of(flags, i);
    }
}

/// The low `n` bits of `c`: every higher bit cleared.
pub open spec fn low_bits(c: i64, n: nat) -> i64 {
    c & !(-1i64 << (n as u64))
}

proof fn lemma_low_bits_zero(c: i64)
    by (bit_vector)
    ensures
        c & !(-1i64 << 0u64) == 0,
{
}

proof fn lemma_low_bits_step(c: i64, k: u64, next: u64)
    by (bit_vector)
    requires
        k < 63,
        next == k + 1,
    ensures
        (c & (1i64 << k)) != 0 ==> (c & !(-1i64 << k)) | (1i64 << k) == c & !(-1i64 << next),
        (c & (1i64 << k)) == 0 ==> (c & !(-1i64 << k)) | (0i64 << k) == c & !(-1i64 << next),
{
}

/// The mask of flags that copy the low bits of `c` is those low bits of `c`.
pub proof fn lemma_mask_of_low_bits(flags: Seq<bool>, c: i64)
    requires
        flags.len() < 64,
        forall|i: int| 0 <= i < flags.len() ==> #[trigger] flags[i] == bit(c, i as nat),
    ensures
        mask_of(flags) == low_bits(c, flags.len()),
    decreases flags.len(),
{
    if flags.len() == 0 {
        lemma_low_bits_zero(c);
    } else {
        let k = (flags.len() - 1) as u64;
        let before = flags.drop_last();
        assert forall|i: int| 0 <= i < before.len() implies #[trigger] before[i] == bit(c, i as nat) by {
            assert(before[i] == flags[i]);
        }
        lemma_mask_of_low_bits(before, c);
        assert(flags.last() == bit(c, k as nat));
        lemma_low_bits_step(c, k, flags.len() as u64);
    }
}

/// Splitting what [`combine_answers`] built gives back the texts unchanged
/// and the low bits of the mask, one per answer: the bits at and above the
/// number of answers are cleared.
pub proof fn lemma_split_after_combine(texts: Seq<String>, combined: Seq<Answer>, correct: i64)
    requires
        texts.len() < 64,
        combined.len() == texts.len(),
        forall|i: int|
            0 <= i < combined.len() ==> (#[trigger] combined[i]).answer@ == texts[i]@ && combined[i].correct
                == bit(correct, i as nat),
    ensures
        forall|i: int| 0 <= i < combined.len() ==> (#[trigger] combined[i]).answer@ == texts[i]@,
        mask_of(combined.map_values(|a: Answer| a.correct)) == low_bits(correct, texts.len()),
{
    let flags = combined.map_values(|a: Answer| a.correct);
    assert forall|i: int| 0 <= i < flags.len() implies #[trigger] flags[i] == bit(correct, i as nat) by {
        assert(flags[i] == combined[i].correct);
    }
    lemma_mask_of_low_bits(flags, correct);
}

/// Marking exactly the correct answers agrees with the bitmask everywhere.
pub proof fn lemma_true_marking_solves(flags: Seq<bool>, n: nat)
    requires
        flags.len() <= 64,
        n <= flags.len(),
    ensures
        agreements(flags, mask_of(flags), n) == n,
    decreases n,
{
    if n > 0 {
        lemma_true_marking_solves(flags, (n - 1) as nat);
        lemma_mask_of(flags, (n - 1) as nat);
    }
}

} // verus!
