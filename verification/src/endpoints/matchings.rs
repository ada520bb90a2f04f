//! Matchings: a left and a right list and, for each entry on the left, the
//! index of its match on the right.
use std::collections::HashSet;

use vstd::prelude::*;

verus! {

broadcast use vstd::std_specs::hash::group_hash_axioms;

/// Why an authored matching is refused.
#[derive(PartialEq, Eq, Debug)]
pub enum InvalidMatchingError {
    /// The left list does not contain the same number of entries as the right
    /// list.
    LeftRightDifferentLength,
    /// The solution list does not contain the same number of entries as the
    /// left and right lists.
    SolutionDifferentLength,
    /// The solution list contains an invalid index.
    InvalidIndex(u8),
    /// These entries of the right list have no match in the left list.
    RightEntriesNotMatched(HashSet<u8>),
}

/// The index of the first entry of `solution` that is at least `m`.
pub open spec fn first_out_of_range(solution: Seq<u8>, m: nat, i: nat) -> Option<nat>
    decreases solution.len() - i,
{
    if i >= solution.len() {
        None
    } else if solution[i as int] >= m {
        Some(i)
    } else {
        first_out_of_range(solution, m, i + 1)
    }
}

/// The indices below `m` that `solution` does not contain.
pub open spec fn unmatched(solution: Seq<u8>, m: nat) -> Set<u8> {
    Set::new(|x: u8| x < m && !solution.contains(x))
}

#[verifier::loop_isolation(false)]
/// Check an authored matching. The number of right entries is taken modulo
/// 256, as the indices are bytes.
pub fn check_matching(left: &[String], right: &[String], solution: &[u8]) -> (res: Result<(), InvalidMatchingError>)
    ensures
        right@.len() != left@.len() ==> res == Err::<(), InvalidMatchingError>(InvalidMatchingError::LeftRightDifferentLength),
        right@.len() == left@.len() && solution@.len() != left@.len() ==> res == Err::<(), InvalidMatchingError>(
            InvalidMatchingError::SolutionDifferentLength,
        ),
        right@.len() == left@.len() && solution@.len() == left@.len() ==> match first_out_of_range(
            solution@,
            left@.len() % 256,
            0,
        ) {
            Some(i) => res == Err::<(), InvalidMatchingError>(InvalidMatchingError::InvalidIndex(solution@[i as int])),
            None => match res {
                Ok(()) => forall|x: u8| x < left@.len() % 256 ==> solution@.contains(x),
                Err(InvalidMatchingError::RightEntriesNotMatched(v)) => !v@.is_empty() && v@ == unmatched(
                    solution@,
                    left@.len() % 256,
                ),
                Err(_) => false,
            },
        },
{
    let n = left.len();
    if right.len() != n {
        return Err(InvalidMatchingError::LeftRightDifferentLength);
    }
    if solution.len() != n {
        return Err(InvalidMatchingError::SolutionDifferentLength);
    }
    let m: u8 = (n % 256) as u8;
    let mut i: usize = 0;
    while i < solution.len()
        invariant
            i <= solution@.len(),
            m == n % 256,
            first_out_of_range(solution@, m as nat, 0) == first_out_of_range(solution@, m as nat, i as nat),
        decreases solution.len() - i,
    {
        if solution[i] >= m {
            return Err(InvalidMatchingError::InvalidIndex(solution[i]));
        }
        i = i + 1;
    }
    let mut not_matched: HashSet<u8> = HashSet::new();
    let mut x: u8 = 0;
    while x < m
        invariant
            x <= m,
            m == n % 256,
            not_matched@ == Set::new(|y: u8| y < x),
        decreases m - x,
    {
        not_matched.insert(x);
        assert(not_matched@ =~= Set::new(|y: u8| y < x + 1));
        x = x + 1;
    }
    let mut k: usize = 0;
    while k < solution.len()
        invariant
            k <= solution@.len(),
            m == n % 256,
            not_matched@ == unmatched(solution@.take(k as int), m as nat),
        decreases solution.len() - k,
    {
        let ghost before = solution@.take(k as int);
        not_matched.remove(&solution[k]);
        proof {
            let after = solution@.take(k + 1);
            assert(after =~= before.push(solution@[k as int]));
            assert forall|y: u8| after.contains(y) <==> (before.contains(y) || y == solution@[k as int]) by {
                if after.contains(y) {
                    let p = choose|p: int| 0 <= p < after.len() && after[p] == y;
                    if p < k {
                        assert(before[p] == y);
                    }
                }
                if before.contains(y) {
                    let p = choose|p: int| 0 <= p < before.len() && before[p] == y;
                    assert(after[p] == y);
                }
                if y == solution@[k as int] {
                    assert(after[k as int] == y);
                }
            }
            assert(not_matched@ =~= unmatched(after, m as nat));
        }
        k = k + 1;
    }
    assert(solution@.take(solution@.len() as int) =~= solution@);
    if !not_matched.is_empty() {
        return Err(InvalidMatchingError::RightEntriesNotMatched(not_matched));
    }
    assert forall|y: u8| y < m implies solution@.contains(y) by {
        if !solution@.contains(y) {
            assert(not_matched@.contains(y));
        }
    }
    Ok(())
}

/// The number of positions at which an answer agrees with the solution.
pub open spec fn agreeing(answer: Seq<u8>, solution: Seq<u8>, n: nat) -> nat
    decreases n,
{
    if n == 0 {
        0
    } else {
        agreeing(answer, solution, (n - 1) as nat) + if answer[n - 1] == solution[n - 1] {
            1nat
        } else {
            0nat
        }
    }
}

/// The number of entries of the left list that an answer matches correctly;
/// the lists are compared up to the shorter one.
pub fn count_correct(answer: &[u8], solution: &[u8]) -> (n: usize)
    ensures
        n == agreeing(
            answer@,
            solution@,
            if answer@.len() < solution@.len() {
                answer@.len()
            } else {
                solution@.len()
            },
        ),
        n == Set::new(
            |i: int| 0 <= i < answer@.len() && i < solution@.len() && answer@[i] == solution@[i],
        ).len(),
{
    let len = if answer.len() < solution.len() {
        answer.len()
    } else {
        solution.len()
    };
    let mut n: usize = 0;
    let mut i: usize = 0;
    while i < len
        invariant
            i <= len <= answer@.len(),
            len <= solution@.len(),
            n <= i,
            n == agreeing(answer@, solution@, i as nat),
        decreases len - i,
    {
        if answer[i] == solution[i] {
            n = n + 1;
        }
        i = i + 1;
    }
    proof {
        lemma_agreeing_counts_matches(answer@, solution@, len as nat);
        assert(Set::new(|i: int| 0 <= i < len && answer@[i] == solution@[i]) =~= Set::new(
            |i: int| 0 <= i < answer@.len() && i < solution@.len() && answer@[i] == solution@[i],
        ));
    }
    n
}

/// Whether an answer of the right length solves a matching: every entry
/// agrees with the solution.
pub fn is_solved(answer: &[u8], solution: &[u8]) -> (solved: bool)
    requires
        answer@.len() == solution@.len(),
    ensures
        solved == (agreeing(answer@, solution@, solution@.len()) == solution@.len()),
        solved <==> forall|i: int| 0 <= i < solution@.len() ==> answer@[i] == solution@[i],
{
    proof {
        lemma_agreeing_counts_matches(answer@, solution@, solution@.len());
    }
    count_correct(answer, solution) == solution.len()
}

/// The number of correctly matched entries is the number of positions below
/// `n` at which the answer equals the solution; it is at most `n`, and it is
/// `n` exactly when the answer equals the solution at every position below
/// `n`.
pub proof fn lemma_agreeing_counts_matches(answer: Seq<u8>, solution: Seq<u8>, n: nat)
    requires
        n <= answer.len(),
        n <= solution.len(),
    ensures
        Set::new(|i: int| 0 <= i < n && answer[i] == solution[i]).finite(),
        agreeing(answer, solution, n) == Set::new(|i: int| 0 <= i < n && answer[i] == solution[i]).len(),
        agreeing(answer, solution, n) <= n,
        agreeing(answer, solution, n) == n <==> forall|i: int| 0 <= i < n ==> answer[i] == solution[i],
    decreases n,
{
    let here = Set::new(|i: int| 0 <= i < n && answer[i] == solution[i]);
    if n == 0 {
        assert(here =~= Set::<int>::empty());
    } else {
        let m = (n - 1) as nat;
        lemma_agreeing_counts_matches(answer, solution, m);
        let before = Set::new(|i: int| 0 <= i < m && answer[i] == solution[i]);
        assert(!before.contains(m as int));
        if answer[m as int] == solution[m as int] {
            assert(here =~= before.insert(m as int));
        } else {
            assert(here =~= before);
            assert(!(forall|i: int| 0 <= i < n ==> answer[i] == solution[i]));
        }
    }
}

/// An answer that repeats the solution matches every entry.
pub proof fn lemma_solution_solves(solution: Seq<u8>, n: nat)
    requires
        n <= solution.len(),
    ensures
        agreeing(solution, solution, n) == n,
    decreases n,
{
    if n > 0 {
        lemma_solution_solves(solution, (n - 1) as nat);
    }
}

} // verus!
