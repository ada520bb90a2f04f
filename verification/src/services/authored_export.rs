//! The export of the definitions a user authored: every definition is keyed
//! by its task or subtask, and two definitions for one key make the export
//! inconsistent rather than silently incomplete.
use vstd::prelude::*;

use std::collections::HashMap;

use crate::schemas::multiple_choice::{bit, lemma_mask_of, mask_of};
use crate::Uuid;

verus! {

broadcast use vstd::std_specs::hash::group_hash_axioms;

/// The stored definitions of an authored task or subtask are missing or
/// inconsistent.
#[derive(PartialEq, Eq, Structural, Clone, Copy, Debug)]
pub struct InconsistentContent;

impl InconsistentContent {
    /// The message of the error; it names neither sources nor users.
    pub fn message(&self) -> (m: String)
        ensures
            m@ == "Authored export has missing or inconsistent subtype records"@,
    {
        String::from_str("Authored export has missing or inconsistent subtype records")
    }
}

/// Add a definition to the export. The definition is stored either way; the
/// export is inconsistent where the key had a definition already.
pub fn insert_unique<T>(map: &mut HashMap<Uuid, T>, id: Uuid, value: T) -> (res: Result<(), InconsistentContent>)
    ensures
        final(map)@ == old(map)@.insert(id, value),
        res is Err <==> old(map)@.contains_key(id),
{
    if map.insert(id, value).is_some() {
        return Err(InconsistentContent);
    }
    Ok(())
}

/// The map after inserting the rows in order, each by its key.
pub open spec fn inserted_all<T>(map: Map<Uuid, T>, rows: Seq<(Uuid, T)>) -> Map<Uuid, T>
    decreases rows.len(),
{
    if rows.len() == 0 {
        map
    } else {
        inserted_all(map, rows.drop_last()).insert(rows.last().0, rows.last().1)
    }
}

/// The position of the first row whose key the map, or an earlier row,
/// already has.
pub open spec fn first_clash<T>(map: Map<Uuid, T>, rows: Seq<(Uuid, T)>) -> Option<nat>
    decreases rows.len(),
{
    if rows.len() == 0 {
        None
    } else {
        match first_clash(map, rows.drop_last()) {
            Some(k) => Some(k),
            None => if inserted_all(map, rows.drop_last()).contains_key(rows.last().0) {
                Some((rows.len() - 1) as nat)
            } else {
                None
            },
        }
    }
}

proof fn lemma_first_clash_stays<T>(map: Map<Uuid, T>, rows: Seq<(Uuid, T)>, n: nat)
    requires
        n <= rows.len(),
        first_clash(map, rows.take(n as int)) is Some,
    ensures
        first_clash(map, rows) == first_clash(map, rows.take(n as int)),
    decreases rows.len() - n,
{
    if n < rows.len() {
        assert(rows.take((n + 1) as int).drop_last() =~= rows.take(n as int));
        lemma_first_clash_stays(map, rows, n + 1);
    } else {
        assert(rows.take(n as int) =~= rows);
    }
}

/// Add the definitions of rows to the export in order, each by its key (the
/// rows of one kind of subtask). Stops at the first row whose key the export
/// already has, after storing it, and reports the export inconsistent.
pub fn insert_all_unique<T>(map: &mut HashMap<Uuid, T>, rows: Vec<(Uuid, T)>) -> (res: Result<(), InconsistentContent>)
    ensures
        match first_clash(old(map)@, rows@) {
            None => res is Ok && final(map)@ == inserted_all(old(map)@, rows@),
            Some(k) => res is Err && final(map)@ == inserted_all(old(map)@, rows@.take((k + 1) as int)),
        },
{
    let ghost start = map@;
    let ghost all = rows@;
    let ghost mut i: int = 0;
    for row in it: rows.into_iter()
        invariant
            it.seq() == all,
            all == rows@,
            start == old(map)@,
            i == it.index(),
            0 <= i <= all.len(),
            first_clash(start, all.take(i as int)) is None,
            map@ == inserted_all(start, all.take(i as int)),
    {
        let (id, value) = row;
        assert(row == all[i as int]);
        let ghost next = all.take(i + 1);
        assert(next.drop_last() =~= all.take(i as int));
        assert(next.last() == all[i]);
        let ghost before = map@;
        if insert_unique(map, id, value).is_err() {
            proof {
                assert(first_clash(start, next) == Some(i as nat));
                lemma_first_clash_stays(start, all, (i + 1) as nat);
            }
            return Err(InconsistentContent);
        }
        proof {
            i = i + 1;
        }
    }
    assert(all.take(all.len() as int) =~= all);
    Ok(())
}

/// The indices `i < n` whose bit is set in the bitmask of the correct
/// answers, in increasing order.
pub open spec fn correct_indices(mask: i64, n: nat) -> Seq<u8>
    decreases n,
{
    if n == 0 {
        seq![]
    } else {
        let before = correct_indices(mask, (n - 1) as nat);
        if bit(mask, (n - 1) as nat) {
            before.push((n - 1) as u8)
        } else {
            before
        }
    }
}

/// The indices of the correct answers of a question with `answers` answers,
/// among the first 64.
pub fn correct_answer_indices(answers: usize, mask: i64) -> (indices: Vec<u8>)
    ensures
        indices@ == correct_indices(mask, if answers < 64 { answers as nat } else { 64 }),
{
    let n: usize = if answers < 64 {
        answers
    } else {
        64
    };
    let mut indices: Vec<u8> = Vec::new();
    let mut i: usize = 0;
    while i < n
        invariant
            i <= n <= 64,
            indices@ == correct_indices(mask, i as nat),
        decreases n - i,
    {
        if mask & (1i64 << i) != 0 {
            indices.push(i as u8);
        }
        i = i + 1;
    }
    indices
}

proof fn lemma_correct_indices_bound(mask: i64, n: nat, x: u8)
    requires
        n <= 64,
        correct_indices(mask, n).contains(x),
    ensures
        x < n,
        bit(mask, x as nat),
    decreases n,
{
    let before = correct_indices(mask, (n - 1) as nat);
    if n > 0 {
        if bit(mask, (n - 1) as nat) && x == (n - 1) as u8 {
        } else {
            assert(before.contains(x)) by {
                if bit(mask, (n - 1) as nat) {
                    let grown = before.push((n - 1) as u8);
                    let k = choose|k: int| 0 <= k < grown.len() && #[trigger] grown[k] == x;
                    assert(k < before.len());
                    assert(before[k] == x);
                }
            }
            lemma_correct_indices_bound(mask, (n - 1) as nat, x);
        }
    }
}

proof fn lemma_correct_indices_complete(mask: i64, n: nat, i: nat)
    requires
        n <= 64,
        i < n,
        bit(mask, i),
    ensures
        correct_indices(mask, n).contains(i as u8),
    decreases n,
{
    let before = correct_indices(mask, (n - 1) as nat);
    if i == n - 1 {
        assert(before.push(i as u8)[before.len() as int] == i as u8);
    } else {
        lemma_correct_indices_complete(mask, (n - 1) as nat, i);
        if bit(mask, (n - 1) as nat) {
            let k = choose|k: int| 0 <= k < before.len() && #[trigger] before[k] == i as u8;
            assert(before.push((n - 1) as u8)[k] == i as u8);
        }
    }
}

/// The export of a question lists exactly the answers that its author
/// flagged correct: for the bitmask stored from the flags of the answers,
/// an index is listed if and only if its answer is flagged.
pub proof fn lemma_export_lists_flagged_answers(flags: Seq<bool>)
    requires
        flags.len() <= 64,
    ensures
        forall|i: int|
            0 <= i < flags.len() ==> (correct_indices(mask_of(flags), flags.len()).contains(#[trigger] (i as u8))
                <==> flags[i]),
        forall|x: u8| #[trigger] correct_indices(mask_of(flags), flags.len()).contains(x) ==> x < flags.len(),
{
    let mask = mask_of(flags);
    let n = flags.len();
    assert forall|i: int| 0 <= i < flags.len() implies (correct_indices(mask, n).contains(#[trigger] (i as u8))
        <==> flags[i]) by {
        lemma_mask_of(flags, i as nat);
        if flags[i] {
            lemma_correct_indices_complete(mask, n, i as nat);
        }
        if correct_indices(mask, n).contains(i as u8) {
            lemma_correct_indices_bound(mask, n, i as u8);
        }
    }
    assert forall|x: u8| #[trigger] correct_indices(mask, n).contains(x) implies x < n by {
        lemma_correct_indices_bound(mask, n, x);
    }
}

} // verus!
