//! The data of a user across the service: which of the tasks a user created
//! are left empty once their subtasks are gone.
use vstd::prelude::*;

use crate::Uuid;

verus! {

/// The tasks among `created` that no subtask uses, in their order.
pub open spec fn empty_tasks_of(created: Seq<Uuid>, used: Seq<Uuid>) -> Seq<Uuid>
    decreases created.len(),
{
    if created.len() == 0 {
        seq![]
    } else {
        let before = empty_tasks_of(created.drop_last(), used);
        if used.contains(created.last()) {
            before
        } else {
            before.push(created.last())
        }
    }
}

/// The tasks a user created that no subtask uses anymore: these are deleted
/// with the user's data, the others are shared and stay.
pub fn empty_tasks(created: &[Uuid], used: &[Uuid]) -> (empty: Vec<Uuid>)
    ensures
        empty@ == empty_tasks_of(created@, used@),
{
    let mut empty: Vec<Uuid> = Vec::new();
    let mut i: usize = 0;
    while i < created.len()
        invariant
            i <= created@.len(),
            empty@ == empty_tasks_of(created@.take(i as int), used@),
        decreases created.len() - i,
    {
        let t = created[i];
        let mut found = false;
        let mut j: usize = 0;
        while j < used.len()
            invariant
                j <= used@.len(),
                found == exists|k: int| 0 <= k < j && used@[k] == t,
            decreases used.len() - j,
        {
            if used[j] == t {
                found = true;
            }
            j = j + 1;
        }
        proof {
            let next = created@.take(i + 1);
            assert(next.drop_last() =~= created@.take(i as int));
            assert(next.last() == t);
            assert(found == used@.contains(t));
        }
        if !found {
            empty.push(t);
        }
        i = i + 1;
    }
    assert(created@.take(created@.len() as int) =~= created@);
    empty
}

/// Deleting a user's data deletes only tasks that they created and that no
/// subtask uses.
pub proof fn lemma_empty_tasks_are_unused(created: Seq<Uuid>, used: Seq<Uuid>)
    ensures
        forall|t: Uuid| #[trigger] empty_tasks_of(created, used).contains(t) ==> created.contains(t) && !used.contains(t),
    decreases created.len(),
{
    if created.len() > 0 {
        let rest = created.drop_last();
        lemma_empty_tasks_are_unused(rest, used);
        let before = empty_tasks_of(rest, used);
        assert forall|t: Uuid| #[trigger] empty_tasks_of(created, used).contains(t) implies created.contains(t)
            && !used.contains(t) by {
            let e = empty_tasks_of(created, used);
            let k = choose|k: int| 0 <= k < e.len() && e[k] == t;
            if k < before.len() {
                assert(before[k] == t);
                assert(before.contains(t));
                let j = choose|j: int| 0 <= j < rest.len() && rest[j] == t;
                assert(created[j] == t);
            } else {
                assert(t == created.last());
                assert(created[created.len() - 1] == t);
            }
        }
    }
}

} // verus!
