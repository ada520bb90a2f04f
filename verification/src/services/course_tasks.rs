//! Skills: the skills that a course trains, and the skills a challenge
//! names that do not exist.
use vstd::prelude::*;

use crate::text::texts;

verus! {

/// A skill with the courses that train it.
pub struct Skill {
    pub id: String,
    pub courses: Vec<String>,
}

/// The skills, in their order, that list the course among their courses.
pub open spec fn skills_of_course_of(skills: Seq<(Seq<char>, Seq<Seq<char>>)>, course: Seq<char>) -> Seq<Seq<char>>
    decreases skills.len(),
{
    if skills.len() == 0 {
        seq![]
    } else {
        let before = skills_of_course_of(skills.drop_last(), course);
        if skills.last().1.contains(course) {
            before.push(skills.last().0)
        } else {
            before
        }
    }
}

/// The texts of skills.
pub open spec fn skill_views(skills: Seq<Skill>) -> Seq<(Seq<char>, Seq<Seq<char>>)> {
    skills.map_values(|s: Skill| (s.id@, texts(s.courses@)))
}

fn lists(courses: &Vec<String>, course: &str) -> (found: bool)
    ensures
        found == texts(courses@).contains(course@),
{
    let wanted = String::from_str(course);
    let mut i: usize = 0;
    while i < courses.len()
        invariant
            i <= courses.len(),
            wanted@ == course@,
            forall|k: int| 0 <= k < i ==> courses@[k]@ != course@,
        decreases courses.len() - i,
    {
        if courses[i] == wanted {
            assert(texts(courses@)[i as int] == course@);
            return true;
        }
        i = i + 1;
    }
    assert forall|k: int| 0 <= k < texts(courses@).len() implies texts(courses@)[k] != course@ by {
        assert(texts(courses@)[k] == courses@[k]@);
    }
    false
}

/// The skills that a course trains: those that list it among their courses.
pub fn skills_of_course(skills: &Vec<Skill>, course: &str) -> (ids: Vec<String>)
    ensures
        texts(ids@) == skills_of_course_of(skill_views(skills@), course@),
{
    let ghost all = skill_views(skills@);
    let mut ids: Vec<String> = Vec::new();
    let mut i: usize = 0;
    while i < skills.len()
        invariant
            i <= skills.len(),
            all == skill_views(skills@),
            texts(ids@) == skills_of_course_of(all.take(i as int), course@),
        decreases skills.len() - i,
    {
        let ghost before = ids@;
        proof {
            let next = all.take(i + 1);
            assert(next.drop_last() =~= all.take(i as int));
            assert(next.last() == all[i as int]);
            assert(all[i as int] == (skills@[i as int].id@, texts(skills@[i as int].courses@)));
        }
        if lists(&skills[i].courses, course) {
            ids.push(skills[i].id.clone());
            assert(texts(ids@) =~= texts(before).push(skills@[i as int].id@));
        }
        i = i + 1;
    }
    assert(all.take(skills.len() as int) =~= all);
    ids
}

/// The skills named in `skill_ids`, in their order, that are not among the
/// known skills.
pub open spec fn unknown_skills_of(skill_ids: Seq<Seq<char>>, known: Seq<Seq<char>>) -> Seq<Seq<char>>
    decreases skill_ids.len(),
{
    if skill_ids.len() == 0 {
        seq![]
    } else {
        let before = unknown_skills_of(skill_ids.drop_last(), known);
        if known.contains(skill_ids.last()) {
            before
        } else {
            before.push(skill_ids.last())
        }
    }
}

/// The skills that a challenge names and that do not exist; the challenge is
/// refused unless there are none.
pub fn unknown_skills(skill_ids: &Vec<String>, known: &Vec<String>) -> (unknown: Vec<String>)
    ensures
        texts(unknown@) == unknown_skills_of(texts(skill_ids@), texts(known@)),
{
    let ghost ids = texts(skill_ids@);
    let mut unknown: Vec<String> = Vec::new();
    let mut i: usize = 0;
    while i < skill_ids.len()
        invariant
            i <= skill_ids.len(),
            ids == texts(skill_ids@),
            texts(unknown@) == unknown_skills_of(ids.take(i as int), texts(known@)),
        decreases skill_ids.len() - i,
    {
        let ghost before = unknown@;
        proof {
            let next = ids.take(i + 1);
            assert(next.drop_last() =~= ids.take(i as int));
            assert(next.last() == skill_ids@[i as int]@);
        }
        if !lists(known, skill_ids[i].as_str()) {
            unknown.push(skill_ids[i].clone());
            assert(texts(unknown@) =~= texts(before).push(skill_ids@[i as int]@));
        }
        i = i + 1;
    }
    assert(ids.take(skill_ids.len() as int) =~= ids);
    unknown
}

} // verus!
