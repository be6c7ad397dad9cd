//! Finding out whether what repositories hold is a consistent store.
//!
//! A store that is opened on what the stable memory holds, or put together
//! from repositories, is checked here before any operation works on it.

use vstd::prelude::*;
use crate::course::Course;
use crate::lesson::{Lesson, LessonView};
use crate::record::Record;
use crate::repository::Repository;
use crate::state::StoreState;
use crate::store::Store;

verus! {

/// Whether a list names nothing twice and names lessons of course `course`
/// only.
pub open spec fn list_sound(list: Seq<u64>, course: u64, lessons: Map<u64, LessonView>) -> bool {
    &&& list.no_duplicates()
    &&& forall|i: int|
        0 <= i < list.len() ==> lessons.contains_key(#[trigger] list[i])
            && lessons[list[i]].course_id == course
}

/// Tells whether a list holds `id`.
pub fn has_id(list: &Vec<u64>, id: u64) -> (found: bool)
    ensures
        found == list@.contains(id),
{
    let mut i: usize = 0;
    while i < list.len()
        invariant
            i <= list@.len(),
            forall|k: int| 0 <= k < i ==> list@[k] != id,
        decreases list@.len() - i,
    {
        if list[i] == id {
            return true;
        }
        i += 1;
    }
    false
}

/// Tells whether every record of a repository stands under the identifier
/// that it carries, and that identifier is below `next_id`.
pub fn keys_issued<V: Record>(repository: &Repository<V>, next_id: u64) -> (ok: bool)
    requires
        repository.wf(),
    ensures
        ok == (forall|id: u64| #[trigger]
            repository@.contains_key(id) ==> id < next_id && V::id_of(repository@[id]) == id),
{
    let all = repository.iterate();
    let mut n: usize = 0;
    while n < all.len()
        invariant
            n <= all@.len(),
            forall|i: int|
                0 <= i < all@.len() ==> repository@.contains_key(#[trigger] all@[i].0)
                    && repository@[all@[i].0] == all@[i].1@,
            forall|i: int|
                0 <= i < n ==> (#[trigger] all@[i]).0 < next_id && V::id_of(all@[i].1@)
                    == all@[i].0,
        decreases all@.len() - n,
    {
        if !(all[n].0 < next_id && all[n].1.id() == all[n].0) {
            proof {
                assert(repository@.contains_key(all@[n as int].0));
            }
            return false;
        }
        n += 1;
    }
    proof {
        assert forall|id: u64| #[trigger] repository@.contains_key(id) implies id < next_id
            && V::id_of(repository@[id]) == id by {
            let i = choose|i: int| 0 <= i < all@.len() && #[trigger] all@[i].0 == id;
            assert(all@[i].0 < next_id);
        }
    }
    true
}

/// Tells whether no identifier of the first repository is one of the second.
pub fn disjoint<A: Record, B: Record>(first: &Repository<A>, second: &Repository<B>) -> (ok: bool)
    requires
        first.wf(),
        second.wf(),
    ensures
        ok == (forall|id: u64| #[trigger] first@.contains_key(id) ==> !second@.contains_key(id)),
{
    let all = first.iterate();
    let mut n: usize = 0;
    while n < all.len()
        invariant
            second.wf(),
            n <= all@.len(),
            forall|i: int| 0 <= i < all@.len() ==> first@.contains_key(#[trigger] all@[i].0),
            forall|i: int| 0 <= i < n ==> !second@.contains_key((#[trigger] all@[i]).0),
        decreases all@.len() - n,
    {
        if second.get(all[n].0).is_some() {
            proof {
                assert(first@.contains_key(all@[n as int].0));
            }
            return false;
        }
        n += 1;
    }
    proof {
        assert forall|id: u64| #[trigger] first@.contains_key(id) implies !second@.contains_key(
            id,
        ) by {
            let i = choose|i: int| 0 <= i < all@.len() && #[trigger] all@[i].0 == id;
            assert(!second@.contains_key(all@[i].0));
        }
    }
    true
}

/// Tells whether a list is sound for course `course`.
pub fn is_list_sound(list: &Vec<u64>, course: u64, lessons: &Repository<Lesson>) -> (ok: bool)
    requires
        lessons.wf(),
    ensures
        ok == list_sound(list@, course, lessons@),
{
    let mut i: usize = 0;
    while i < list.len()
        invariant
            lessons.wf(),
            i <= list@.len(),
            forall|a: int, b: int| 0 <= a < b < i ==> list@[a] != list@[b],
            forall|k: int|
                0 <= k < i ==> lessons@.contains_key(#[trigger] list@[k])
                    && lessons@[list@[k]].course_id == course,
        decreases list@.len() - i,
    {
        let belongs = match lessons.get(list[i]) {
            Some(lesson) => lesson.course_id == course,
            None => false,
        };
        if !belongs {
            return false;
        }
        let mut j: usize = 0;
        while j < i
            invariant
                j <= i < list@.len(),
                forall|a: int| 0 <= a < j ==> list@[a] != list@[i as int],
            decreases i - j,
        {
            if list[j] == list[i] {
                return false;
            }
            j += 1;
        }
        i += 1;
    }
    true
}

/// Tells whether every list of a course is sound.
fn lists_sound(courses: &Repository<Course>, lessons: &Repository<Lesson>, Ghost(s): Ghost<
    StoreState,
>) -> (ok: bool)
    requires
        courses.wf(),
        lessons.wf(),
        s.courses == courses@,
        s.lessons == lessons@,
    ensures
        ok == s.lists_sound(),
{
    let all = courses.iterate();
    let mut n: usize = 0;
    while n < all.len()
        invariant
            lessons.wf(),
            s.courses == courses@,
            s.lessons == lessons@,
            n <= all@.len(),
            forall|i: int|
                0 <= i < all@.len() ==> courses@.contains_key(#[trigger] all@[i].0)
                    && courses@[all@[i].0] == all@[i].1@,
            forall|i: int|
                0 <= i < n ==> list_sound((#[trigger] all@[i]).1@.lessons, all@[i].0, lessons@),
        decreases all@.len() - n,
    {
        if !is_list_sound(&all[n].1.lessons, all[n].0, lessons) {
            proof {
                let course = all@[n as int].0;
                let list = all@[n as int].1@.lessons;
                assert(courses@.contains_key(course));
                if s.lists_sound() {
                    assert forall|i: int| 0 <= i < list.len() implies lessons@.contains_key(
                        #[trigger] list[i],
                    ) && lessons@[list[i]].course_id == course by {
                        assert(list.contains(list[i]));
                        assert(s.lists(course, list[i]));
                    }
                }
            }
            return false;
        }
        n += 1;
    }
    proof {
        assert forall|course: u64, lesson: u64| #[trigger] s.lists(course, lesson) implies
            s.lessons.contains_key(lesson) && s.lessons[lesson].course_id == course by {
            let p = choose|p: int| 0 <= p < all@.len() && #[trigger] all@[p].0 == course;
            let list = all@[p].1@.lessons;
            assert(list_sound(list, all@[p].0, lessons@));
            let i = choose|i: int| 0 <= i < list.len() && list[i] == lesson;
            assert(lessons@.contains_key(list[i]));
        }
        assert forall|course: u64| #[trigger] s.courses.contains_key(course) implies
            s.courses[course].lessons.no_duplicates() by {
            let p = choose|p: int| 0 <= p < all@.len() && #[trigger] all@[p].0 == course;
            assert(list_sound(all@[p].1@.lessons, all@[p].0, lessons@));
        }
    }
    true
}

/// Tells whether every lesson has a course that lists it.
fn lessons_owned(courses: &Repository<Course>, lessons: &Repository<Lesson>, Ghost(s): Ghost<
    StoreState,
>) -> (ok: bool)
    requires
        courses.wf(),
        lessons.wf(),
        s.courses == courses@,
        s.lessons == lessons@,
    ensures
        ok == s.lessons_owned(),
{
    let all = lessons.iterate();
    let mut n: usize = 0;
    while n < all.len()
        invariant
            courses.wf(),
            s.courses == courses@,
            s.lessons == lessons@,
            n <= all@.len(),
            forall|i: int|
                0 <= i < all@.len() ==> lessons@.contains_key(#[trigger] all@[i].0)
                    && lessons@[all@[i].0] == all@[i].1@,
            forall|i: int|
                0 <= i < n ==> s.lists((#[trigger] all@[i]).1@.course_id, all@[i].0),
        decreases all@.len() - n,
    {
        let listed = match courses.get(all[n].1.course_id) {
            Some(course) => has_id(&course.lessons, all[n].0),
            None => false,
        };
        if !listed {
            proof {
                assert(lessons@.contains_key(all@[n as int].0));
            }
            return false;
        }
        n += 1;
    }
    proof {
        assert forall|lesson: u64| #[trigger] s.lessons.contains_key(lesson) implies s.lists(
            s.lessons[lesson].course_id,
            lesson,
        ) by {
            let i = choose|i: int| 0 <= i < all@.len() && #[trigger] all@[i].0 == lesson;
            assert(s.lists(all@[i].1@.course_id, all@[i].0));
        }
    }
    true
}

/// Tells whether what a store holds is consistent.
pub fn is_consistent(store: &Store) -> (ok: bool)
    requires
        store.stored_well(),
    ensures
        ok == store@.consistent(),
{
    let next = store.next_id();
    let courses = store.courses();
    let lessons = store.lessons();
    let certificates = store.certificates();
    let users = store.users();
    keys_issued(courses, next) && keys_issued(lessons, next) && keys_issued(certificates, next)
        && keys_issued(users, next) && disjoint(courses, lessons) && disjoint(courses, certificates)
        && disjoint(courses, users) && disjoint(lessons, certificates) && disjoint(lessons, users)
        && disjoint(certificates, users) && lists_sound(courses, lessons, Ghost(store@))
        && lessons_owned(courses, lessons, Ghost(store@))
}

} // verus!
