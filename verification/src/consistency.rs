//! Lemmas on lists of identifiers, and the proofs that every operation
//! leaves a consistent store consistent.

use vstd::prelude::*;
use crate::state::{without, StoreState};

verus! {

/// What is left of a list without `id` holds what the list held, but for
/// `id`.
pub proof fn lemma_without_contains(ids: Seq<u64>, id: u64)
    ensures
        forall|x: u64| #[trigger] without(ids, id).contains(x) <==> ids.contains(x) && x != id,
    decreases ids.len(),
{
    if ids.len() > 0 {
        let front = ids.drop_last();
        lemma_without_contains(front, id);
        assert forall|x: u64| #[trigger] without(ids, id).contains(x) <==> ids.contains(x) && x
            != id by {
            if ids.contains(x) {
                let i = choose|i: int| 0 <= i < ids.len() && ids[i] == x;
                if i < front.len() {
                    assert(front[i] == x);
                    assert(front.contains(x));
                }
            }
            if front.contains(x) {
                let i = choose|i: int| 0 <= i < front.len() && front[i] == x;
                assert(ids[i] == x);
            }
            let kept = without(front, id);
            if ids.last() != id {
                assert(without(ids, id) == kept.push(ids.last()));
                if kept.contains(x) {
                    let i = choose|i: int| 0 <= i < kept.len() && kept[i] == x;
                    assert(kept.push(ids.last())[i] == x);
                }
                if x == ids.last() {
                    assert(kept.push(ids.last())[kept.len() as int] == x);
                    assert(ids[ids.len() - 1] == x);
                }
                if kept.push(ids.last()).contains(x) {
                    let i = choose|i: int|
                        0 <= i < kept.push(ids.last()).len() && kept.push(ids.last())[i] == x;
                    if i < kept.len() {
                        assert(kept[i] == x);
                    }
                }
            }
        }
    }
}

/// Taking `id` out of a list does not make it longer, and makes it shorter
/// where the list held `id`.
pub proof fn lemma_without_len(ids: Seq<u64>, id: u64)
    ensures
        without(ids, id).len() <= ids.len(),
        ids.contains(id) ==> without(ids, id).len() < ids.len(),
    decreases ids.len(),
{
    if ids.len() > 0 {
        let front = ids.drop_last();
        lemma_without_len(front, id);
        if ids.contains(id) && ids.last() != id {
            let i = choose|i: int| 0 <= i < ids.len() && ids[i] == id;
            assert(front[i] == id);
        }
    }
}

/// Taking `id` out of a list that names nothing twice leaves such a list.
pub proof fn lemma_without_no_duplicates(ids: Seq<u64>, id: u64)
    requires
        ids.no_duplicates(),
    ensures
        without(ids, id).no_duplicates(),
    decreases ids.len(),
{
    if ids.len() > 0 {
        let front = ids.drop_last();
        assert(front.no_duplicates());
        lemma_without_no_duplicates(front, id);
        lemma_without_contains(front, id);
        if ids.last() != id {
            let kept = without(front, id);
            if kept.contains(ids.last()) {
                let i = choose|i: int| 0 <= i < front.len() && front[i] == ids.last();
                assert(ids[i] == ids[ids.len() - 1]);
            }
            assert forall|i: int, j: int|
                0 <= i < kept.len() + 1 && 0 <= j < kept.len() + 1 && i != j implies kept.push(
                ids.last(),
            )[i] != kept.push(ids.last())[j] by {
                if i < kept.len() {
                    assert(kept.contains(kept[i]));
                }
                if j < kept.len() {
                    assert(kept.contains(kept[j]));
                }
            }
        }
    }
}

/// Taking the first identifier out of a list that names nothing twice leaves
/// the rest of the list.
pub proof fn lemma_without_first(ids: Seq<u64>)
    requires
        ids.no_duplicates(),
        ids.len() > 0,
    ensures
        without(ids, ids[0]) == ids.drop_first(),
    decreases ids.len(),
{
    let front = ids.drop_last();
    if ids.len() == 1 {
        assert(without(front, ids[0]) =~= Seq::<u64>::empty());
        assert(ids.drop_first() =~= Seq::<u64>::empty());
    } else {
        assert(ids[ids.len() - 1] != ids[0]);
        assert(front.no_duplicates());
        assert(front[0] == ids[0]);
        lemma_without_first(front);
        assert(front.drop_first().push(ids.last()) =~= ids.drop_first());
    }
}

/// Adding an identifier that a list does not hold keeps it free of
/// repetitions.
pub proof fn lemma_push_no_duplicates(ids: Seq<u64>, id: u64)
    requires
        ids.no_duplicates(),
        !ids.contains(id),
    ensures
        ids.push(id).no_duplicates(),
{
    assert forall|i: int, j: int|
        0 <= i < ids.len() + 1 && 0 <= j < ids.len() + 1 && i != j implies ids.push(id)[i]
        != ids.push(id)[j] by {
        if i < ids.len() {
            assert(ids.contains(ids[i]));
        }
        if j < ids.len() {
            assert(ids.contains(ids[j]));
        }
    }
}

/// Creating a course keeps the store consistent.
pub proof fn lemma_add_course_consistent(
    s: StoreState,
    title: Seq<char>,
    description: Seq<char>,
    caller: Seq<char>,
    now: u64,
)
    requires
        s.consistent(),
        s.next_id < u64::MAX,
    ensures
        s.add_course(title, description, caller, now).0.consistent(),
{
    let t = s.add_course(title, description, caller, now).0;
    if t != s {
        let id = s.next_id;
        assert forall|course: u64, lesson: u64| #[trigger] t.lists(course, lesson) implies
            t.lessons.contains_key(lesson) && t.lessons[lesson].course_id == course by {
            if course != id {
                assert(s.lists(course, lesson));
            }
        }
        assert forall|lesson: u64| #[trigger] t.lessons.contains_key(lesson) implies t.lists(
            t.lessons[lesson].course_id,
            lesson,
        ) by {
            assert(s.lists(s.lessons[lesson].course_id, lesson));
        }
    }
}

/// Updating a course keeps the store consistent.
pub proof fn lemma_update_course_consistent(
    s: StoreState,
    id: u64,
    title: Seq<char>,
    description: Seq<char>,
    caller: Seq<char>,
    now: u64,
)
    requires
        s.consistent(),
    ensures
        s.update_course(id, title, description, caller, now).0.consistent(),
{
    let t = s.update_course(id, title, description, caller, now).0;
    if t != s {
        assert forall|course: u64, lesson: u64| #[trigger] t.lists(course, lesson) implies
            t.lessons.contains_key(lesson) && t.lessons[lesson].course_id == course by {
            assert(s.lists(course, lesson));
        }
        assert forall|lesson: u64| #[trigger] t.lessons.contains_key(lesson) implies t.lists(
            t.lessons[lesson].course_id,
            lesson,
        ) by {
            assert(s.lists(s.lessons[lesson].course_id, lesson));
        }
    }
}

/// Deleting a course with its lessons keeps the store consistent.
pub proof fn lemma_delete_course_consistent(s: StoreState, id: u64, caller: Seq<char>)
    requires
        s.consistent(),
    ensures
        s.delete_course(id, caller).0.consistent(),
{
    let t = s.delete_course(id, caller).0;
    if t != s {
        let gone = s.courses[id].lessons;
        assert forall|course: u64, lesson: u64| #[trigger] t.lists(course, lesson) implies
            t.lessons.contains_key(lesson) && t.lessons[lesson].course_id == course by {
            assert(s.lists(course, lesson));
            if gone.contains(lesson) {
                assert(s.lists(id, lesson));
            }
        }
        assert forall|lesson: u64| #[trigger] t.lessons.contains_key(lesson) implies t.lists(
            t.lessons[lesson].course_id,
            lesson,
        ) by {
            assert(s.lists(s.lessons[lesson].course_id, lesson));
        }
    }
}

/// Adding a lesson keeps the store consistent.
pub proof fn lemma_add_lesson_consistent(
    s: StoreState,
    title: Seq<char>,
    content: Seq<char>,
    course_id: u64,
    caller: Seq<char>,
    now: u64,
)
    requires
        s.consistent(),
        s.guard(course_id, caller) is Ok ==> s.next_id < u64::MAX,
    ensures
        s.add_lesson(title, content, course_id, caller, now).0.consistent(),
{
    let t = s.add_lesson(title, content, course_id, caller, now).0;
    if t != s {
        let id = s.next_id;
        let before = s.courses[course_id].lessons;
        let after = before.push(id);
        if before.contains(id) {
            assert(s.lists(course_id, id));
        }
        lemma_push_no_duplicates(before, id);
        assert(after[before.len() as int] == id);
        assert forall|course: u64, lesson: u64| #[trigger] t.lists(course, lesson) implies
            t.lessons.contains_key(lesson) && t.lessons[lesson].course_id == course by {
            if course == course_id {
                let i = choose|i: int| 0 <= i < after.len() && after[i] == lesson;
                if i < before.len() {
                    assert(before[i] == lesson);
                    assert(s.lists(course, lesson));
                }
            } else {
                assert(s.lists(course, lesson));
            }
        }
        assert forall|lesson: u64| #[trigger] t.lessons.contains_key(lesson) implies t.lists(
            t.lessons[lesson].course_id,
            lesson,
        ) by {
            if lesson != id {
                let owner = s.lessons[lesson].course_id;
                assert(s.lists(owner, lesson));
                if owner == course_id {
                    let i = choose|i: int| 0 <= i < before.len() && before[i] == lesson;
                    assert(after[i] == lesson);
                }
            }
        }
    }
}

/// Updating a lesson keeps the store consistent.
pub proof fn lemma_update_lesson_consistent(
    s: StoreState,
    id: u64,
    title: Seq<char>,
    content: Seq<char>,
    caller: Seq<char>,
    now: u64,
)
    requires
        s.consistent(),
    ensures
        s.update_lesson(id, title, content, caller, now).0.consistent(),
{
    let t = s.update_lesson(id, title, content, caller, now).0;
    if t != s {
        assert forall|course: u64, lesson: u64| #[trigger] t.lists(course, lesson) implies
            t.lessons.contains_key(lesson) && t.lessons[lesson].course_id == course by {
            assert(s.lists(course, lesson));
        }
        assert forall|lesson: u64| #[trigger] t.lessons.contains_key(lesson) implies t.lists(
            t.lessons[lesson].course_id,
            lesson,
        ) by {
            assert(s.lists(s.lessons[lesson].course_id, lesson));
        }
    }
}

/// Deleting a lesson keeps the store consistent.
pub proof fn lemma_delete_lesson_consistent(s: StoreState, id: u64, caller: Seq<char>, now: u64)
    requires
        s.consistent(),
    ensures
        s.delete_lesson(id, caller, now).0.consistent(),
{
    let t = s.delete_lesson(id, caller, now).0;
    if s.delete_lesson(id, caller, now).1 is Ok {
        let course_id = s.lessons[id].course_id;
        let before = s.courses[course_id].lessons;
        lemma_without_contains(before, id);
        lemma_without_no_duplicates(before, id);
        assert forall|course: u64, lesson: u64| #[trigger] t.lists(course, lesson) implies
            t.lessons.contains_key(lesson) && t.lessons[lesson].course_id == course by {
            if course == course_id {
                assert(without(before, id).contains(lesson));
            }
            assert(s.lists(course, lesson));
            if lesson == id {
                assert(s.lists(course_id, id));
            }
        }
        assert forall|lesson: u64| #[trigger] t.lessons.contains_key(lesson) implies t.lists(
            t.lessons[lesson].course_id,
            lesson,
        ) by {
            assert(s.lists(s.lessons[lesson].course_id, lesson));
            if s.lessons[lesson].course_id == course_id {
                assert(without(before, id).contains(lesson));
            }
        }
    }
}

/// Deleting the lessons of a course one by one: where the first `done` are
/// gone, deleting the next succeeds and leaves the first `done + 1` gone.
pub proof fn lemma_cascade_step(s: StoreState, id: u64, caller: Seq<char>, now: u64, done: int)
    requires
        s.consistent(),
        s.guard(id, caller) is Ok,
        0 <= done < s.courses[id].lessons.len(),
    ensures
        s.cascaded(id, done, now).delete_lesson(s.courses[id].lessons[done], caller, now) == (
            s.cascaded(id, done + 1, now),
            Ok::<(), crate::error::ErrorView>(()),
        ),
{
    let listed = s.courses[id].lessons;
    let lesson = listed[done];
    let from = s.cascaded(id, done, now);
    let to = s.cascaded(id, done + 1, now);
    let got = from.delete_lesson(lesson, caller, now).0;
    assert(listed.contains(lesson));
    assert(s.lists(id, lesson));
    assert(!listed.take(done).to_set().contains(lesson)) by {
        let sooner = listed.take(done);
        if sooner.contains(lesson) {
            let i = choose|i: int| 0 <= i < sooner.len() && sooner[i] == lesson;
            assert(listed[i] == listed[done]);
        }
    }
    assert(from.lessons.contains_key(lesson));
    assert(from.lessons[lesson] == s.lessons[lesson]);
    assert(from.courses.contains_key(id));
    assert(from.courses[id].creator_principal == caller);
    let rest = from.courses[id].lessons;
    assert(rest =~= listed.skip(done));
    assert(rest.no_duplicates());
    assert(rest[0] == lesson);
    lemma_without_first(rest);
    assert(rest.drop_first() =~= listed.skip(done + 1));
    let sooner = listed.take(done);
    let later = listed.take(done + 1);
    assert(later.to_set() =~= sooner.to_set().insert(lesson)) by {
        assert forall|x: u64|
            later.to_set().contains(x) <==> sooner.to_set().insert(lesson).contains(x) by {
            if later.contains(x) {
                let i = choose|i: int| 0 <= i < later.len() && later[i] == x;
                if i < done {
                    assert(sooner[i] == x);
                }
            }
            if sooner.contains(x) {
                let i = choose|i: int| 0 <= i < sooner.len() && sooner[i] == x;
                assert(later[i] == x);
            }
            if x == lesson {
                assert(later[done] == x);
            }
        }
    }
    if done == 0 {
        assert(listed.take(0).to_set() =~= Set::<u64>::empty());
    }
    assert(got.lessons =~= to.lessons);
    assert(got.courses =~= to.courses);
}

/// Deleting a course: once the lessons of its list are gone one by one, what
/// is left to do is to take the course out.
pub proof fn lemma_cascade_done(s: StoreState, id: u64, caller: Seq<char>, now: u64)
    requires
        s.consistent(),
        s.guard(id, caller) is Ok,
    ensures
        ({
            let last = s.cascaded(id, s.courses[id].lessons.len() as int, now);
            StoreState { courses: last.courses.remove(id), ..last } == s.delete_course(id, caller).0
        }),
{
    let listed = s.courses[id].lessons;
    let last = s.cascaded(id, listed.len() as int, now);
    let got = StoreState { courses: last.courses.remove(id), ..last };
    let want = s.delete_course(id, caller).0;
    assert(listed.take(listed.len() as int) =~= listed);
    if listed.len() == 0 {
        assert(listed.to_set() =~= Set::<u64>::empty());
        assert(s.lessons.remove_keys(listed.to_set()) =~= s.lessons);
    }
    assert(got.lessons =~= want.lessons);
    assert(got.courses =~= want.courses);
}

/// Issuing a certificate keeps the store consistent.
pub proof fn lemma_issue_certificate_consistent(
    s: StoreState,
    user_id: u64,
    course_id: u64,
    caller: Seq<char>,
    now: u64,
)
    requires
        s.consistent(),
        s.guard(course_id, caller) is Ok ==> s.next_id < u64::MAX,
    ensures
        s.issue_certificate(user_id, course_id, caller, now).0.consistent(),
{
    let t = s.issue_certificate(user_id, course_id, caller, now).0;
    if t != s {
        assert forall|course: u64, lesson: u64| #[trigger] t.lists(course, lesson) implies
            t.lessons.contains_key(lesson) && t.lessons[lesson].course_id == course by {
            assert(s.lists(course, lesson));
        }
        assert forall|lesson: u64| #[trigger] t.lessons.contains_key(lesson) implies t.lists(
            t.lessons[lesson].course_id,
            lesson,
        ) by {
            assert(s.lists(s.lessons[lesson].course_id, lesson));
        }
    }
}

/// Registering a user keeps the store consistent.
pub proof fn lemma_register_user_consistent(
    s: StoreState,
    username: Seq<char>,
    public_key: Seq<char>,
)
    requires
        s.consistent(),
        s.next_id < u64::MAX,
    ensures
        s.register_user(username, public_key).0.consistent(),
{
    let t = s.register_user(username, public_key).0;
    if t != s {
        assert forall|course: u64, lesson: u64| #[trigger] t.lists(course, lesson) implies
            t.lessons.contains_key(lesson) && t.lessons[lesson].course_id == course by {
            assert(s.lists(course, lesson));
        }
        assert forall|lesson: u64| #[trigger] t.lessons.contains_key(lesson) implies t.lists(
            t.lessons[lesson].course_id,
            lesson,
        ) by {
            assert(s.lists(s.lessons[lesson].course_id, lesson));
        }
    }
}

/// Deleting a user keeps the store consistent.
pub proof fn lemma_delete_user_consistent(s: StoreState, id: u64)
    requires
        s.consistent(),
    ensures
        s.delete_user(id).0.consistent(),
{
    let t = s.delete_user(id).0;
    if t != s {
        assert forall|course: u64, lesson: u64| #[trigger] t.lists(course, lesson) implies
            t.lessons.contains_key(lesson) && t.lessons[lesson].course_id == course by {
            assert(s.lists(course, lesson));
        }
        assert forall|lesson: u64| #[trigger] t.lessons.contains_key(lesson) implies t.lists(
            t.lessons[lesson].course_id,
            lesson,
        ) by {
            assert(s.lists(s.lessons[lesson].course_id, lesson));
        }
    }
}

} // verus!
