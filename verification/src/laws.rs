//! What follows from the operations' definitions: laws of the store, each
//! proved over [`StoreState`].

use vstd::prelude::*;
use crate::consistency::{
    lemma_add_course_consistent,
    lemma_add_lesson_consistent,
    lemma_delete_course_consistent,
    lemma_delete_lesson_consistent,
    lemma_delete_user_consistent,
    lemma_issue_certificate_consistent,
    lemma_register_user_consistent,
    lemma_update_course_consistent,
    lemma_update_lesson_consistent,
    lemma_without_contains,
};
use crate::error::{EntityKind, ErrorView};
use crate::state::{missing, StoreState};

verus! {

/// One call of a changing operation, with its arguments.
pub ghost enum Action {
    AddCourse { title: Seq<char>, description: Seq<char>, caller: Seq<char>, now: u64 },
    UpdateCourse { id: u64, title: Seq<char>, description: Seq<char>, caller: Seq<char>, now: u64 },
    DeleteCourse { id: u64, caller: Seq<char> },
    AddLesson { title: Seq<char>, content: Seq<char>, course_id: u64, caller: Seq<char>, now: u64 },
    UpdateLesson { id: u64, title: Seq<char>, content: Seq<char>, caller: Seq<char>, now: u64 },
    DeleteLesson { id: u64, caller: Seq<char>, now: u64 },
    IssueCertificate { user_id: u64, course_id: u64, caller: Seq<char>, now: u64 },
    RegisterUser { username: Seq<char>, public_key: Seq<char> },
    DeleteUser { id: u64 },
}

/// The state after an action.
pub open spec fn step(s: StoreState, action: Action) -> StoreState {
    match action {
        Action::AddCourse { title, description, caller, now } => s.add_course(
            title,
            description,
            caller,
            now,
        ).0,
        Action::UpdateCourse { id, title, description, caller, now } => s.update_course(
            id,
            title,
            description,
            caller,
            now,
        ).0,
        Action::DeleteCourse { id, caller } => s.delete_course(id, caller).0,
        Action::AddLesson { title, content, course_id, caller, now } => s.add_lesson(
            title,
            content,
            course_id,
            caller,
            now,
        ).0,
        Action::UpdateLesson { id, title, content, caller, now } => s.update_lesson(
            id,
            title,
            content,
            caller,
            now,
        ).0,
        Action::DeleteLesson { id, caller, now } => s.delete_lesson(id, caller, now).0,
        Action::IssueCertificate { user_id, course_id, caller, now } => s.issue_certificate(
            user_id,
            course_id,
            caller,
            now,
        ).0,
        Action::RegisterUser { username, public_key } => s.register_user(username, public_key).0,
        Action::DeleteUser { id } => s.delete_user(id).0,
    }
}

/// The identifier of the record that an action creates, where it creates
/// one.
pub open spec fn created(s: StoreState, action: Action) -> Option<u64> {
    match action {
        Action::AddCourse { title, description, caller, now } => Some(
            s.add_course(title, description, caller, now).1.id,
        ),
        Action::AddLesson { title, content, course_id, caller, now } => match s.add_lesson(
            title,
            content,
            course_id,
            caller,
            now,
        ).1 {
            Ok(_) => Some(s.next_id),
            Err(_) => None,
        },
        Action::IssueCertificate { user_id, course_id, caller, now } => match s.issue_certificate(
            user_id,
            course_id,
            caller,
            now,
        ).1 {
            Ok(certificate) => Some(certificate.id),
            Err(_) => None,
        },
        Action::RegisterUser { username, public_key } => Some(
            s.register_user(username, public_key).1.id,
        ),
        _ => None,
    }
}

/// The state after a sequence of actions.
pub open spec fn run(s: StoreState, actions: Seq<Action>) -> StoreState
    decreases actions.len(),
{
    if actions.len() == 0 {
        s
    } else {
        step(run(s, actions.drop_last()), actions.last())
    }
}

/// Whether an identifier is left before each action of a sequence.
pub open spec fn ids_last(s: StoreState, actions: Seq<Action>) -> bool {
    forall|i: int|
        0 <= i < actions.len() ==> (#[trigger] run(s, actions.take(i))).next_id < u64::MAX
}

/// An action leaves a consistent store consistent, does not lower the next
/// identifier, and gives the record it creates the identifier that was next.
pub proof fn law_step(s: StoreState, action: Action)
    requires
        s.consistent(),
        s.next_id < u64::MAX,
    ensures
        step(s, action).consistent(),
        s.next_id <= step(s, action).next_id,
        created(s, action) matches Some(id) ==> id == s.next_id && step(s, action).next_id == id
            + 1,
{
    match action {
        Action::AddCourse { title, description, caller, now } => {
            lemma_add_course_consistent(s, title, description, caller, now);
        },
        Action::UpdateCourse { id, title, description, caller, now } => {
            lemma_update_course_consistent(s, id, title, description, caller, now);
        },
        Action::DeleteCourse { id, caller } => {
            lemma_delete_course_consistent(s, id, caller);
        },
        Action::AddLesson { title, content, course_id, caller, now } => {
            lemma_add_lesson_consistent(s, title, content, course_id, caller, now);
        },
        Action::UpdateLesson { id, title, content, caller, now } => {
            lemma_update_lesson_consistent(s, id, title, content, caller, now);
        },
        Action::DeleteLesson { id, caller, now } => {
            lemma_delete_lesson_consistent(s, id, caller, now);
        },
        Action::IssueCertificate { user_id, course_id, caller, now } => {
            lemma_issue_certificate_consistent(s, user_id, course_id, caller, now);
        },
        Action::RegisterUser { username, public_key } => {
            lemma_register_user_consistent(s, username, public_key);
        },
        Action::DeleteUser { id } => {
            lemma_delete_user_consistent(s, id);
        },
    }
}

/// The state after the first `i` actions of a sequence is consistent.
pub proof fn lemma_prefix_consistent(s: StoreState, actions: Seq<Action>, i: int)
    requires
        s.consistent(),
        ids_last(s, actions),
        0 <= i <= actions.len(),
    ensures
        run(s, actions.take(i)).consistent(),
    decreases i,
{
    if i == 0 {
        assert(actions.take(0) =~= Seq::<Action>::empty());
    } else {
        lemma_prefix_consistent(s, actions, i - 1);
        lemma_run_one_more(s, actions, i - 1);
        law_step(run(s, actions.take(i - 1)), actions[i - 1]);
    }
}

/// The state after `i + 1` actions is the state after `i` actions and one
/// more.
pub proof fn lemma_run_one_more(s: StoreState, actions: Seq<Action>, i: int)
    requires
        0 <= i < actions.len(),
    ensures
        run(s, actions.take(i + 1)) == step(run(s, actions.take(i)), actions[i]),
{
    assert(actions.take(i + 1).drop_last() =~= actions.take(i));
    assert(actions.take(i + 1).last() == actions[i]);
}

/// The next identifier never falls along a sequence of actions.
pub proof fn lemma_next_id_rises(s: StoreState, actions: Seq<Action>, i: int, j: int)
    requires
        s.consistent(),
        ids_last(s, actions),
        0 <= i <= j <= actions.len(),
    ensures
        run(s, actions.take(i)).next_id <= run(s, actions.take(j)).next_id,
    decreases j - i,
{
    if i < j {
        lemma_next_id_rises(s, actions, i, j - 1);
        lemma_prefix_consistent(s, actions, j - 1);
        lemma_run_one_more(s, actions, j - 1);
        law_step(run(s, actions.take(j - 1)), actions[j - 1]);
    }
}

/// Every state that a new store reaches is consistent: records stand under
/// their own identifiers, identifiers are unique over all kinds, every
/// listed lesson exists and belongs to the course that lists it, no list
/// names a lesson twice, and every lesson has a course that lists it.
pub proof fn law_reachable_states_are_consistent(actions: Seq<Action>)
    requires
        ids_last(StoreState::empty(), actions),
    ensures
        run(StoreState::empty(), actions).consistent(),
{
    lemma_prefix_consistent(StoreState::empty(), actions, actions.len() as int);
    assert(actions.take(actions.len() as int) =~= actions);
}

/// Identifiers rise: in any sequence of actions, a record created later
/// has a larger identifier than one created earlier, whatever their kinds.
pub proof fn law_identifiers_rise(s: StoreState, actions: Seq<Action>, i: int, j: int)
    requires
        s.consistent(),
        ids_last(s, actions),
        0 <= i < j < actions.len(),
        created(run(s, actions.take(i)), actions[i]) is Some,
        created(run(s, actions.take(j)), actions[j]) is Some,
    ensures
        created(run(s, actions.take(i)), actions[i])->0 < created(
            run(s, actions.take(j)),
            actions[j],
        )->0,
{
    lemma_prefix_consistent(s, actions, i);
    law_step(run(s, actions.take(i)), actions[i]);
    lemma_run_one_more(s, actions, i);
    lemma_next_id_rises(s, actions, i + 1, j);
    lemma_prefix_consistent(s, actions, j);
    law_step(run(s, actions.take(j)), actions[j]);
}

/// A course that is created gets an identifier under which nothing was
/// stored and which no list named, and the caller as its creator; it is
/// then found under that identifier.
pub proof fn law_new_course_is_fresh(
    s: StoreState,
    title: Seq<char>,
    description: Seq<char>,
    caller: Seq<char>,
    now: u64,
)
    requires
        s.consistent(),
        s.next_id < u64::MAX,
    ensures
        ({
            let (after, course) = s.add_course(title, description, caller, now);
            &&& course.id == s.next_id
            &&& !s.holds(course.id)
            &&& forall|other: u64| !s.lists(other, course.id)
            &&& course.creator_principal == caller
            &&& after.get_course(course.id) == Ok::<_, ErrorView>(course)
            &&& course.id < after.next_id
        }),
{
    let id = s.next_id;
    assert forall|other: u64| !s.lists(other, id) by {
        if s.lists(other, id) {
            assert(s.lessons.contains_key(id));
        }
    }
}

/// Whoever is not the creator of a course cannot change it or what belongs
/// to it: updating or deleting the course, adding a lesson to it, updating
/// or deleting one of its lessons, and issuing a certificate for it are all
/// refused with `NotCreator`, and the store stays as it is.
pub proof fn law_only_the_creator_changes(
    s: StoreState,
    course: u64,
    lesson: u64,
    user: u64,
    caller: Seq<char>,
    now: u64,
    title: Seq<char>,
    text: Seq<char>,
)
    requires
        s.courses.contains_key(course),
        s.courses[course].creator_principal != caller,
    ensures
        s.update_course(course, title, text, caller, now) == (
            s,
            Err::<crate::course::CourseView, _>(ErrorView::NotCreator),
        ),
        s.delete_course(course, caller) == (s, Err::<(), _>(ErrorView::NotCreator)),
        s.add_lesson(title, text, course, caller, now) == (s, Err::<(), _>(ErrorView::NotCreator)),
        s.issue_certificate(user, course, caller, now) == (
            s,
            Err::<crate::certificate::Certificate, _>(ErrorView::NotCreator),
        ),
        s.lessons.contains_key(lesson) && s.lessons[lesson].course_id == course ==> {
            &&& s.update_lesson(lesson, title, text, caller, now) == (
                s,
                Err::<crate::lesson::LessonView, _>(ErrorView::NotCreator),
            )
            &&& s.delete_lesson(lesson, caller, now) == (s, Err::<(), _>(ErrorView::NotCreator))
        },
{
}

/// A lesson that is added stands once in its course's list, at the end, and
/// belongs to that course.
pub proof fn law_added_lesson_is_listed_once(
    s: StoreState,
    title: Seq<char>,
    content: Seq<char>,
    course_id: u64,
    caller: Seq<char>,
    now: u64,
)
    requires
        s.consistent(),
        s.next_id < u64::MAX,
        s.guard(course_id, caller) is Ok,
    ensures
        ({
            let after = s.add_lesson(title, content, course_id, caller, now).0;
            let id = s.next_id;
            &&& after.get_course(course_id) is Ok
            &&& after.get_course(course_id)->Ok_0.lessons == s.courses[course_id].lessons.push(id)
            &&& forall|i: int|
                0 <= i < after.courses[course_id].lessons.len() ==> (
                #[trigger] after.courses[course_id].lessons[i] == id <==> i
                    == after.courses[course_id].lessons.len() - 1)
            &&& after.get_lesson(id) is Ok
            &&& after.get_lesson(id)->Ok_0.course_id == course_id
        }),
{
    let after = s.add_lesson(title, content, course_id, caller, now).0;
    let id = s.next_id;
    let before = s.courses[course_id].lessons;
    assert forall|i: int| 0 <= i < before.len() implies before[i] != id by {
        if before[i] == id {
            assert(before.contains(id));
            assert(s.lists(course_id, id));
        }
    }
}

/// A lesson that is deleted is no longer found, and no list names it any
/// more.
pub proof fn law_deleted_lesson_is_gone(s: StoreState, id: u64, caller: Seq<char>, now: u64)
    requires
        s.consistent(),
        s.delete_lesson(id, caller, now).1 is Ok,
    ensures
        ({
            let after = s.delete_lesson(id, caller, now).0;
            let parent = s.lessons[id].course_id;
            &&& after.get_lesson(id) == Err::<crate::lesson::LessonView, _>(
                missing(EntityKind::Lesson, true, id),
            )
            &&& after.courses.contains_key(parent)
            &&& !after.courses[parent].lessons.contains(id)
            &&& forall|course: u64| !after.lists(course, id)
        }),
{
    let after = s.delete_lesson(id, caller, now).0;
    let parent = s.lessons[id].course_id;
    lemma_without_contains(s.courses[parent].lessons, id);
    assert forall|course: u64| !after.lists(course, id) by {
        if after.lists(course, id) && course != parent {
            assert(s.lists(course, id));
        }
    }
}

/// A course that is deleted is no longer found, and neither is any lesson
/// that its list named or that belonged to it.
pub proof fn law_deleted_course_takes_its_lessons(s: StoreState, id: u64, caller: Seq<char>)
    requires
        s.consistent(),
        s.delete_course(id, caller).1 is Ok,
    ensures
        ({
            let after = s.delete_course(id, caller).0;
            &&& after.get_course(id) == Err::<crate::course::CourseView, _>(
                missing(EntityKind::Course, true, id),
            )
            &&& forall|lesson: u64|
                s.courses[id].lessons.contains(lesson) ==> #[trigger] after.get_lesson(lesson)
                    == Err::<crate::lesson::LessonView, _>(
                    missing(EntityKind::Lesson, true, lesson),
                )
            &&& forall|lesson: u64|
                s.lessons.contains_key(lesson) && s.lessons[lesson].course_id == id
                    ==> !#[trigger] after.lessons.contains_key(lesson)
        }),
{
    let after = s.delete_course(id, caller).0;
    assert forall|lesson: u64|
        s.lessons.contains_key(lesson) && s.lessons[lesson].course_id
            == id implies !#[trigger] after.lessons.contains_key(lesson) by {
        assert(s.lists(id, lesson));
    }
}

/// Verifying a certificate answers `true` exactly where the certificate
/// exists and names the user, and `NotFound` exactly where it does not
/// exist, whoever the user is.
pub proof fn law_verify_certificate(s: StoreState, user_id: u64, certificate_id: u64)
    ensures
        s.verify_certificate(user_id, certificate_id) == Ok::<bool, ErrorView>(true) <==> (
        s.certificates.contains_key(certificate_id) && s.certificates[certificate_id].user_id
            == user_id),
        !s.certificates.contains_key(certificate_id) <==> s.verify_certificate(
            user_id,
            certificate_id,
        ) == Err::<bool, _>(missing(EntityKind::Certificate, false, certificate_id)),
{
}

} // verus!
