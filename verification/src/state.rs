//! The store as a mathematical value, and what each operation makes of it.
//!
//! A [`StoreState`] is four maps from identifier to record and the identifier
//! that is handed out next. Each operation of the store has a spec function
//! here that gives the state after it and what it returns; the executable
//! operations are stated against these.

use vstd::prelude::*;
use crate::certificate::Certificate;
use crate::course::{Course, CourseView};
use crate::error::{not_found_text, EntityKind, Error, ErrorView};
use crate::lesson::{Lesson, LessonView};
use crate::record::storable;
use crate::user::{User, UserView};

verus! {

/// A list of identifiers with every occurrence of `id` taken out, the others
/// in their order.
pub open spec fn without(ids: Seq<u64>, id: u64) -> Seq<u64>
    decreases ids.len(),
{
    if ids.len() == 0 {
        ids
    } else if ids.last() == id {
        without(ids.drop_last(), id)
    } else {
        without(ids.drop_last(), id).push(ids.last())
    }
}

/// What an operation returned, with records and texts as mathematical
/// values.
pub open spec fn outcome<T: View>(r: Result<T, Error>) -> Result<T::V, ErrorView> {
    match r {
        Ok(value) => Ok(value@),
        Err(e) => Err(e@),
    }
}

/// The `NotFound` error for a record that was looked up by `id`.
pub open spec fn missing(kind: EntityKind, article: bool, id: u64) -> ErrorView {
    ErrorView::NotFound { msg: not_found_text(kind, article, id) }
}

/// The records of a store and the identifier that it hands out next.
pub ghost struct StoreState {
    pub courses: Map<u64, CourseView>,
    pub lessons: Map<u64, LessonView>,
    pub certificates: Map<u64, Certificate>,
    pub users: Map<u64, UserView>,
    pub next_id: u64,
}

impl StoreState {
    /// The state of a new store.
    pub open spec fn empty() -> StoreState {
        StoreState {
            courses: Map::empty(),
            lessons: Map::empty(),
            certificates: Map::empty(),
            users: Map::empty(),
            next_id: 0,
        }
    }

    /// Whether a record of any kind is stored under `id`.
    pub open spec fn holds(self, id: u64) -> bool {
        self.courses.contains_key(id) || self.lessons.contains_key(id)
            || self.certificates.contains_key(id) || self.users.contains_key(id)
    }

    /// Whether course `course` exists and lists lesson `lesson`.
    pub open spec fn lists(self, course: u64, lesson: u64) -> bool {
        self.courses.contains_key(course) && self.courses[course].lessons.contains(lesson)
    }

    /// Every record is stored under its own identifier, and that identifier
    /// has been handed out.
    pub open spec fn keys_issued(self) -> bool {
        &&& forall|id: u64| #[trigger]
            self.courses.contains_key(id) ==> id < self.next_id && self.courses[id].id == id
        &&& forall|id: u64| #[trigger]
            self.lessons.contains_key(id) ==> id < self.next_id && self.lessons[id].id == id
        &&& forall|id: u64| #[trigger]
            self.certificates.contains_key(id) ==> id < self.next_id && self.certificates[id].id
                == id
        &&& forall|id: u64| #[trigger]
            self.users.contains_key(id) ==> id < self.next_id && self.users[id].id == id
    }

    /// No identifier stands for records of two kinds.
    pub open spec fn kinds_disjoint(self) -> bool {
        &&& forall|id: u64| #[trigger]
            self.courses.contains_key(id) ==> !self.lessons.contains_key(id)
                && !self.certificates.contains_key(id) && !self.users.contains_key(id)
        &&& forall|id: u64| #[trigger]
            self.lessons.contains_key(id) ==> !self.certificates.contains_key(id)
                && !self.users.contains_key(id)
        &&& forall|id: u64| #[trigger]
            self.certificates.contains_key(id) ==> !self.users.contains_key(id)
    }

    /// Every identifier in a course's list is that of a lesson of the course,
    /// and no list names a lesson twice.
    pub open spec fn lists_sound(self) -> bool {
        &&& forall|course: u64, lesson: u64| #[trigger]
            self.lists(course, lesson) ==> self.lessons.contains_key(lesson)
                && self.lessons[lesson].course_id == course
        &&& forall|course: u64| #[trigger]
            self.courses.contains_key(course) ==> self.courses[course].lessons.no_duplicates()
    }

    /// Every lesson belongs to a course that exists and lists it.
    pub open spec fn lessons_owned(self) -> bool {
        forall|lesson: u64| #[trigger]
            self.lessons.contains_key(lesson) ==> self.lists(
                self.lessons[lesson].course_id,
                lesson,
            )
    }

    /// What holds of a store between any two operations.
    pub open spec fn consistent(self) -> bool {
        &&& self.keys_issued()
        &&& self.kinds_disjoint()
        &&& self.lists_sound()
        &&& self.lessons_owned()
    }

    /// Looking up a course.
    pub open spec fn get_course(self, id: u64) -> Result<CourseView, ErrorView> {
        if self.courses.contains_key(id) {
            Ok(self.courses[id])
        } else {
            Err(missing(EntityKind::Course, true, id))
        }
    }

    /// Looking up a lesson.
    pub open spec fn get_lesson(self, id: u64) -> Result<LessonView, ErrorView> {
        if self.lessons.contains_key(id) {
            Ok(self.lessons[id])
        } else {
            Err(missing(EntityKind::Lesson, true, id))
        }
    }

    /// Looking up a certificate.
    pub open spec fn get_certificate(self, id: u64) -> Result<Certificate, ErrorView> {
        if self.certificates.contains_key(id) {
            Ok(self.certificates[id])
        } else {
            Err(missing(EntityKind::Certificate, true, id))
        }
    }

    /// Looking up a user.
    pub open spec fn get_user(self, id: u64) -> Result<UserView, ErrorView> {
        if self.users.contains_key(id) {
            Ok(self.users[id])
        } else {
            Err(missing(EntityKind::User, true, id))
        }
    }

    /// Whether `caller` may change course `id` and what belongs to it: the
    /// course must exist, and the caller must be its creator.
    pub open spec fn guard(self, id: u64, caller: Seq<char>) -> Result<(), ErrorView> {
        if !self.courses.contains_key(id) {
            Err(missing(EntityKind::Course, false, id))
        } else if self.courses[id].creator_principal != caller {
            Err(ErrorView::NotCreator)
        } else {
            Ok(())
        }
    }

    /// The course that `add_course` makes.
    pub open spec fn new_course(
        self,
        title: Seq<char>,
        description: Seq<char>,
        caller: Seq<char>,
        now: u64,
    ) -> CourseView {
        CourseView {
            id: self.next_id,
            creator_principal: caller,
            title,
            description,
            lessons: Seq::empty(),
            created_at: now,
            updated_at: None,
        }
    }

    /// Whether a course can be created: an identifier is left, and the new
    /// course is no larger than a table takes.
    pub open spec fn add_course_ready(
        self,
        title: Seq<char>,
        description: Seq<char>,
        caller: Seq<char>,
        now: u64,
    ) -> bool {
        &&& self.next_id < u64::MAX
        &&& storable::<Course>(self.new_course(title, description, caller, now))
    }

    /// Creating a course.
    pub open spec fn add_course(
        self,
        title: Seq<char>,
        description: Seq<char>,
        caller: Seq<char>,
        now: u64,
    ) -> (StoreState, CourseView) {
        let course = self.new_course(title, description, caller, now);
        (
            StoreState {
                courses: self.courses.insert(course.id, course),
                next_id: (self.next_id + 1) as u64,
                ..self
            },
            course,
        )
    }

    /// Course `id` with a new title and description.
    pub open spec fn updated_course(
        self,
        id: u64,
        title: Seq<char>,
        description: Seq<char>,
        now: u64,
    ) -> CourseView {
        CourseView { title, description, updated_at: Some(now), ..self.courses[id] }
    }

    /// Whether a course can be updated: where the guard lets the caller
    /// pass, the updated course is no larger than a table takes.
    pub open spec fn update_course_ready(
        self,
        id: u64,
        title: Seq<char>,
        description: Seq<char>,
        caller: Seq<char>,
        now: u64,
    ) -> bool {
        self.guard(id, caller) is Ok ==> storable::<Course>(
            self.updated_course(id, title, description, now),
        )
    }

    /// Changing the title and description of a course.
    pub open spec fn update_course(
        self,
        id: u64,
        title: Seq<char>,
        description: Seq<char>,
        caller: Seq<char>,
        now: u64,
    ) -> (StoreState, Result<CourseView, ErrorView>) {
        match self.guard(id, caller) {
            Err(e) => (self, Err(e)),
            Ok(_) => {
                let course = self.updated_course(id, title, description, now);
                (StoreState { courses: self.courses.insert(id, course), ..self }, Ok(course))
            },
        }
    }

    /// Deleting a course together with its lessons.
    pub open spec fn delete_course(self, id: u64, caller: Seq<char>) -> (
        StoreState,
        Result<(), ErrorView>,
    ) {
        match self.guard(id, caller) {
            Err(e) => (self, Err(e)),
            Ok(_) => (
                StoreState {
                    courses: self.courses.remove(id),
                    lessons: self.lessons.remove_keys(self.courses[id].lessons.to_set()),
                    ..self
                },
                Ok(()),
            ),
        }
    }

    /// The state in the middle of deleting course `id`: the first `done`
    /// lessons of its list have been deleted one by one.
    pub open spec fn cascaded(self, id: u64, done: int, now: u64) -> StoreState {
        if done <= 0 {
            self
        } else {
            let listed = self.courses[id].lessons;
            StoreState {
                lessons: self.lessons.remove_keys(listed.take(done).to_set()),
                courses: self.courses.insert(
                    id,
                    CourseView {
                        lessons: listed.skip(done),
                        updated_at: Some(now),
                        ..self.courses[id]
                    },
                ),
                ..self
            }
        }
    }

    /// The lesson that `add_lesson` makes.
    pub open spec fn new_lesson(
        self,
        title: Seq<char>,
        content: Seq<char>,
        course_id: u64,
        now: u64,
    ) -> LessonView {
        LessonView {
            id: self.next_id,
            course_id,
            title,
            content,
            created_at: now,
            updated_at: None,
        }
    }

    /// Course `course_id` with the next identifier at the end of its list.
    pub open spec fn course_with_new_lesson(self, course_id: u64, now: u64) -> CourseView {
        CourseView {
            lessons: self.courses[course_id].lessons.push(self.next_id),
            updated_at: Some(now),
            ..self.courses[course_id]
        }
    }

    /// Whether a lesson can be added: where the guard lets the caller pass,
    /// an identifier is left, and the new lesson and the course with the
    /// longer list are no larger than a table takes.
    pub open spec fn add_lesson_ready(
        self,
        title: Seq<char>,
        content: Seq<char>,
        course_id: u64,
        caller: Seq<char>,
        now: u64,
    ) -> bool {
        self.guard(course_id, caller) is Ok ==> {
            &&& self.next_id < u64::MAX
            &&& storable::<Lesson>(self.new_lesson(title, content, course_id, now))
            &&& storable::<Course>(self.course_with_new_lesson(course_id, now))
        }
    }

    /// Adding a lesson to a course.
    pub open spec fn add_lesson(
        self,
        title: Seq<char>,
        content: Seq<char>,
        course_id: u64,
        caller: Seq<char>,
        now: u64,
    ) -> (StoreState, Result<(), ErrorView>) {
        match self.guard(course_id, caller) {
            Err(e) => (self, Err(e)),
            Ok(_) => {
                let lesson = self.new_lesson(title, content, course_id, now);
                (
                    StoreState {
                        lessons: self.lessons.insert(lesson.id, lesson),
                        courses: self.courses.insert(
                            course_id,
                            self.course_with_new_lesson(course_id, now),
                        ),
                        next_id: (self.next_id + 1) as u64,
                        ..self
                    },
                    Ok(()),
                )
            },
        }
    }

    /// Whether `caller` may change lesson `id`: the lesson must exist, and
    /// then its course must let the caller.
    pub open spec fn lesson_guard(self, id: u64, caller: Seq<char>) -> Result<(), ErrorView> {
        if !self.lessons.contains_key(id) {
            Err(missing(EntityKind::Lesson, false, id))
        } else {
            self.guard(self.lessons[id].course_id, caller)
        }
    }

    /// Lesson `id` with a new title and content.
    pub open spec fn updated_lesson(
        self,
        id: u64,
        title: Seq<char>,
        content: Seq<char>,
        now: u64,
    ) -> LessonView {
        LessonView { title, content, updated_at: Some(now), ..self.lessons[id] }
    }

    /// Whether a lesson can be updated: where the guard lets the caller
    /// pass, the updated lesson is no larger than a table takes.
    pub open spec fn update_lesson_ready(
        self,
        id: u64,
        title: Seq<char>,
        content: Seq<char>,
        caller: Seq<char>,
        now: u64,
    ) -> bool {
        self.lesson_guard(id, caller) is Ok ==> storable::<Lesson>(
            self.updated_lesson(id, title, content, now),
        )
    }

    /// Changing the title and content of a lesson.
    pub open spec fn update_lesson(
        self,
        id: u64,
        title: Seq<char>,
        content: Seq<char>,
        caller: Seq<char>,
        now: u64,
    ) -> (StoreState, Result<LessonView, ErrorView>) {
        match self.lesson_guard(id, caller) {
            Err(e) => (self, Err(e)),
            Ok(_) => {
                let lesson = self.updated_lesson(id, title, content, now);
                (StoreState { lessons: self.lessons.insert(id, lesson), ..self }, Ok(lesson))
            },
        }
    }

    /// Deleting a lesson and taking it off its course's list.
    pub open spec fn delete_lesson(self, id: u64, caller: Seq<char>, now: u64) -> (
        StoreState,
        Result<(), ErrorView>,
    ) {
        match self.lesson_guard(id, caller) {
            Err(e) => (self, Err(e)),
            Ok(_) => {
                let course_id = self.lessons[id].course_id;
                let course = CourseView {
                    lessons: without(self.courses[course_id].lessons, id),
                    updated_at: Some(now),
                    ..self.courses[course_id]
                };
                (
                    StoreState {
                        lessons: self.lessons.remove(id),
                        courses: self.courses.insert(course_id, course),
                        ..self
                    },
                    Ok(()),
                )
            },
        }
    }

    /// Whether a certificate can be issued: where the guard lets the caller
    /// pass, an identifier is left.
    pub open spec fn issue_certificate_ready(self, course_id: u64, caller: Seq<char>) -> bool {
        self.guard(course_id, caller) is Ok ==> self.next_id < u64::MAX
    }

    /// Issuing a certificate for a course to a user.
    pub open spec fn issue_certificate(
        self,
        user_id: u64,
        course_id: u64,
        caller: Seq<char>,
        now: u64,
    ) -> (StoreState, Result<Certificate, ErrorView>) {
        match self.guard(course_id, caller) {
            Err(e) => (self, Err(e)),
            Ok(_) => {
                let certificate = Certificate {
                    id: self.next_id,
                    course_id,
                    user_id,
                    issue_date: now,
                };
                (
                    StoreState {
                        certificates: self.certificates.insert(certificate.id, certificate),
                        next_id: (self.next_id + 1) as u64,
                        ..self
                    },
                    Ok(certificate),
                )
            },
        }
    }

    /// Checking that a certificate exists and was issued to a user.
    pub open spec fn verify_certificate(self, user_id: u64, certificate_id: u64) -> Result<
        bool,
        ErrorView,
    > {
        if self.certificates.contains_key(certificate_id) {
            Ok(self.certificates[certificate_id].user_id == user_id)
        } else {
            Err(missing(EntityKind::Certificate, false, certificate_id))
        }
    }

    /// The user that `register_user` makes.
    pub open spec fn new_user(self, username: Seq<char>, public_key: Seq<char>) -> UserView {
        UserView { id: self.next_id, username, public_key }
    }

    /// Whether a user can be registered: an identifier is left, and the new
    /// user is no larger than a table takes.
    pub open spec fn register_user_ready(self, username: Seq<char>, public_key: Seq<char>) -> bool {
        &&& self.next_id < u64::MAX
        &&& storable::<User>(self.new_user(username, public_key))
    }

    /// Registering a user.
    pub open spec fn register_user(self, username: Seq<char>, public_key: Seq<char>) -> (
        StoreState,
        UserView,
    ) {
        let user = self.new_user(username, public_key);
        (
            StoreState {
                users: self.users.insert(user.id, user),
                next_id: (self.next_id + 1) as u64,
                ..self
            },
            user,
        )
    }

    /// Deleting a user.
    pub open spec fn delete_user(self, id: u64) -> (StoreState, Result<(), ErrorView>) {
        if self.users.contains_key(id) {
            (StoreState { users: self.users.remove(id), ..self }, Ok(()))
        } else {
            (self, Err(missing(EntityKind::User, false, id)))
        }
    }
}

} // verus!
