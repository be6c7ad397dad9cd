//! The store: four repositories and the identifier allocator, and the
//! operations on them.
//!
//! Every operation is stated against the spec function of the same name on
//! [`StoreState`]: the state after it and what it returns are what that
//! function gives for the state before it. The caller's identity and the
//! time are arguments. An operation that is refused changes nothing.
//!
//! An operation that writes needs room: an identifier where it creates a
//! record, and records no larger than a table takes. It asks for that in
//! `requires`, and the function with `_ready` behind the operation's name
//! tells whether it holds.

use vstd::prelude::*;
use crate::allocator::IdAllocator;
use crate::backend::{counter_value, fresh, load, memories, table_entries, Backing};
use crate::certificate::{lemma_certificate_size, Certificate};
use crate::consistency::{
    lemma_add_course_consistent,
    lemma_add_lesson_consistent,
    lemma_cascade_done,
    lemma_cascade_step,
    lemma_delete_course_consistent,
    lemma_delete_lesson_consistent,
    lemma_delete_user_consistent,
    lemma_issue_certificate_consistent,
    lemma_register_user_consistent,
    lemma_update_course_consistent,
    lemma_update_lesson_consistent,
    lemma_without_len,
};
use crate::course::{course_fits, lemma_course_size, Course, CoursePayload};
use crate::error::{EntityKind, Error};
use crate::guard::is_course_creator;
use crate::integrity::is_consistent;
use crate::lesson::{lemma_lesson_size, lesson_fits, Lesson, LessonPayload};
use crate::repository::{holds_records, records, Repository};
use crate::state::{outcome, without, StoreState};
use crate::user::{lemma_user_size, user_fits, User};

verus! {

/// A list of identifiers without `id`.
fn remove_id(ids: &Vec<u64>, id: u64) -> (kept: Vec<u64>)
    ensures
        kept@ == without(ids@, id),
{
    let mut kept: Vec<u64> = Vec::new();
    let mut i: usize = 0;
    while i < ids.len()
        invariant
            i <= ids@.len(),
            kept@ == without(ids@.take(i as int), id),
        decreases ids@.len() - i,
    {
        proof {
            assert(ids@.take(i + 1).drop_last() =~= ids@.take(i as int));
            assert(ids@.take(i + 1).last() == ids@[i as int]);
        }
        if ids[i] != id {
            kept.push(ids[i]);
        }
        i += 1;
    }
    proof {
        assert(ids@.take(i as int) =~= ids@);
    }
    kept
}

/// The courses, lessons, certificates and users of a platform, in stable
/// memory.
pub struct Store {
    ids: IdAllocator,
    courses: Repository<Course>,
    lessons: Repository<Lesson>,
    certificates: Repository<Certificate>,
    users: Repository<User>,
}

impl View for Store {
    type V = StoreState;

    closed spec fn view(&self) -> StoreState {
        StoreState {
            courses: self.courses@,
            lessons: self.lessons@,
            certificates: self.certificates@,
            users: self.users@,
            next_id: self.ids@,
        }
    }
}

/// The allocator and the repositories of a store, taken apart.
pub struct Parts {
    pub ids: IdAllocator,
    pub courses: Repository<Course>,
    pub lessons: Repository<Lesson>,
    pub certificates: Repository<Certificate>,
    pub users: Repository<User>,
}

impl View for Parts {
    type V = StoreState;

    open spec fn view(&self) -> StoreState {
        StoreState {
            courses: self.courses@,
            lessons: self.lessons@,
            certificates: self.certificates@,
            users: self.users@,
            next_id: self.ids@,
        }
    }
}

impl Parts {
    /// Every repository holds records only.
    pub open spec fn stored_well(&self) -> bool {
        &&& self.courses.wf()
        &&& self.lessons.wf()
        &&& self.certificates.wf()
        &&& self.users.wf()
    }
}

/// The state that a counter and four tables hold, each entry of a table
/// read as a record.
pub open spec fn backing_state(b: Backing) -> StoreState {
    StoreState {
        courses: records::<Course>(table_entries(b.courses)),
        lessons: records::<Lesson>(table_entries(b.lessons)),
        certificates: records::<Certificate>(table_entries(b.certificates)),
        users: records::<User>(table_entries(b.users)),
        next_id: counter_value(b.counter),
    }
}

/// Whether a counter and four tables hold a store: every entry is a record
/// of its table's kind, and the state is consistent.
pub open spec fn backing_sound(b: Backing) -> bool {
    &&& holds_records::<Course>(table_entries(b.courses))
    &&& holds_records::<Lesson>(table_entries(b.lessons))
    &&& holds_records::<Certificate>(table_entries(b.certificates))
    &&& holds_records::<User>(table_entries(b.users))
    &&& backing_state(b).consistent()
}

impl Store {
    /// Every repository holds records only.
    pub closed spec fn stored_well(&self) -> bool {
        &&& self.courses.wf()
        &&& self.lessons.wf()
        &&& self.certificates.wf()
        &&& self.users.wf()
    }

    /// What holds of a store between any two operations.
    pub open spec fn wf(&self) -> bool {
        &&& self.stored_well()
        &&& self@.consistent()
    }

    /// An empty store in the default stable memory of the process. The
    /// counter takes virtual memory 0 and the four tables take 2 to 5; what
    /// an earlier store left there is overwritten. Where that memory is one
    /// for the whole process, as in a canister, the process keeps one store:
    /// a second one would write into the memory of the first.
    pub fn new() -> (store: Store)
        ensures
            store.wf(),
            store@ == StoreState::empty(),
    {
        let backing = fresh(memories(0, 2, 3, 4, 5));
        Store {
            ids: IdAllocator::new(backing.counter),
            courses: Repository::new(backing.courses),
            lessons: Repository::new(backing.lessons),
            certificates: Repository::new(backing.certificates),
            users: Repository::new(backing.users),
        }
    }

    /// The store that the default stable memory of the process holds, in
    /// the virtual memories that [`Store::new`] uses: the store as it was
    /// left there, an empty store where nothing was left, and `None` where
    /// what was left is not a consistent store. Where that memory is one
    /// for the whole process, as in a canister, the process keeps one store:
    /// a second one would write into the memory of the first.
    pub fn open() -> (r: Option<Store>)
        ensures
            r matches Some(store) ==> store.wf(),
    {
        Store::adopt(load(memories(0, 2, 3, 4, 5)))
    }

    /// The store that a counter and four tables hold, where they hold one.
    pub fn adopt(backing: Backing) -> (r: Option<Store>)
        ensures
            r is Some <==> backing_sound(backing),
            r matches Some(store) ==> store.wf() && store@ == backing_state(backing),
    {
        let courses = match Repository::adopt(backing.courses) {
            Some(repository) => repository,
            None => return None,
        };
        let lessons = match Repository::adopt(backing.lessons) {
            Some(repository) => repository,
            None => return None,
        };
        let certificates = match Repository::adopt(backing.certificates) {
            Some(repository) => repository,
            None => return None,
        };
        let users = match Repository::adopt(backing.users) {
            Some(repository) => repository,
            None => return None,
        };
        let ids = IdAllocator::new(backing.counter);
        Store::from_parts(Parts { ids, courses, lessons, certificates, users })
    }

    /// Takes a store apart.
    pub fn into_parts(self) -> (parts: Parts)
        requires
            self.stored_well(),
        ensures
            parts.stored_well(),
            parts@ == self@,
    {
        Parts {
            ids: self.ids,
            courses: self.courses,
            lessons: self.lessons,
            certificates: self.certificates,
            users: self.users,
        }
    }

    /// Puts a store together, where the parts make a consistent store.
    pub fn from_parts(parts: Parts) -> (r: Option<Store>)
        requires
            parts.stored_well(),
        ensures
            r is Some <==> parts@.consistent(),
            r matches Some(store) ==> store.wf() && store@ == parts@,
    {
        let store = Store {
            ids: parts.ids,
            courses: parts.courses,
            lessons: parts.lessons,
            certificates: parts.certificates,
            users: parts.users,
        };
        if is_consistent(&store) {
            Some(store)
        } else {
            None
        }
    }

    /// The identifier that the next creation will use.
    pub fn next_id(&self) -> (id: u64)
        ensures
            id == self@.next_id,
    {
        self.ids.peek()
    }

    /// Whether no identifier is left, so that nothing can be created any
    /// more.
    pub fn ids_exhausted(&self) -> (done: bool)
        ensures
            done == (self@.next_id == u64::MAX),
    {
        self.ids.exhausted()
    }

    /// The repository of courses, to read from.
    pub fn courses(&self) -> (r: &Repository<Course>)
        requires
            self.stored_well(),
        ensures
            r.wf(),
            r@ == self@.courses,
    {
        &self.courses
    }

    /// The repository of lessons, to read from.
    pub fn lessons(&self) -> (r: &Repository<Lesson>)
        requires
            self.stored_well(),
        ensures
            r.wf(),
            r@ == self@.lessons,
    {
        &self.lessons
    }

    /// The repository of certificates, to read from.
    pub fn certificates(&self) -> (r: &Repository<Certificate>)
        requires
            self.stored_well(),
        ensures
            r.wf(),
            r@ == self@.certificates,
    {
        &self.certificates
    }

    /// The repository of users, to read from.
    pub fn users(&self) -> (r: &Repository<User>)
        requires
            self.stored_well(),
        ensures
            r.wf(),
            r@ == self@.users,
    {
        &self.users
    }

    /// The course stored under `id`, if there is one.
    pub fn _get_course(&self, id: &u64) -> (found: Option<Course>)
        requires
            self.wf(),
        ensures
            match found {
                Some(course) => self@.courses.contains_key(*id) && course@ == self@.courses[*id],
                None => !self@.courses.contains_key(*id),
            },
    {
        self.courses.get(*id)
    }

    /// The lesson stored under `id`, if there is one.
    pub fn _get_lesson(&self, id: &u64) -> (found: Option<Lesson>)
        requires
            self.wf(),
        ensures
            match found {
                Some(lesson) => self@.lessons.contains_key(*id) && lesson@ == self@.lessons[*id],
                None => !self@.lessons.contains_key(*id),
            },
    {
        self.lessons.get(*id)
    }

    /// The certificate stored under `id`, if there is one.
    pub fn _get_certificate(&self, id: &u64) -> (found: Option<Certificate>)
        requires
            self.wf(),
        ensures
            match found {
                Some(certificate) => self@.certificates.contains_key(*id) && certificate
                    == self@.certificates[*id],
                None => !self@.certificates.contains_key(*id),
            },
    {
        self.certificates.get(*id)
    }

    /// The user stored under `id`, if there is one.
    pub fn _get_user(&self, id: &u64) -> (found: Option<User>)
        requires
            self.wf(),
        ensures
            match found {
                Some(user) => self@.users.contains_key(*id) && user@ == self@.users[*id],
                None => !self@.users.contains_key(*id),
            },
    {
        self.users.get(*id)
    }

    /// Looks a course up.
    pub fn get_course(&self, id: u64) -> (r: Result<Course, Error>)
        requires
            self.wf(),
        ensures
            outcome(r) == self@.get_course(id),
    {
        match self._get_course(&id) {
            Some(course) => Ok(course),
            None => Err(Error::not_found(EntityKind::Course, true, id)),
        }
    }

    /// Tells whether [`Store::add_course`] can be called with these
    /// arguments.
    pub fn add_course_ready(&self, course: &CoursePayload, caller: &str, now: u64) -> (ready: bool)
        ensures
            ready == self@.add_course_ready(course.title@, course.description@, caller@, now),
    {
        proof {
            lemma_course_size(
                self@.new_course(course.title@, course.description@, caller@, now),
            );
        }
        !self.ids.exhausted() && course_fits(
            caller,
            course.title.as_str(),
            course.description.as_str(),
            0,
        )
    }

    /// Creates a course that belongs to `caller`.
    pub fn add_course(&mut self, course: CoursePayload, caller: &str, now: u64) -> (r: Option<
        Course,
    >)
        requires
            old(self).wf(),
            old(self)@.add_course_ready(course.title@, course.description@, caller@, now),
        ensures
            final(self).wf(),
            (r matches Some(created) && (final(self)@, created@) == old(self)@.add_course(
                course.title@,
                course.description@,
                caller@,
                now,
            )),
    {
        proof {
            lemma_add_course_consistent(
                old(self)@,
                course.title@,
                course.description@,
                caller@,
                now,
            );
        }
        let created = Course {
            id: self.ids.next_id(),
            creator_principal: caller.to_owned(),
            title: course.title,
            description: course.description,
            lessons: Vec::new(),
            created_at: now,
            updated_at: None,
        };
        self.courses.put(created.id, &created);
        Some(created)
    }

    /// Tells whether [`Store::update_course`] can be called with these
    /// arguments.
    pub fn update_course_ready(&self, id: u64, payload: &CoursePayload, caller: &str, now: u64) -> (ready:
        bool)
        requires
            self.wf(),
        ensures
            ready == self@.update_course_ready(
                id,
                payload.title@,
                payload.description@,
                caller@,
                now,
            ),
    {
        let course = match self._get_course(&id) {
            Some(course) => course,
            None => return true,
        };
        if is_course_creator(&course, caller).is_err() {
            return true;
        }
        proof {
            lemma_course_size(
                self@.updated_course(id, payload.title@, payload.description@, now),
            );
        }
        course_fits(
            course.creator_principal.as_str(),
            payload.title.as_str(),
            payload.description.as_str(),
            course.lessons.len(),
        )
    }

    /// Gives a course a new title and description.
    pub fn update_course(&mut self, id: u64, payload: CoursePayload, caller: &str, now: u64) -> (r:
        Result<Course, Error>)
        requires
            old(self).wf(),
            old(self)@.update_course_ready(
                id,
                payload.title@,
                payload.description@,
                caller@,
                now,
            ),
        ensures
            final(self).wf(),
            (final(self)@, outcome(r)) == old(self)@.update_course(
                id,
                payload.title@,
                payload.description@,
                caller@,
                now,
            ),
    {
        let course = match self._get_course(&id) {
            Some(course) => course,
            None => return Err(Error::not_found(EntityKind::Course, false, id)),
        };
        match is_course_creator(&course, caller) {
            Ok(_) => {},
            Err(e) => return Err(e),
        }
        let updated = Course {
            id: course.id,
            creator_principal: course.creator_principal,
            title: payload.title,
            description: payload.description,
            lessons: course.lessons,
            created_at: course.created_at,
            updated_at: Some(now),
        };
        proof {
            lemma_update_course_consistent(
                old(self)@,
                id,
                payload.title@,
                payload.description@,
                caller@,
                now,
            );
        }
        self.courses.put(id, &updated);
        Ok(updated)
    }

    /// Deletes a course: first each lesson of its list, as
    /// [`Store::delete_lesson`] does at time `now`, then the course itself.
    pub fn delete_course(&mut self, id: u64, caller: &str, now: u64) -> (r: Result<(), Error>)
        requires
            old(self).wf(),
        ensures
            final(self).wf(),
            (final(self)@, outcome(r)) == old(self)@.delete_course(id, caller@),
    {
        let course = match self._get_course(&id) {
            Some(course) => course,
            None => return Err(Error::not_found(EntityKind::Course, false, id)),
        };
        match is_course_creator(&course, caller) {
            Ok(_) => {},
            Err(e) => return Err(e),
        }
        let mut done: usize = 0;
        while done < course.lessons.len()
            invariant
                old(self).wf(),
                old(self)@.guard(id, caller@) is Ok,
                course.lessons@ == old(self)@.courses[id].lessons,
                done <= course.lessons@.len(),
                self.wf(),
                self@ == old(self)@.cascaded(id, done as int, now),
            decreases course.lessons@.len() - done,
        {
            proof {
                lemma_cascade_step(old(self)@, id, caller@, now, done as int);
            }
            let _ = self.delete_lesson(course.lessons[done], caller, now);
            done += 1;
        }
        proof {
            lemma_cascade_done(old(self)@, id, caller@, now);
            lemma_delete_course_consistent(old(self)@, id, caller@);
        }
        let _ = self.courses.delete(id);
        Ok(())
    }

    /// Looks a lesson up.
    pub fn get_lesson(&self, id: u64) -> (r: Result<Lesson, Error>)
        requires
            self.wf(),
        ensures
            outcome(r) == self@.get_lesson(id),
    {
        match self._get_lesson(&id) {
            Some(lesson) => Ok(lesson),
            None => Err(Error::not_found(EntityKind::Lesson, true, id)),
        }
    }

    /// Tells whether [`Store::add_lesson`] can be called with these
    /// arguments.
    pub fn add_lesson_ready(&self, lesson: &LessonPayload, course_id: u64, caller: &str, now: u64) -> (ready:
        bool)
        requires
            self.wf(),
        ensures
            ready == self@.add_lesson_ready(
                lesson.title@,
                lesson.content@,
                course_id,
                caller@,
                now,
            ),
    {
        let course = match self._get_course(&course_id) {
            Some(course) => course,
            None => return true,
        };
        if is_course_creator(&course, caller).is_err() {
            return true;
        }
        proof {
            lemma_lesson_size(self@.new_lesson(lesson.title@, lesson.content@, course_id, now));
            lemma_course_size(self@.course_with_new_lesson(course_id, now));
        }
        let listed: usize = course.lessons.len();
        !self.ids.exhausted() && lesson_fits(lesson.title.as_str(), lesson.content.as_str())
            && listed < usize::MAX && course_fits(
            course.creator_principal.as_str(),
            course.title.as_str(),
            course.description.as_str(),
            listed + 1,
        )
    }

    /// Creates a lesson and puts it at the end of its course's list.
    pub fn add_lesson(&mut self, lesson: LessonPayload, course_id: u64, caller: &str, now: u64) -> (r:
        Result<(), Error>)
        requires
            old(self).wf(),
            old(self)@.add_lesson_ready(lesson.title@, lesson.content@, course_id, caller@, now),
        ensures
            final(self).wf(),
            (final(self)@, outcome(r)) == old(self)@.add_lesson(
                lesson.title@,
                lesson.content@,
                course_id,
                caller@,
                now,
            ),
    {
        let course = match self._get_course(&course_id) {
            Some(course) => course,
            None => return Err(Error::not_found(EntityKind::Course, false, course_id)),
        };
        match is_course_creator(&course, caller) {
            Ok(_) => {},
            Err(e) => return Err(e),
        }
        proof {
            lemma_add_lesson_consistent(
                old(self)@,
                lesson.title@,
                lesson.content@,
                course_id,
                caller@,
                now,
            );
        }
        let id = self.ids.next_id();
        let created = Lesson {
            id,
            course_id,
            title: lesson.title,
            content: lesson.content,
            created_at: now,
            updated_at: None,
        };
        let mut lessons = course.lessons;
        lessons.push(id);
        let updated = Course {
            id: course.id,
            creator_principal: course.creator_principal,
            title: course.title,
            description: course.description,
            lessons,
            created_at: course.created_at,
            updated_at: Some(now),
        };
        self.lessons.put(id, &created);
        self.courses.put(course_id, &updated);
        Ok(())
    }

    /// Tells whether [`Store::update_lesson`] can be called with these
    /// arguments.
    pub fn update_lesson_ready(&self, id: u64, payload: &LessonPayload, caller: &str, now: u64) -> (ready:
        bool)
        requires
            self.wf(),
        ensures
            ready == self@.update_lesson_ready(
                id,
                payload.title@,
                payload.content@,
                caller@,
                now,
            ),
    {
        let lesson = match self._get_lesson(&id) {
            Some(lesson) => lesson,
            None => return true,
        };
        let course = match self._get_course(&lesson.course_id) {
            Some(course) => course,
            None => return true,
        };
        if is_course_creator(&course, caller).is_err() {
            return true;
        }
        proof {
            lemma_lesson_size(self@.updated_lesson(id, payload.title@, payload.content@, now));
        }
        lesson_fits(payload.title.as_str(), payload.content.as_str())
    }

    /// Gives a lesson a new title and content.
    pub fn update_lesson(&mut self, id: u64, payload: LessonPayload, caller: &str, now: u64) -> (r:
        Result<Lesson, Error>)
        requires
            old(self).wf(),
            old(self)@.update_lesson_ready(id, payload.title@, payload.content@, caller@, now),
        ensures
            final(self).wf(),
            (final(self)@, outcome(r)) == old(self)@.update_lesson(
                id,
                payload.title@,
                payload.content@,
                caller@,
                now,
            ),
    {
        let lesson = match self._get_lesson(&id) {
            Some(lesson) => lesson,
            None => return Err(Error::not_found(EntityKind::Lesson, false, id)),
        };
        let course = match self._get_course(&lesson.course_id) {
            Some(course) => course,
            None => return Err(Error::not_found(EntityKind::Course, false, lesson.course_id)),
        };
        match is_course_creator(&course, caller) {
            Ok(_) => {},
            Err(e) => return Err(e),
        }
        let updated = Lesson {
            id: lesson.id,
            course_id: lesson.course_id,
            title: payload.title,
            content: payload.content,
            created_at: lesson.created_at,
            updated_at: Some(now),
        };
        proof {
            lemma_update_lesson_consistent(
                old(self)@,
                id,
                payload.title@,
                payload.content@,
                caller@,
                now,
            );
        }
        self.lessons.put(id, &updated);
        Ok(updated)
    }

    /// Deletes a lesson and takes it off its course's list.
    pub fn delete_lesson(&mut self, id: u64, caller: &str, now: u64) -> (r: Result<(), Error>)
        requires
            old(self).wf(),
        ensures
            final(self).wf(),
            (final(self)@, outcome(r)) == old(self)@.delete_lesson(id, caller@, now),
    {
        let lesson = match self._get_lesson(&id) {
            Some(lesson) => lesson,
            None => return Err(Error::not_found(EntityKind::Lesson, false, id)),
        };
        let course = match self._get_course(&lesson.course_id) {
            Some(course) => course,
            None => return Err(Error::not_found(EntityKind::Course, false, lesson.course_id)),
        };
        match is_course_creator(&course, caller) {
            Ok(_) => {},
            Err(e) => return Err(e),
        }
        let updated = Course {
            id: course.id,
            creator_principal: course.creator_principal,
            title: course.title,
            description: course.description,
            lessons: remove_id(&course.lessons, id),
            created_at: course.created_at,
            updated_at: Some(now),
        };
        proof {
            self.courses.lemma_stored_is_storable(lesson.course_id);
            lemma_course_size(course@);
            lemma_course_size(updated@);
            lemma_without_len(course.lessons@, id);
            lemma_delete_lesson_consistent(old(self)@, id, caller@, now);
        }
        let _ = self.lessons.delete(id);
        self.courses.put(lesson.course_id, &updated);
        Ok(())
    }

    /// Looks a certificate up.
    pub fn get_certificate(&self, id: u64) -> (r: Result<Certificate, Error>)
        requires
            self.wf(),
        ensures
            outcome(r) == self@.get_certificate(id),
    {
        match self._get_certificate(&id) {
            Some(certificate) => Ok(certificate),
            None => Err(Error::not_found(EntityKind::Certificate, true, id)),
        }
    }

    /// Tells whether [`Store::issue_certificate`] can be called with these
    /// arguments.
    pub fn issue_certificate_ready(&self, course_id: u64, caller: &str) -> (ready: bool)
        requires
            self.wf(),
        ensures
            ready == self@.issue_certificate_ready(course_id, caller@),
    {
        let course = match self._get_course(&course_id) {
            Some(course) => course,
            None => return true,
        };
        if is_course_creator(&course, caller).is_err() {
            return true;
        }
        !self.ids.exhausted()
    }

    /// Issues a certificate for a course to a user. The caller must be the
    /// creator of the course; nothing is asked of the user.
    pub fn issue_certificate(&mut self, user_id: u64, course_id: u64, caller: &str, now: u64) -> (r:
        Result<Certificate, Error>)
        requires
            old(self).wf(),
            old(self)@.issue_certificate_ready(course_id, caller@),
        ensures
            final(self).wf(),
            (final(self)@, outcome(r)) == old(self)@.issue_certificate(
                user_id,
                course_id,
                caller@,
                now,
            ),
    {
        let course = match self._get_course(&course_id) {
            Some(course) => course,
            None => return Err(Error::not_found(EntityKind::Course, false, course_id)),
        };
        match is_course_creator(&course, caller) {
            Ok(_) => {},
            Err(e) => return Err(e),
        }
        proof {
            lemma_issue_certificate_consistent(old(self)@, user_id, course_id, caller@, now);
        }
        let certificate = Certificate {
            id: self.ids.next_id(),
            course_id,
            user_id,
            issue_date: now,
        };
        proof {
            lemma_certificate_size(certificate);
        }
        self.certificates.put(certificate.id, &certificate);
        Ok(certificate)
    }

    /// Tells whether a certificate was issued to a user.
    pub fn verify_certificate(&self, user_id: u64, certificate_id: u64) -> (r: Result<bool, Error>)
        requires
            self.wf(),
        ensures
            outcome(r) == self@.verify_certificate(user_id, certificate_id),
    {
        match self.certificates.get(certificate_id) {
            Some(certificate) => Ok(certificate.user_id == user_id),
            None => Err(Error::not_found(EntityKind::Certificate, false, certificate_id)),
        }
    }

    /// Looks a user up.
    pub fn get_user(&self, id: u64) -> (r: Result<User, Error>)
        requires
            self.wf(),
        ensures
            outcome(r) == self@.get_user(id),
    {
        match self._get_user(&id) {
            Some(user) => Ok(user),
            None => Err(Error::not_found(EntityKind::User, true, id)),
        }
    }

    /// Tells whether [`Store::register_user`] can be called with these
    /// arguments.
    pub fn register_user_ready(&self, username: &str, public_key: &str) -> (ready: bool)
        ensures
            ready == self@.register_user_ready(username@, public_key@),
    {
        proof {
            lemma_user_size(self@.new_user(username@, public_key@));
        }
        !self.ids.exhausted() && user_fits(username, public_key)
    }

    /// Registers a user.
    pub fn register_user(&mut self, username: String, public_key: String) -> (r: Result<
        User,
        Error,
    >)
        requires
            old(self).wf(),
            old(self)@.register_user_ready(username@, public_key@),
        ensures
            final(self).wf(),
            (r matches Ok(user) && (final(self)@, user@) == old(self)@.register_user(
                username@,
                public_key@,
            )),
    {
        proof {
            lemma_register_user_consistent(old(self)@, username@, public_key@);
        }
        let user = User { id: self.ids.next_id(), username, public_key };
        self.users.put(user.id, &user);
        Ok(user)
    }

    /// Deletes a user. Certificates that name the user stay.
    pub fn delete_user(&mut self, id: u64) -> (r: Result<(), Error>)
        requires
            old(self).wf(),
        ensures
            final(self).wf(),
            (final(self)@, outcome(r)) == old(self)@.delete_user(id),
    {
        match self._get_user(&id) {
            Some(_) => {},
            None => return Err(Error::not_found(EntityKind::User, false, id)),
        }
        proof {
            lemma_delete_user_consistent(old(self)@, id);
        }
        let _ = self.users.delete(id);
        Ok(())
    }
}

} // verus!
