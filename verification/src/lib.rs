//! A verified record store for courses, lessons, certificates and users.
//!
//! The [`store::Store`] keeps four repositories and one identifier allocator
//! in stable memory. Its operations create, read, update and delete records,
//! let only the creator of a course change the course and its lessons, keep
//! each course's list of lessons in step with the lessons, and delete the
//! lessons of a course with the course.
//!
//! * [`state`] says what each operation does, over maps of records;
//!   [`consistency`] shows that the operations keep a store consistent, and
//!   [`laws`] what follows for callers.
//! * [`store`] holds the operations themselves, [`guard`] the check of the
//!   caller, [`allocator`] the identifiers, [`repository`] the records of one
//!   kind, and [`integrity`] the check that repositories make a store.
//! * [`course`], [`lesson`], [`certificate`] and [`user`] are the records,
//!   [`record`] what they have in common, [`codec`] their bytes, and
//!   [`error`] what operations answer when they refuse.
//! * [`backend`] is the boundary to the stable-memory structures.

pub mod allocator;
pub mod backend;
pub mod certificate;
pub mod codec;
pub mod consistency;
pub mod course;
pub mod error;
pub mod guard;
pub mod integrity;
pub mod laws;
pub mod lesson;
pub mod record;
pub mod repository;
pub mod state;
pub mod store;
pub mod user;
