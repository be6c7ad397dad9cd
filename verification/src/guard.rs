//! The authorization guard: only the creator of a course may change the
//! course and what belongs to it.

use vstd::prelude::*;
use crate::course::Course;
use crate::error::{Error, ErrorView};

verus! {

/// Lets `caller` pass where it is the creator of `course`, and answers
/// `NotCreator` where it is not.
pub fn is_course_creator(course: &Course, caller: &str) -> (r: Result<(), Error>)
    ensures
        r is Ok <==> course@.creator_principal == caller@,
        r matches Err(e) ==> e@ == ErrorView::NotCreator,
{
    let who = caller.to_owned();
    if course.creator_principal == who {
        Ok(())
    } else {
        Err(Error::NotCreator)
    }
}

} // verus!
