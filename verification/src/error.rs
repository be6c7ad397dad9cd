//! The errors that operations return, and the texts they carry.

use vstd::prelude::*;
use vstd::string::StringExecFns;

verus! {

/// The four kinds of stored record.
#[derive(Clone, Copy, Debug, PartialEq, Eq, Structural)]
pub enum EntityKind {
    Course,
    Lesson,
    Certificate,
    User,
}

/// Why an operation did not happen.
#[derive(Clone, Debug, PartialEq, Eq)]
pub enum Error {
    /// No record of the wanted kind has the given identifier.
    NotFound { msg: String },
    /// The caller is not the creator of the course concerned.
    NotCreator,
    /// What was handed in is not acceptable. No operation answers this
    /// yet.
    InputValidationFailed { msg: String },
}

/// An [`Error`] with its text as a sequence of characters.
pub ghost enum ErrorView {
    NotFound { msg: Seq<char> },
    NotCreator,
    InputValidationFailed { msg: Seq<char> },
}

impl View for Error {
    type V = ErrorView;

    open spec fn view(&self) -> ErrorView {
        match self {
            Error::NotFound { msg } => ErrorView::NotFound { msg: msg@ },
            Error::NotCreator => ErrorView::NotCreator,
            Error::InputValidationFailed { msg } => ErrorView::InputValidationFailed { msg: msg@ },
        }
    }
}

/// The text of one decimal digit.
pub open spec fn digit_text(d: nat) -> Seq<char> {
    if d == 0 {
        "0"@
    } else if d == 1 {
        "1"@
    } else if d == 2 {
        "2"@
    } else if d == 3 {
        "3"@
    } else if d == 4 {
        "4"@
    } else if d == 5 {
        "5"@
    } else if d == 6 {
        "6"@
    } else if d == 7 {
        "7"@
    } else if d == 8 {
        "8"@
    } else {
        "9"@
    }
}

/// A number in decimal, without leading zeros.
pub open spec fn decimal(n: nat) -> Seq<char>
    decreases n,
{
    if n < 10 {
        digit_text(n)
    } else {
        decimal(n / 10) + digit_text(n % 10)
    }
}

/// The name of a kind of record, as it stands in texts.
pub open spec fn kind_name(kind: EntityKind) -> Seq<char> {
    match kind {
        EntityKind::Course => "course"@,
        EntityKind::Lesson => "lesson"@,
        EntityKind::Certificate => "certificate"@,
        EntityKind::User => "user"@,
    }
}

/// The text of a `NotFound` error: the kind, with "a " before it where
/// `article` is set, and the identifier that was looked for.
pub open spec fn not_found_text(kind: EntityKind, article: bool, id: u64) -> Seq<char> {
    (if article {
        "a "@
    } else {
        Seq::empty()
    }) + kind_name(kind) + " with id="@ + decimal(id as nat) + " not found"@
}

fn digit_str(d: u64) -> (s: &'static str)
    requires
        d < 10,
    ensures
        s@ == digit_text(d as nat),
{
    if d == 0 {
        "0"
    } else if d == 1 {
        "1"
    } else if d == 2 {
        "2"
    } else if d == 3 {
        "3"
    } else if d == 4 {
        "4"
    } else if d == 5 {
        "5"
    } else if d == 6 {
        "6"
    } else if d == 7 {
        "7"
    } else if d == 8 {
        "8"
    } else {
        "9"
    }
}

fn kind_str(kind: EntityKind) -> (s: &'static str)
    ensures
        s@ == kind_name(kind),
{
    match kind {
        EntityKind::Course => "course",
        EntityKind::Lesson => "lesson",
        EntityKind::Certificate => "certificate",
        EntityKind::User => "user",
    }
}

/// Writes a number in decimal.
pub fn decimal_text(n: u64) -> (s: String)
    ensures
        s@ == decimal(n as nat),
    decreases n,
{
    if n < 10 {
        String::from_str(digit_str(n))
    } else {
        let mut s = decimal_text(n / 10);
        s.append(digit_str(n % 10));
        s
    }
}

impl Error {
    /// The error for a record of kind `kind` that identifier `id` did not
    /// lead to.
    pub fn not_found(kind: EntityKind, article: bool, id: u64) -> (e: Error)
        ensures
            e@ == (ErrorView::NotFound { msg: not_found_text(kind, article, id) }),
    {
        let mut msg = if article {
            String::from_str("a ")
        } else {
            String::new()
        };
        msg.append(kind_str(kind));
        msg.append(" with id=");
        let number = decimal_text(id);
        msg.append(number.as_str());
        msg.append(" not found");
        Error::NotFound { msg }
    }
}

} // verus!
