//! The library's errors.

use crate::text::signed_decimal;
use vstd::prelude::*;

verus! {

/// What went wrong.
pub enum ErrorKind {
    /// Reading or writing a file failed.
    IOError(String),
    /// The project-management API failed.
    ZohoHorrorshow(String),
    /// An HTTP request failed.
    Reqwest(String),
    /// A date could not be parsed.
    Chrono(String),
    /// A server answered with a status other than success.
    Status(u16),
    /// There were no items to compute a statistic over.
    NoItems(String),
    /// Something that had to be known first was not.
    Missing(String),
}

impl ErrorKind {
    /// The message that the error carries.
    pub open spec fn message_spec(&self) -> Seq<char> {
        match self {
            ErrorKind::IOError(m) => m@,
            ErrorKind::ZohoHorrorshow(m) => m@,
            ErrorKind::Reqwest(m) => m@,
            ErrorKind::Chrono(m) => m@,
            ErrorKind::Status(code) => "Server error: "@ + signed_decimal(*code as int),
            ErrorKind::NoItems(what) => "No "@ + what@ + " found for this milestone"@,
            ErrorKind::Missing(m) => m@,
        }
    }

    /// The message that the error carries.
    pub fn message(&self) -> (r: String)
        ensures
            r@ == self.message_spec(),
    {
        match self {
            ErrorKind::IOError(m) => m.clone(),
            ErrorKind::ZohoHorrorshow(m) => m.clone(),
            ErrorKind::Reqwest(m) => m.clone(),
            ErrorKind::Chrono(m) => m.clone(),
            ErrorKind::Status(code) => {
                let mut out = String::from_str("Server error: ");
                crate::text::push_signed_decimal(&mut out, *code as i64);
                out
            },
            ErrorKind::NoItems(what) => {
                let mut out = String::from_str("No ");
                out.append(what.as_str());
                out.append(" found for this milestone");
                out
            },
            ErrorKind::Missing(m) => m.clone(),
        }
    }
}

/// `e` says that there were no `what` to compute a statistic over.
pub open spec fn is_no_items(e: ErrorKind, what: Seq<char>) -> bool {
    e matches ErrorKind::NoItems(w) && w@ == what
}

/// The messages of the two errors for missing items.
pub proof fn lemma_no_items_messages(e: ErrorKind)
    ensures
        is_no_items(e, "issues"@) ==> e.message_spec() == "No issues found for this milestone"@,
        is_no_items(e, "PRs"@) ==> e.message_spec() == "No PRs found for this milestone"@,
{
    reveal_strlit("No ");
    reveal_strlit("issues");
    reveal_strlit("PRs");
    reveal_strlit(" found for this milestone");
    reveal_strlit("No issues found for this milestone");
    reveal_strlit("No PRs found for this milestone");
    if is_no_items(e, "issues"@) {
        assert(e.message_spec() =~= "No issues found for this milestone"@);
    }
    if is_no_items(e, "PRs"@) {
        assert(e.message_spec() =~= "No PRs found for this milestone"@);
    }
}

/// An error of this library.
pub struct Error {
    pub kind: ErrorKind,
}

impl Error {
    pub fn from_kind(kind: ErrorKind) -> (r: Error)
        ensures
            r.kind == kind,
    {
        Error { kind }
    }

    /// The kind of this error.
    pub fn kind(&self) -> (r: &ErrorKind)
        ensures
            *r == self.kind,
    {
        &self.kind
    }
}

pub type Result<T> = core::result::Result<T, Error>;

} // verus!
