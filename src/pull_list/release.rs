//! Releases of a repository.

use crate::pull_list::pull::{timestamp_text, timestamp_wf, Date, Timestamp};
use vstd::prelude::*;

verus! {

/// A published release.
pub struct Release {
    pub id: Option<u32>,
    pub name: Option<String>,
    pub tag_name: Option<String>,
    pub body: Option<String>,
    pub created_at: Timestamp,
}

/// The moment that stands for "before any release": 2001-01-01 00:00:00.
pub open spec fn first_commit_time() -> Timestamp {
    Timestamp { date: Date { year: 2001, month: 1, day: 1 }, hour: 0, minute: 0, second: 0 }
}

/// The release that a repository without releases is given.
pub open spec fn is_first_commit(r: Release) -> bool {
    &&& r.id is None
    &&& r.name matches Some(n) && n@ == "First Commit"@
    &&& r.tag_name is None
    &&& r.body is None
    &&& r.created_at == first_commit_time()
    &&& timestamp_wf(r.created_at)
}

impl Default for Release {
    fn default() -> (r: Release)
        ensures
            is_first_commit(r),
    {
        Release {
            id: None,
            name: Some(String::from_str("First Commit")),
            tag_name: None,
            body: None,
            created_at: Timestamp {
                date: Date { year: 2001, month: 1, day: 1 },
                hour: 0,
                minute: 0,
                second: 0,
            },
        }
    }
}

impl Release {
    /// `name, published YYYY-MM-DD HH:MM:SS UTC`, with an empty name when the
    /// release has none.
    pub open spec fn describe_spec(&self) -> Seq<char> {
        (match self.name {
            Some(n) => n@,
            None => Seq::empty(),
        }) + ", published "@ + timestamp_text(self.created_at)
    }

    /// `name, published YYYY-MM-DD HH:MM:SS UTC`.
    pub fn describe(&self) -> (r: String)
        ensures
            r@ == self.describe_spec(),
    {
        let mut out = match &self.name {
            Some(n) => n.clone(),
            None => String::new(),
        };
        out.append(", published ");
        let t = self.created_at.text();
        out.append(t.as_str());
        out
    }
}

} // verus!
