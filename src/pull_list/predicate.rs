//! Which pull requests a report lists.

use crate::errors::Result;
use crate::pull_list::pull::{timestamp_before, Pull, Timestamp};
use crate::pull_list::release::Release;
use crate::text::str_eq;
use vstd::prelude::*;

verus! {

/// Keeps pull requests closed strictly after a moment, if one is set, and
/// not opened by an excluded account, if one is set.
pub struct Predicate {
    pub since: Option<Timestamp>,
    pub excluded_login: Option<String>,
}

/// The account whose pull requests are left out unless another is chosen:
/// the dependency-update bot.
pub open spec fn default_excluded_login() -> Seq<char> {
    "dependabot[bot]"@
}

/// Whether `p` keeps `pull`.
pub open spec fn accepts(p: Predicate, pull: Pull) -> bool {
    (match p.since {
        Some(t) => timestamp_before(t, pull.closed_at),
        None => true,
    }) && match p.excluded_login {
        Some(l) => pull.user.login@ != l@,
        None => true,
    }
}

impl Predicate {
    /// Keeps pull requests closed after `release` was made, leaving out
    /// those of the dependency-update bot.
    pub fn from_release(release: &Release) -> (r: Result<Predicate>)
        ensures
            r matches Ok(p) && p.since == Some(release.created_at) && (p.excluded_login matches Some(
                l,
            ) && l@ == default_excluded_login()),
    {
        Ok(
            Predicate {
                since: Some(release.created_at.copy()),
                excluded_login: Some(String::from_str("dependabot[bot]")),
            },
        )
    }

    /// This predicate with `login` as the excluded account instead.
    pub fn excluding(self, login: Option<String>) -> (r: Predicate)
        ensures
            r.since == self.since,
            r.excluded_login == login,
    {
        Predicate { since: self.since, excluded_login: login }
    }

    /// Whether this predicate keeps `pull`.
    pub fn test(&self, pull: &Pull) -> (r: bool)
        ensures
            r == accepts(*self, *pull),
    {
        let after = match &self.since {
            Some(t) => t.is_before(&pull.closed_at),
            None => true,
        };
        let excluded = match &self.excluded_login {
            Some(l) => str_eq(pull.user.login.as_str(), l.as_str()),
            None => false,
        };
        after && !excluded
    }
}

} // verus!
