//! A repository, its last release and its pull requests since.

use crate::errors::{Error, ErrorKind, Result};
use crate::pull_list::pr_iterator::{opt_view, PRIterator};
use crate::pull_list::predicate::{default_excluded_login, Predicate};
use crate::pull_list::pull::Pull;
use crate::pull_list::release::{is_first_commit, Release};
use vstd::prelude::*;

verus! {

/// A repository to report on. Its last release and its pull requests are
/// filled in once each; a second attempt changes nothing.
pub struct Repo {
    pub name: String,
    pub last_release: Option<Release>,
    pub pulls: Option<Vec<Pull>>,
    pub base: String,
    pub since: Option<String>,
}

impl Repo {
    /// Where the last release is looked up: the release tagged `since`, or
    /// the latest one.
    pub open spec fn release_url_spec(&self) -> Seq<char> {
        "https://api.github.com/repos/"@ + self.name@ + "/releases/"@ + match self.since {
            Some(t) => "tags/"@ + t@,
            None => "latest"@,
        }
    }

    /// Where the closed pull requests into the base branch are listed.
    pub open spec fn pulls_url_spec(&self) -> Seq<char> {
        "https://api.github.com/repos/"@ + self.name@ + "/pulls?state=closed&base="@ + self.base@
            + "&per_page=100"@
    }

    /// The address to look the last release up at, or none when it is known.
    pub fn release_url(&self) -> (r: Option<String>)
        ensures
            self.last_release is Some ==> r is None,
            self.last_release is None ==> (r matches Some(u) && u@ == self.release_url_spec()),
    {
        if self.last_release.is_some() {
            return None;
        }
        let mut out = String::from_str("https://api.github.com/repos/");
        out.append(self.name.as_str());
        out.append("/releases/");
        match &self.since {
            Some(t) => {
                out.append("tags/");
                out.append(t.as_str());
            },
            None => out.append("latest"),
        }
        Some(out)
    }

    /// Takes in the answer to the release lookup: with status 200 the release
    /// that came back, with 404 (no release yet) the first-commit release;
    /// any other answer is an error. A repository whose last release is known
    /// stays as it is.
    pub fn record_release(&mut self, status: u16, fetched: Option<Release>) -> (r: Result<()>)
        ensures
            old(self).last_release is Some ==> r is Ok && *final(self) == *old(self),
            old(self).last_release is None ==> {
                &&& final(self).name == old(self).name
                &&& final(self).pulls == old(self).pulls
                &&& final(self).base == old(self).base
                &&& final(self).since == old(self).since
                &&& (status == 200 && fetched is Some) ==> r is Ok && final(self).last_release
                    == fetched
                &&& status == 404 ==> (r is Ok && (final(self).last_release matches Some(rel)
                    && is_first_commit(rel)))
                &&& !((status == 200 && fetched is Some) || status == 404) ==> ((r matches Err(e)
                    && e.kind == ErrorKind::Status(status)) && final(self).last_release is None)
            },
    {
        if self.last_release.is_some() {
            return Ok(());
        }
        if status == 200 && fetched.is_some() {
            self.last_release = fetched;
            Ok(())
        } else if status == 404 {
            self.last_release = Some(Release::default());
            Ok(())
        } else {
            Err(Error::from_kind(ErrorKind::Status(status)))
        }
    }

    /// The error of a repository whose last release is not known yet.
    pub open spec fn is_missing_release(e: ErrorKind) -> bool {
        e matches ErrorKind::Missing(m) && m@ == "Repo has no last release; has it been initialized?"@
    }

    /// The filter for pull requests closed after the last release.
    pub fn pull_predicate(&self) -> (r: Result<Predicate>)
        ensures
            self.last_release is None ==> (r matches Err(e) && Self::is_missing_release(e.kind)),
            self.last_release matches Some(rel) ==> (r matches Ok(p) && p.since == Some(
                rel.created_at,
            ) && (p.excluded_login matches Some(l) && l@ == default_excluded_login())),
    {
        match &self.last_release {
            Some(rel) => Predicate::from_release(rel),
            None => Err(
                Error::from_kind(
                    ErrorKind::Missing(
                        String::from_str("Repo has no last release; has it been initialized?"),
                    ),
                ),
            ),
        }
    }

    /// The pager that lists the pull requests to fill in: none when they are
    /// known already (nothing to do), an error when the last release is not
    /// known, else a pager at the list of closed pull requests into the base
    /// branch that keeps those closed after the last release.
    pub fn pull_listing(&self) -> (r: Result<Option<PRIterator>>)
        ensures
            self.pulls is Some ==> r matches Ok(None),
            self.pulls is None && self.last_release is None ==> (r matches Err(e)
                && Self::is_missing_release(e.kind)),
            self.pulls is None && self.last_release is Some ==> (r matches Ok(Some(it)) && {
                &&& it.items@.len() == 0
                &&& opt_view(it.next_link) == Some(self.pulls_url_spec())
                &&& it.predicate matches Some(p) && p.since == Some(
                    self.last_release.unwrap().created_at,
                ) && (p.excluded_login matches Some(l) && l@ == default_excluded_login())
            }),
    {
        if self.pulls.is_some() {
            return Ok(None);
        }
        let pred = match self.pull_predicate() {
            Ok(p) => p,
            Err(e) => {
                return Err(e);
            },
        };
        let url = self.pulls_url();
        Ok(Some(PRIterator::for_addr(url.as_str(), Some(pred))))
    }

    /// The address that lists the closed pull requests into the base branch.
    pub fn pulls_url(&self) -> (r: String)
        ensures
            r@ == self.pulls_url_spec(),
    {
        let mut out = String::from_str("https://api.github.com/repos/");
        out.append(self.name.as_str());
        out.append("/pulls?state=closed&base=");
        out.append(self.base.as_str());
        out.append("&per_page=100");
        out
    }

    /// Takes in the pull requests that passed the filter. An empty list, or
    /// a repository whose pull requests are known, changes nothing.
    pub fn record_pulls(&mut self, pulls: Vec<Pull>)
        ensures
            (old(self).pulls is Some || pulls@.len() == 0) ==> *final(self) == *old(self),
            (old(self).pulls is None && pulls@.len() > 0) ==> {
                &&& final(self).pulls == Some(pulls)
                &&& final(self).name == old(self).name
                &&& final(self).last_release == old(self).last_release
                &&& final(self).base == old(self).base
                &&& final(self).since == old(self).since
            },
    {
        if self.pulls.is_some() || pulls.len() == 0 {
            return;
        }
        self.pulls = Some(pulls);
    }
}

} // verus!
