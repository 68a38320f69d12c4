//! A filter for issues by label or by status.

use crate::errors::Result;
use crate::text::views;
use crate::zoho_bugs::contains_string;
use crate::zoho_bugs::issue::Issue;
use crate::text::str_eq;
use vstd::prelude::*;

verus! {

/// Keeps issues whose key is one of a set of labels, or whose status is
/// exactly one of the closed statuses as the API spells them.
pub struct Winnower {
    pub issue_labels: Option<Vec<String>>,
}

/// The closed statuses as the API spells them.
pub open spec fn spelled_closed(status: Seq<char>) -> bool {
    status == "Tested on Staging"@ || status == "Tested on Live"@ || status == "Closed"@
}

impl Winnower {
    /// A filter for the given issue labels.
    pub fn from_milestone(issue_labels: Vec<String>) -> (r: Result<Winnower>)
        ensures
            r matches Ok(w) && w.issue_labels == Some(issue_labels),
    {
        Ok(Winnower { issue_labels: Some(issue_labels) })
    }

    /// Whether the filter keeps `issue`.
    pub fn test(&self, issue: &Issue) -> (r: bool)
        ensures
            r == ((match self.issue_labels {
                Some(v) => views(v@).contains(issue.key@),
                None => false,
            }) || spelled_closed(issue.status@)),
    {
        let labelled = match &self.issue_labels {
            Some(v) => contains_string(v, issue.key.as_str()),
            None => false,
        };
        let s = issue.status.as_str();
        labelled || str_eq(s, "Tested on Staging") || str_eq(s, "Tested on Live") || str_eq(
            s,
            "Closed",
        )
    }
}

} // verus!
