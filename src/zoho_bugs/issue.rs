//! Issues (bugs) of the project-management system.

use crate::text::{str_eq, trim, trimmed};
use crate::zoho_bugs::{
    closed_status, fields_have_client, has_client_field, is_closed_status, CustomField,
    MDCustomFilters, Action,
};
use vstd::prelude::*;

verus! {

/// An issue as the report reads it.
pub struct Issue {
    pub key: String,
    pub title: String,
    /// The classification, such as "Feature(New)", "Enhancement" or "Bug".
    pub classification: String,
    pub status: String,
    pub reported_person: String,
    pub customfields: Option<Vec<CustomField>>,
}

impl MDCustomFilters for Issue {
    open spec fn has_client_spec(&self) -> bool {
        fields_have_client(self.customfields)
    }

    open spec fn is_feature_spec(&self) -> bool {
        self.classification@ == "Feature(New)"@ || self.classification@ == "Enhancement"@
    }

    open spec fn issue_type_spec(&self) -> Seq<char> {
        self.classification@
    }

    open spec fn closed_tag_spec(&self) -> bool {
        is_closed_status(self.status@)
    }

    /// Issues listed by milestone do not carry their milestone back.
    open spec fn milestone_spec(&self) -> Seq<char> {
        Seq::empty()
    }

    fn has_client(&self) -> (r: bool) {
        has_client_field(&self.customfields)
    }

    fn is_feature(&self) -> (r: bool) {
        str_eq(self.classification.as_str(), "Feature(New)") || str_eq(
            self.classification.as_str(),
            "Enhancement",
        )
    }

    fn issue_type(&self) -> (r: String) {
        self.classification.clone()
    }

    fn closed_tag(&self) -> (r: bool) {
        closed_status(self.status.as_str())
    }

    fn milestone(&self) -> (r: String) {
        String::new()
    }
}

/// A milestone of the project: its id and its name.
pub struct Milestone {
    pub id: i64,
    pub name: String,
}

/// The id of the first milestone whose trimmed name is `name`.
pub open spec fn milestone_id(ms: Seq<Milestone>, name: Seq<char>) -> Option<i64>
    decreases ms.len(),
{
    if ms.len() == 0 {
        None
    } else if trimmed(ms[0].name@) == name {
        Some(ms[0].id)
    } else {
        milestone_id(ms.drop_first(), name)
    }
}

/// The ids of the named milestones, in the order of the names; a name that
/// no milestone has is left out.
pub open spec fn milestone_ids(names: Seq<String>, ms: Seq<Milestone>) -> Seq<i64>
    decreases names.len(),
{
    if names.len() == 0 {
        Seq::empty()
    } else {
        let r = milestone_ids(names.drop_last(), ms);
        match milestone_id(ms, names.last()@) {
            Some(id) => r.push(id),
            None => r,
        }
    }
}

/// The closed issues of `s`, in order, as tickets.
pub open spec fn closed_issues(s: Seq<Issue>) -> Seq<Action>
    decreases s.len(),
{
    if s.len() == 0 {
        Seq::empty()
    } else {
        let r = closed_issues(s.drop_last());
        if s.last().closed_tag_spec() {
            r.push(Action::ZIssue(s.last()))
        } else {
            r
        }
    }
}

fn find_milestone(ms: &Vec<Milestone>, name: &str) -> (r: Option<i64>)
    ensures
        r == milestone_id(ms@, name@),
{
    let mut i: usize = 0;
    assert(ms@.subrange(0, ms@.len() as int) == ms@);
    while i < ms.len()
        invariant
            i <= ms@.len(),
            milestone_id(ms@, name@) == milestone_id(ms@.subrange(i as int, ms@.len() as int), name@),
        decreases ms@.len() - i,
    {
        let ghost rest = ms@.subrange(i as int, ms@.len() as int);
        assert(rest.drop_first() == ms@.subrange(i + 1, ms@.len() as int));
        let t = trim(ms[i].name.as_str());
        if str_eq(t.as_str(), name) {
            return Some(ms[i].id);
        }
        i = i + 1;
    }
    None
}

/// The ids of the named milestones among those listed; names that match no
/// trimmed milestone name contribute nothing.
pub fn resolve_milestones(names: &Vec<String>, milestones: &Vec<Milestone>) -> (r: Vec<i64>)
    ensures
        r@ == milestone_ids(names@, milestones@),
{
    let mut out: Vec<i64> = Vec::new();
    let mut i: usize = 0;
    while i < names.len()
        invariant
            i <= names@.len(),
            out@ == milestone_ids(names@.subrange(0, i as int), milestones@),
        decreases names@.len() - i,
    {
        let ghost pre = names@.subrange(0, i + 1);
        assert(pre.drop_last() == names@.subrange(0, i as int));
        match find_milestone(milestones, names[i].as_str()) {
            Some(id) => out.push(id),
            None => {},
        }
        i = i + 1;
    }
    assert(names@.subrange(0, names@.len() as int) == names@);
    out
}

/// The issues of a milestone listing that QA has accepted, as tickets.
pub fn build_list(bugs: Vec<Issue>) -> (r: Vec<Action>)
    ensures
        r@ == closed_issues(bugs@),
{
    let ghost orig = bugs@;
    let n = bugs.len();
    let mut rest = bugs;
    let mut out: Vec<Action> = Vec::new();
    let mut i: usize = 0;
    while rest.len() > 0
        invariant
            n == orig.len(),
            i <= n,
            rest@ == orig.subrange(i as int, n as int),
            out@ == closed_issues(orig.subrange(0, i as int)),
        decreases rest@.len(),
    {
        let issue = rest.remove(0);
        proof {
            let pre = orig.subrange(0, i + 1);
            assert(pre.drop_last() == orig.subrange(0, i as int));
            assert(rest@ == orig.subrange(i + 1, n as int));
        }
        if issue.closed_tag() {
            out.push(Action::ZIssue(issue));
        }
        i = i + 1;
    }
    assert(orig.subrange(0, n as int) == orig);
    out
}

} // verus!
