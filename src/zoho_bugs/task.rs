//! Tasks of the project-management system.

use crate::text::{str_eq, trim, trimmed, views};
use crate::zoho_bugs::{
    closed_status, fields_have_client, has_client_field, is_closed_status, CustomField,
    MDCustomFilters, Action, contains_string, contains_id,
};
use vstd::prelude::*;

verus! {

/// A task as the report reads it.
pub struct Task {
    pub key: String,
    pub name: String,
    pub status: String,
    pub created_person: String,
    pub custom_fields: Option<Vec<CustomField>>,
    pub tasklist_id: i64,
    /// The id of the tasklist record attached to the task, if one is.
    pub tasklist: Option<i64>,
}

/// The value of the first field labelled "Release Milestone", or the empty
/// string.
pub open spec fn release_milestone(cfs: Seq<CustomField>) -> Seq<char>
    decreases cfs.len(),
{
    if cfs.len() == 0 {
        Seq::empty()
    } else if cfs[0].label_name@ == "Release Milestone"@ {
        cfs[0].value@
    } else {
        release_milestone(cfs.drop_first())
    }
}

impl MDCustomFilters for Task {
    open spec fn has_client_spec(&self) -> bool {
        fields_have_client(self.custom_fields)
    }

    open spec fn is_feature_spec(&self) -> bool {
        true
    }

    open spec fn issue_type_spec(&self) -> Seq<char> {
        "DevelopmentTask"@
    }

    open spec fn closed_tag_spec(&self) -> bool {
        is_closed_status(self.status@)
    }

    open spec fn milestone_spec(&self) -> Seq<char> {
        match self.custom_fields {
            Some(v) => release_milestone(v@),
            None => Seq::empty(),
        }
    }

    fn has_client(&self) -> (r: bool) {
        has_client_field(&self.custom_fields)
    }

    fn is_feature(&self) -> (r: bool) {
        true
    }

    fn issue_type(&self) -> (r: String) {
        String::from_str("DevelopmentTask")
    }

    fn closed_tag(&self) -> (r: bool) {
        closed_status(self.status.as_str())
    }

    fn milestone(&self) -> (r: String) {
        match &self.custom_fields {
            Some(cfs) => {
                let mut i: usize = 0;
                assert(cfs@.subrange(0, cfs@.len() as int) == cfs@);
                assert(self.milestone_spec() == release_milestone(cfs@));
                while i < cfs.len()
                    invariant
                        i <= cfs@.len(),
                        self.milestone_spec() == release_milestone(cfs@),
                        release_milestone(cfs@) == release_milestone(
                            cfs@.subrange(i as int, cfs@.len() as int),
                        ),
                    decreases cfs@.len() - i,
                {
                    let ghost rest = cfs@.subrange(i as int, cfs@.len() as int);
                    assert(rest.drop_first() == cfs@.subrange(i + 1, cfs@.len() as int));
                    if str_eq(cfs[i].label_name.as_str(), "Release Milestone") {
                        assert(rest[0] == cfs@[i as int]);
                        assert(release_milestone(rest) == cfs@[i as int].value@);
                        return cfs[i].value.clone();
                    }
                    i = i + 1;
                }
                String::new()
            },
            None => String::new(),
        }
    }
}

/// A tasklist as task selection reads it: its id and the name of its
/// milestone.
pub struct Tasklist {
    pub id: i64,
    pub milestone_name: String,
}

/// The ids of the tasklists whose trimmed milestone name is one of `names`.
pub open spec fn tasklist_ids(tls: Seq<Tasklist>, names: Seq<String>) -> Seq<i64>
    decreases tls.len(),
{
    if tls.len() == 0 {
        Seq::empty()
    } else {
        let r = tasklist_ids(tls.drop_last(), names);
        if views(names).contains(trimmed(tls.last().milestone_name@)) {
            r.push(tls.last().id)
        } else {
            r
        }
    }
}

/// A task belongs to the release when QA has accepted it and either its
/// trimmed release milestone is one of `names` or its tasklist is one of
/// `ids`.
pub open spec fn keeps_task(t: Task, names: Seq<String>, ids: Seq<i64>) -> bool {
    t.closed_tag_spec() && (views(names).contains(trimmed(t.milestone_spec())) || ids.contains(
        t.tasklist_id,
    ) || ids.contains(
        match t.tasklist {
            Some(id) => id,
            None => 0,
        },
    ))
}

/// The tasks of `s` that belong to the release, in order, as tickets.
pub open spec fn release_tasks(s: Seq<Task>, names: Seq<String>, ids: Seq<i64>) -> Seq<Action>
    decreases s.len(),
{
    if s.len() == 0 {
        Seq::empty()
    } else {
        let r = release_tasks(s.drop_last(), names, ids);
        if keeps_task(s.last(), names, ids) {
            r.push(Action::ZTask(s.last()))
        } else {
            r
        }
    }
}

/// The ids of the tasklists that belong to the named milestones.
pub fn internal_tasklists(tasklists: &Vec<Tasklist>, milestones: &Vec<String>) -> (r: Vec<i64>)
    ensures
        r@ == tasklist_ids(tasklists@, milestones@),
{
    let mut out: Vec<i64> = Vec::new();
    let mut i: usize = 0;
    while i < tasklists.len()
        invariant
            i <= tasklists@.len(),
            out@ == tasklist_ids(tasklists@.subrange(0, i as int), milestones@),
        decreases tasklists@.len() - i,
    {
        let ghost pre = tasklists@.subrange(0, i + 1);
        assert(pre.drop_last() == tasklists@.subrange(0, i as int));
        let t = trim(tasklists[i].milestone_name.as_str());
        if contains_string(milestones, t.as_str()) {
            out.push(tasklists[i].id);
        }
        i = i + 1;
    }
    assert(tasklists@.subrange(0, tasklists@.len() as int) == tasklists@);
    out
}

/// The tasks that belong to the release of the named milestones, given the
/// internal tasklists and all tasks of the project.
pub fn build_list(tasklists: &Vec<Tasklist>, tasks: Vec<Task>, milestones: &Vec<String>) -> (r:
    Vec<Action>)
    ensures
        r@ == release_tasks(tasks@, milestones@, tasklist_ids(tasklists@, milestones@)),
{
    let tl_ids = internal_tasklists(tasklists, milestones);
    let ghost orig = tasks@;
    let n = tasks.len();
    let mut rest = tasks;
    let mut out: Vec<Action> = Vec::new();
    let mut i: usize = 0;
    while rest.len() > 0
        invariant
            n == orig.len(),
            i <= n,
            rest@ == orig.subrange(i as int, n as int),
            out@ == release_tasks(orig.subrange(0, i as int), milestones@, tl_ids@),
        decreases rest@.len(),
    {
        let t = rest.remove(0);
        proof {
            let pre = orig.subrange(0, i + 1);
            assert(pre.drop_last() == orig.subrange(0, i as int));
            assert(rest@ == orig.subrange(i + 1, n as int));
        }
        let ms = t.milestone();
        let trimmed_ms = trim(ms.as_str());
        let nested = match t.tasklist {
            Some(id) => id,
            None => 0,
        };
        let keep = t.closed_tag() && (contains_string(milestones, trimmed_ms.as_str())
            || contains_id(&tl_ids, t.tasklist_id) || contains_id(&tl_ids, nested));
        if keep {
            out.push(Action::ZTask(t));
        }
        i = i + 1;
    }
    assert(orig.subrange(0, n as int) == orig);
    out
}

} // verus!
