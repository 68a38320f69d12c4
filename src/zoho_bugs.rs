//! Tickets of the project-management system: the two record shapes (issues
//! and tasks), their common capabilities, and the partition of a list of
//! them into the buckets that a release report shows.

pub mod issue;
pub mod issue_iterator;
pub mod task;
pub mod task_iterator;
pub mod winnower;

use crate::ordering::{
    is_total_preorder, lemma_sort_idempotent, sort_seq, insert_pos,
};
use crate::text::{
    contains, contains_seq, join, join_seq, lemma_seq_le_total, lemma_seq_le_trans, lower_of,
    seq_le, split, split_seq, str_eq, str_le, to_lowercase, trim, trimmed, views, is_ws,
    trim_front,
};
use crate::zoho_bugs::issue::Issue;
use crate::zoho_bugs::task::Task;
use vstd::prelude::*;

verus! {

/// One custom field of a ticket: its label and its value.
pub struct CustomField {
    pub label_name: String,
    pub value: String,
}

impl CustomField {
    pub fn new(label_name: String, value: String) -> (r: CustomField)
        ensures
            r.label_name == label_name,
            r.value == value,
    {
        CustomField { label_name, value }
    }

    /// A field equal to this one.
    pub fn duplicate(&self) -> (r: CustomField)
        ensures
            r == *self,
    {
        CustomField { label_name: self.label_name.clone(), value: self.value.clone() }
    }
}

/// A field label marks the clients who raised a ticket when its lower-case
/// form holds "from a client".
pub open spec fn is_client_label(label: Seq<char>) -> bool {
    contains_seq(lower_of(label), "from a client"@)
}

/// Whether some field of `cfs` is a client field.
pub open spec fn any_client_field(cfs: Seq<CustomField>) -> bool {
    exists|i: int| 0 <= i < cfs.len() && is_client_label(#[trigger] cfs[i].label_name@)
}

/// Whether optional fields hold a client field.
pub open spec fn fields_have_client(cfs: Option<Vec<CustomField>>) -> bool {
    match cfs {
        Some(v) => any_client_field(v@),
        None => false,
    }
}

/// The first client field of `cfs`.
pub open spec fn first_client_field(cfs: Seq<CustomField>) -> Option<CustomField>
    decreases cfs.len(),
{
    if cfs.len() == 0 {
        None
    } else if is_client_label(cfs[0].label_name@) {
        Some(cfs[0])
    } else {
        first_client_field(cfs.drop_first())
    }
}

/// Whether a field label is a client label.
pub fn client_label(label: &str) -> (r: bool)
    ensures
        r == is_client_label(label@),
{
    let lowered = to_lowercase(label);
    contains(lowered.as_str(), "from a client")
}

/// The position of the first client field of `cfs`, if any.
pub fn find_client_field(cfs: &Vec<CustomField>) -> (r: Option<usize>)
    ensures
        match r {
            Some(i) => i < cfs@.len() && first_client_field(cfs@) == Some(cfs@[i as int]),
            None => first_client_field(cfs@) is None,
        },
        r is Some <==> any_client_field(cfs@),
{
    let mut i: usize = 0;
    assert(cfs@.subrange(0, cfs@.len() as int) == cfs@);
    while i < cfs.len()
        invariant
            i <= cfs@.len(),
            first_client_field(cfs@) == first_client_field(cfs@.subrange(i as int, cfs@.len() as int)),
            forall|k: int| 0 <= k < i ==> !is_client_label(#[trigger] cfs@[k].label_name@),
        decreases cfs@.len() - i,
    {
        let ghost rest = cfs@.subrange(i as int, cfs@.len() as int);
        assert(rest.drop_first() == cfs@.subrange(i + 1, cfs@.len() as int));
        if client_label(cfs[i].label_name.as_str()) {
            return Some(i);
        }
        i = i + 1;
    }
    None
}

/// Whether optional fields hold a client field.
pub fn has_client_field(cfs: &Option<Vec<CustomField>>) -> (r: bool)
    ensures
        r == fields_have_client(*cfs),
{
    match cfs {
        Some(v) => find_client_field(v).is_some(),
        None => false,
    }
}

/// The statuses that mark a ticket as accepted by QA, in lower case.
pub open spec fn closed_statuses() -> Seq<Seq<char>> {
    seq!["tested on staging"@, "tested on live"@, "closed"@]
}

/// Whether an already lower-cased status, trimmed, is a closed status.
pub open spec fn is_closed_lowered(lowered: Seq<char>) -> bool {
    closed_statuses().contains(trimmed(lowered))
}

/// Whether a status names QA acceptance, compared without case and without
/// the white space at its ends.
pub open spec fn is_closed_status(status: Seq<char>) -> bool {
    is_closed_lowered(lower_of(status))
}

/// Whether an already lower-cased status, trimmed, is a closed status.
pub fn matches_closed(lowered: &str) -> (r: bool)
    ensures
        r == is_closed_lowered(lowered@),
{
    let t = trim(lowered);
    let r = str_eq(t.as_str(), "tested on staging") || str_eq(t.as_str(), "tested on live")
        || str_eq(t.as_str(), "closed");
    proof {
        let c = closed_statuses();
        if t@ == c[0] || t@ == c[1] || t@ == c[2] {
            if t@ == c[0] {
                assert(c[0] == "tested on staging"@);
            } else if t@ == c[1] {
                assert(c[1] == "tested on live"@);
            } else {
                assert(c[2] == "closed"@);
            }
        }
    }
    r
}

/// Whether a status names QA acceptance.
pub fn closed_status(status: &str) -> (r: bool)
    ensures
        r == is_closed_status(status@),
{
    let lowered = to_lowercase(status);
    matches_closed(lowered.as_str())
}

/// The capabilities that a release report asks of a ticket.
pub trait MDCustomFilters {
    spec fn has_client_spec(&self) -> bool;

    spec fn is_feature_spec(&self) -> bool;

    spec fn issue_type_spec(&self) -> Seq<char>;

    spec fn closed_tag_spec(&self) -> bool;

    spec fn milestone_spec(&self) -> Seq<char>;

    /// Whether a custom field names the clients who raised the ticket.
    fn has_client(&self) -> (r: bool)
        ensures
            r == self.has_client_spec(),
    ;

    /// Whether the ticket is a new feature or an enhancement.
    fn is_feature(&self) -> (r: bool)
        ensures
            r == self.is_feature_spec(),
    ;

    /// The kind of ticket, as the report shows it.
    fn issue_type(&self) -> (r: String)
        ensures
            r@ == self.issue_type_spec(),
    ;

    /// Whether the ticket's status names QA acceptance.
    fn closed_tag(&self) -> (r: bool)
        ensures
            r == self.closed_tag_spec(),
    ;

    /// The release milestone that the ticket names, or the empty string.
    fn milestone(&self) -> (r: String)
        ensures
            r@ == self.milestone_spec(),
    ;
}

/// Characters that a report row leaves out of a ticket's title.
pub open spec fn is_quote(c: char) -> bool {
    c == '`' || c == '\'' || c == '"' || c == '\u{e2}' || c == '\u{20ac}' || c == '\u{2122}'
}

/// `s` without its quote characters.
pub open spec fn strip_quotes_seq(s: Seq<char>) -> Seq<char>
    decreases s.len(),
{
    if s.len() == 0 {
        s
    } else if is_quote(s.last()) {
        strip_quotes_seq(s.drop_last())
    } else {
        strip_quotes_seq(s.drop_last()).push(s.last())
    }
}

/// `s` without its quote characters.
pub fn strip_quotes(s: &str) -> (r: String)
    ensures
        r@ == strip_quotes_seq(s@),
{
    let n = s.unicode_len();
    let mut out = String::new();
    let mut i: usize = 0;
    while i < n
        invariant
            n == s@.len(),
            i <= n,
            out@ == strip_quotes_seq(s@.subrange(0, i as int)),
        decreases n - i,
    {
        let c = s.get_char(i);
        let ghost pre = s@.subrange(0, i + 1);
        assert(pre.drop_last() == s@.subrange(0, i as int));
        if !(c == '`' || c == '\'' || c == '"' || c == '\u{e2}' || c == '\u{20ac}' || c
            == '\u{2122}') {
            assert(s@.subrange(i as int, i + 1) == seq![c]);
            out.append(s.substring_char(i, i + 1));
        }
        i = i + 1;
    }
    assert(s@.subrange(0, n as int) == s@);
    out
}

/// A table row for a ticket: `| [key] title | kind | person |`.
pub open spec fn row(key: Seq<char>, title: Seq<char>, kind: Seq<char>, person: Seq<char>) -> Seq<
    char,
> {
    "| ["@ + key + "] "@ + strip_quotes_seq(title) + " | "@ + kind + " | "@ + person + " |"@
}

/// The table row for a ticket.
pub fn make_row(key: &str, title: &str, kind: &str, person: &str) -> (r: String)
    ensures
        r@ == row(key@, title@, kind@, person@),
{
    let mut out = String::from_str("| [");
    out.append(key);
    out.append("] ");
    let t = strip_quotes(title);
    out.append(t.as_str());
    out.append(" | ");
    out.append(kind);
    out.append(" | ");
    out.append(person);
    out.append(" |");
    out
}

/// A ticket on which a developer may take action: an issue or a task.
pub enum Action {
    ZIssue(Issue),
    ZTask(Task),
}

impl Action {
    pub open spec fn name_spec(&self) -> Seq<char> {
        match self {
            Action::ZIssue(i) => i.title@,
            Action::ZTask(t) => t.name@,
        }
    }

    pub open spec fn has_client_spec(&self) -> bool {
        match self {
            Action::ZIssue(i) => i.has_client_spec(),
            Action::ZTask(t) => t.has_client_spec(),
        }
    }

    pub open spec fn is_feature_spec(&self) -> bool {
        match self {
            Action::ZIssue(i) => i.is_feature_spec(),
            Action::ZTask(t) => t.is_feature_spec(),
        }
    }

    /// The custom fields, with none standing for an empty list.
    pub open spec fn fields_spec(&self) -> Seq<CustomField> {
        let f = match self {
            Action::ZIssue(i) => i.customfields,
            Action::ZTask(t) => t.custom_fields,
        };
        match f {
            Some(v) => v@,
            None => Seq::empty(),
        }
    }

    /// The client names that the first client field lists, split at commas.
    pub open spec fn clients_spec(&self) -> Seq<Seq<char>> {
        match first_client_field(self.fields_spec()) {
            Some(cf) => split_seq(cf.value@, ","@),
            None => Seq::empty(),
        }
    }

    pub open spec fn display_spec(&self) -> Seq<char> {
        match self {
            Action::ZIssue(i) => row(i.key@, i.title@, i.issue_type_spec(), i.reported_person@),
            Action::ZTask(t) => row(t.key@, t.name@, t.issue_type_spec(), t.created_person@),
        }
    }

    /// The ticket's title: an issue's title or a task's name.
    pub fn name(&self) -> (r: String)
        ensures
            r@ == self.name_spec(),
    {
        match self {
            Action::ZIssue(i) => i.title.clone(),
            Action::ZTask(t) => t.name.clone(),
        }
    }

    /// Whether the ticket is a new feature or an enhancement.
    pub fn is_feature(&self) -> (r: bool)
        ensures
            r == self.is_feature_spec(),
    {
        match self {
            Action::ZIssue(i) => i.is_feature(),
            Action::ZTask(t) => t.is_feature(),
        }
    }

    /// Whether a custom field names the clients who raised the ticket.
    pub fn has_client(&self) -> (r: bool)
        ensures
            r == self.has_client_spec(),
    {
        match self {
            Action::ZIssue(i) => i.has_client(),
            Action::ZTask(t) => t.has_client(),
        }
    }

    /// The custom fields of either kind of ticket, as one list.
    pub fn custom_fields(&self) -> (r: Option<Vec<CustomField>>)
        ensures
            r is Some,
            r.unwrap()@ == self.fields_spec(),
    {
        let f = match self {
            Action::ZIssue(i) => &i.customfields,
            Action::ZTask(t) => &t.custom_fields,
        };
        let mut out: Vec<CustomField> = Vec::new();
        if let Some(cfs) = f {
            let mut i: usize = 0;
            while i < cfs.len()
                invariant
                    i <= cfs@.len(),
                    out@ == cfs@.subrange(0, i as int),
                    self.fields_spec() == cfs@,
                decreases cfs@.len() - i,
            {
                out.push(cfs[i].duplicate());
                assert(cfs@.subrange(0, i + 1) == cfs@.subrange(0, i as int).push(cfs@[i as int]));
                i = i + 1;
            }
            assert(cfs@.subrange(0, cfs@.len() as int) == cfs@);
        }
        Some(out)
    }

    /// The ticket as a table row.
    pub fn display(&self) -> (r: String)
        ensures
            r@ == self.display_spec(),
    {
        match self {
            Action::ZIssue(i) => {
                let kind = i.issue_type();
                make_row(i.key.as_str(), i.title.as_str(), kind.as_str(), i.reported_person.as_str())
            },
            Action::ZTask(t) => {
                let kind = t.issue_type();
                make_row(t.key.as_str(), t.name.as_str(), kind.as_str(), t.created_person.as_str())
            },
        }
    }

    /// The client names of a ticket that has a client field.
    pub fn clients(&self) -> (r: Vec<String>)
        ensures
            views(r@) == self.clients_spec(),
    {
        let cfs = self.custom_fields().unwrap();
        match find_client_field(&cfs) {
            Some(i) => {
                proof {
                    reveal_strlit(",");
                }
                split(cfs[i].value.as_str(), ",")
            },
            None => Vec::new(),
        }
    }
}

/// A ticket and the clients who raised or asked for it.
pub struct ClientBug {
    pub clients: Vec<String>,
    pub bug: Action,
}

/// Tickets in the three groups that a report shows: those raised by
/// clients, features, and the others.
pub struct ClassifiedActions {
    pub client_bugs: Vec<ClientBug>,
    pub features: Vec<Action>,
    pub others: Vec<Action>,
}

/// A client ticket as its client names and the ticket.
pub open spec fn bug_views(v: Seq<ClientBug>) -> Seq<(Seq<Seq<char>>, Action)> {
    v.map_values(|c: ClientBug| (views(c.clients@), c.bug))
}

/// The client tickets of `s`, in order, each with its client names.
pub open spec fn client_entries(s: Seq<Action>) -> Seq<(Seq<Seq<char>>, Action)>
    decreases s.len(),
{
    if s.len() == 0 {
        Seq::empty()
    } else {
        let r = client_entries(s.drop_last());
        if s.last().has_client_spec() {
            r.push((s.last().clients_spec(), s.last()))
        } else {
            r
        }
    }
}

/// The tickets of `s`, in order, that have no client and are features.
pub open spec fn feature_actions(s: Seq<Action>) -> Seq<Action>
    decreases s.len(),
{
    if s.len() == 0 {
        Seq::empty()
    } else {
        let r = feature_actions(s.drop_last());
        if !s.last().has_client_spec() && s.last().is_feature_spec() {
            r.push(s.last())
        } else {
            r
        }
    }
}

/// The tickets of `s`, in order, that have no client and are no features.
pub open spec fn other_actions(s: Seq<Action>) -> Seq<Action>
    decreases s.len(),
{
    if s.len() == 0 {
        Seq::empty()
    } else {
        let r = other_actions(s.drop_last());
        if !s.last().has_client_spec() && !s.last().is_feature_spec() {
            r.push(s.last())
        } else {
            r
        }
    }
}

/// Client tickets ordered by their number of clients.
pub open spec fn by_clients() -> spec_fn(ClientBug, ClientBug) -> bool {
    |a: ClientBug, b: ClientBug| a.clients@.len() <= b.clients@.len()
}

/// Tickets ordered by their titles.
pub open spec fn by_name() -> spec_fn(Action, Action) -> bool {
    |a: Action, b: Action| seq_le(a.name_spec(), b.name_spec())
}

/// `r` holds the groups of `a` followed by those of `b`.
pub open spec fn is_merge_of(r: ClassifiedActions, a: ClassifiedActions, b: ClassifiedActions) -> bool {
    &&& r.client_bugs@ == a.client_bugs@ + b.client_bugs@
    &&& r.features@ == a.features@ + b.features@
    &&& r.others@ == a.others@ + b.others@
}

/// `r` holds the groups of `c`, each in report order.
pub open spec fn is_sort_of(r: ClassifiedActions, c: ClassifiedActions) -> bool {
    &&& r.client_bugs@ == sort_seq(c.client_bugs@, by_clients())
    &&& r.features@ == sort_seq(c.features@, by_name())
    &&& r.others@ == sort_seq(c.others@, by_name())
}

impl ClassifiedActions {
    /// No tickets in any group.
    pub fn new() -> (r: ClassifiedActions)
        ensures
            r.client_bugs@.len() == 0,
            r.features@.len() == 0,
            r.others@.len() == 0,
    {
        ClassifiedActions { client_bugs: Vec::new(), features: Vec::new(), others: Vec::new() }
    }

    /// The groups in report order: client tickets by ascending number of
    /// clients, features and others by title; equal keys keep their order.
    pub fn sort(self) -> (r: Self)
        ensures
            is_sort_of(r, self),
    {
        let ClassifiedActions { client_bugs, features, others } = self;
        ClassifiedActions {
            client_bugs: sort_client_bugs(client_bugs),
            features: sort_by_name(features),
            others: sort_by_name(others),
        }
    }
}

/// Client tickets stably ordered by their number of clients.
pub fn sort_client_bugs(v: Vec<ClientBug>) -> (r: Vec<ClientBug>)
    ensures
        r@ == sort_seq(v@, by_clients()),
{
    let ghost orig = v@;
    let ghost le = by_clients();
    let n = v.len();
    let mut rest = v;
    let mut out: Vec<ClientBug> = Vec::new();
    let mut i: usize = 0;
    while rest.len() > 0
        invariant
            n == orig.len(),
            i <= n,
            rest@ == orig.subrange(i as int, n as int),
            out@ == sort_seq(orig.subrange(0, i as int), le),
            le == by_clients(),
        decreases rest@.len(),
    {
        let x = rest.remove(0);
        let k = x.clients.len();
        let mut j = out.len();
        assert(out@.subrange(0, j as int) == out@);
        while j > 0 && !(out[j - 1].clients.len() <= k)
            invariant
                j <= out@.len(),
                insert_pos(out@, x, le) == insert_pos(out@.subrange(0, j as int), x, le),
                k == x.clients@.len(),
                le == by_clients(),
            decreases j,
        {
            assert(out@.subrange(0, j as int).drop_last() == out@.subrange(0, j - 1));
            j = j - 1;
        }
        proof {
            let pre = orig.subrange(0, i + 1);
            assert(pre.drop_last() == orig.subrange(0, i as int));
            assert(rest@ == orig.subrange(i + 1, n as int));
        }
        out.insert(j, x);
        i = i + 1;
    }
    assert(orig.subrange(0, n as int) == orig);
    out
}

/// Tickets stably ordered by their titles.
pub fn sort_by_name(v: Vec<Action>) -> (r: Vec<Action>)
    ensures
        r@ == sort_seq(v@, by_name()),
{
    let ghost orig = v@;
    let ghost le = by_name();
    let n = v.len();
    let mut rest = v;
    let mut out: Vec<Action> = Vec::new();
    let mut i: usize = 0;
    while rest.len() > 0
        invariant
            n == orig.len(),
            i <= n,
            rest@ == orig.subrange(i as int, n as int),
            out@ == sort_seq(orig.subrange(0, i as int), le),
            le == by_name(),
        decreases rest@.len(),
    {
        let x = rest.remove(0);
        let key = x.name();
        let mut j = out.len();
        assert(out@.subrange(0, j as int) == out@);
        while j > 0 && !str_le(out[j - 1].name().as_str(), key.as_str())
            invariant
                j <= out@.len(),
                insert_pos(out@, x, le) == insert_pos(out@.subrange(0, j as int), x, le),
                key@ == x.name_spec(),
                le == by_name(),
            decreases j,
        {
            assert(out@.subrange(0, j as int).drop_last() == out@.subrange(0, j - 1));
            j = j - 1;
        }
        proof {
            let pre = orig.subrange(0, i + 1);
            assert(pre.drop_last() == orig.subrange(0, i as int));
            assert(rest@ == orig.subrange(i + 1, n as int));
        }
        out.insert(j, x);
        i = i + 1;
    }
    assert(orig.subrange(0, n as int) == orig);
    out
}

/// Partitions tickets into client tickets, features and others. A ticket
/// with a client field is a client ticket even when it is also a feature.
pub fn classify_actions(issues: Vec<Action>) -> (r: ClassifiedActions)
    ensures
        bug_views(r.client_bugs@) == client_entries(issues@),
        r.features@ == feature_actions(issues@),
        r.others@ == other_actions(issues@),
{
    let ghost orig = issues@;
    let n = issues.len();
    let mut rest = issues;
    let mut client_list = ClassifiedActions::new();
    let mut i: usize = 0;
    while rest.len() > 0
        invariant
            n == orig.len(),
            i <= n,
            rest@ == orig.subrange(i as int, n as int),
            bug_views(client_list.client_bugs@) == client_entries(orig.subrange(0, i as int)),
            client_list.features@ == feature_actions(orig.subrange(0, i as int)),
            client_list.others@ == other_actions(orig.subrange(0, i as int)),
        decreases rest@.len(),
    {
        let issue = rest.remove(0);
        proof {
            let pre = orig.subrange(0, i + 1);
            assert(pre.drop_last() == orig.subrange(0, i as int));
            assert(pre.last() == issue);
            assert(rest@ == orig.subrange(i + 1, n as int));
        }
        if issue.has_client() {
            let clients = issue.clients();
            let ghost before = client_list.client_bugs@;
            client_list.client_bugs.push(ClientBug { clients, bug: issue });
            assert(bug_views(before.push(ClientBug { clients, bug: issue })) == bug_views(
                before,
            ).push((views(clients@), issue)));
        } else if issue.is_feature() {
            client_list.features.push(issue);
        } else {
            client_list.others.push(issue);
        }
        i = i + 1;
    }
    assert(orig.subrange(0, n as int) == orig);
    client_list
}

/// The groups of two sets of tickets, each group of the first followed by
/// the same group of the second; nothing is dropped or merged.
pub fn merge_actions(issue_list: ClassifiedActions, task_list: ClassifiedActions) -> (r:
    ClassifiedActions)
    ensures
        is_merge_of(r, issue_list, task_list),
{
    let ClassifiedActions { mut client_bugs, mut features, mut others } = issue_list;
    let ClassifiedActions { client_bugs: mut cb, features: mut fs, others: mut os } = task_list;
    client_bugs.append(&mut cb);
    features.append(&mut fs);
    others.append(&mut os);
    ClassifiedActions { client_bugs, features, others }
}

/// Every ticket lands in exactly one group: client tickets are those with a
/// client field, features and others have none, and features and others
/// differ in being features; the groups together are as long as the input.
pub proof fn lemma_classify_partition(s: Seq<Action>)
    ensures
        forall|i: int|
            0 <= i < client_entries(s).len() ==> (#[trigger] client_entries(s)[i]).1.has_client_spec()
                && client_entries(s)[i].0 == client_entries(s)[i].1.clients_spec(),
        forall|i: int|
            0 <= i < feature_actions(s).len() ==> !(#[trigger] feature_actions(s)[i]).has_client_spec()
                && feature_actions(s)[i].is_feature_spec(),
        forall|i: int|
            0 <= i < other_actions(s).len() ==> !(#[trigger] other_actions(s)[i]).has_client_spec()
                && !other_actions(s)[i].is_feature_spec(),
        forall|i: int, j: int|
            0 <= i < client_entries(s).len() && 0 <= j < feature_actions(s).len() ==> (
            #[trigger] client_entries(s)[i]).1 != #[trigger] feature_actions(s)[j],
        forall|i: int, j: int|
            0 <= i < client_entries(s).len() && 0 <= j < other_actions(s).len() ==> (
            #[trigger] client_entries(s)[i]).1 != #[trigger] other_actions(s)[j],
        forall|i: int, j: int|
            0 <= i < feature_actions(s).len() && 0 <= j < other_actions(s).len() ==>
                #[trigger] feature_actions(s)[i] != #[trigger] other_actions(s)[j],
        client_entries(s).len() + feature_actions(s).len() + other_actions(s).len() == s.len(),
    decreases s.len(),
{
    if s.len() > 0 {
        lemma_classify_partition(s.drop_last());
    }
}

/// Merging concatenates: each group of the result is as long as the two
/// groups it comes from together.
pub proof fn lemma_merge_counts(r: ClassifiedActions, a: ClassifiedActions, b: ClassifiedActions)
    requires
        is_merge_of(r, a, b),
    ensures
        r.client_bugs@.len() == a.client_bugs@.len() + b.client_bugs@.len(),
        r.features@.len() == a.features@.len() + b.features@.len(),
        r.others@.len() == a.others@.len() + b.others@.len(),
{
}

/// Both orders used for reports are total preorders.
pub proof fn lemma_report_orders()
    ensures
        is_total_preorder(by_clients()),
        is_total_preorder(by_name()),
{
    assert forall|a: Action, b: Action| #[trigger] by_name()(a, b) || by_name()(b, a) by {
        lemma_seq_le_total(a.name_spec(), b.name_spec());
    }
    assert forall|a: Action, b: Action, c: Action|
        #[trigger] by_name()(a, b) && #[trigger] by_name()(b, c) implies by_name()(a, c) by {
        lemma_seq_le_trans(a.name_spec(), b.name_spec(), c.name_spec());
    }
}

/// Sorting the groups a second time changes nothing.
pub proof fn lemma_sort_twice(c: ClassifiedActions, once: ClassifiedActions, twice: ClassifiedActions)
    requires
        is_sort_of(once, c),
        is_sort_of(twice, once),
    ensures
        twice.client_bugs@ == once.client_bugs@,
        twice.features@ == once.features@,
        twice.others@ == once.others@,
{
    lemma_report_orders();
    lemma_sort_idempotent(c.client_bugs@, by_clients());
    lemma_sort_idempotent(c.features@, by_name());
    lemma_sort_idempotent(c.others@, by_name());
}

/// The table rows for client tickets, each after a line break.
pub open spec fn client_rows(s: Seq<ClientBug>) -> Seq<char>
    decreases s.len(),
{
    if s.len() == 0 {
        Seq::empty()
    } else {
        client_rows(s.drop_last()) + "\n"@ + s.last().bug.display_spec() + " "@ + join_seq(
            views(s.last().clients@),
            ";"@,
        ) + " |"@
    }
}

/// The table rows for tickets, each after a line break.
pub open spec fn action_rows(s: Seq<Action>) -> Seq<char>
    decreases s.len(),
{
    if s.len() == 0 {
        Seq::empty()
    } else {
        action_rows(s.drop_last()) + "\n"@ + s.last().display_spec()
    }
}

/// The Markdown section for the three groups, in the order given.
pub open spec fn actions_markdown(
    client_bugs: Seq<ClientBug>,
    features: Seq<Action>,
    others: Seq<Action>,
) -> Seq<char> {
    "### Client Bugs and Features\n"@
        + "\n| Ticket Name | Ticket Type | Raised By | Clients |\n| --- | --- | --- | --- |"@
        + client_rows(client_bugs)
        + "\n\n### Features and Enhancements\n\n| Ticket Name | Ticket Type | Raised By |\n| --- | --- | --- |"@
        + action_rows(features)
        + "\n\n### Other Bugs\n\n| Ticket Name | Ticket Type | Raised By |\n| --- | --- | --- |"@
        + action_rows(others)
}

fn append_client_rows(out: &mut String, s: &Vec<ClientBug>)
    ensures
        final(out)@ == old(out)@ + client_rows(s@),
{
    let mut i: usize = 0;
    while i < s.len()
        invariant
            i <= s@.len(),
            out@ == old(out)@ + client_rows(s@.subrange(0, i as int)),
        decreases s@.len() - i,
    {
        let ghost pre = s@.subrange(0, i + 1);
        assert(pre.drop_last() == s@.subrange(0, i as int));
        out.append("\n");
        let d = s[i].bug.display();
        out.append(d.as_str());
        out.append(" ");
        let j = join(&s[i].clients, ";");
        out.append(j.as_str());
        out.append(" |");
        i = i + 1;
    }
    assert(s@.subrange(0, s@.len() as int) == s@);
}

fn append_action_rows(out: &mut String, s: &Vec<Action>)
    ensures
        final(out)@ == old(out)@ + action_rows(s@),
{
    let mut i: usize = 0;
    while i < s.len()
        invariant
            i <= s@.len(),
            out@ == old(out)@ + action_rows(s@.subrange(0, i as int)),
        decreases s@.len() - i,
    {
        let ghost pre = s@.subrange(0, i + 1);
        assert(pre.drop_last() == s@.subrange(0, i as int));
        out.append("\n");
        let d = s[i].display();
        out.append(d.as_str());
        i = i + 1;
    }
    assert(s@.subrange(0, s@.len() as int) == s@);
}

/// The Markdown report of a set of tickets, its groups in report order.
pub fn write_actions(client_list: ClassifiedActions) -> (r: String)
    ensures
        r@ == actions_markdown(
            sort_seq(client_list.client_bugs@, by_clients()),
            sort_seq(client_list.features@, by_name()),
            sort_seq(client_list.others@, by_name()),
        ),
{
    let sorted_tickets = client_list.sort();
    let mut output = String::from_str("### Client Bugs and Features\n");
    output.append("\n| Ticket Name | Ticket Type | Raised By | Clients |\n| --- | --- | --- | --- |");
    append_client_rows(&mut output, &sorted_tickets.client_bugs);
    output.append(
        "\n\n### Features and Enhancements\n\n| Ticket Name | Ticket Type | Raised By |\n| --- | --- | --- |",
    );
    append_action_rows(&mut output, &sorted_tickets.features);
    output.append("\n\n### Other Bugs\n\n| Ticket Name | Ticket Type | Raised By |\n| --- | --- | --- |");
    append_action_rows(&mut output, &sorted_tickets.others);
    output
}

proof fn lemma_trim_padded(w1: Seq<char>, c: Seq<char>, w2: Seq<char>)
    requires
        forall|k: int| 0 <= k < w1.len() ==> is_ws(#[trigger] w1[k]),
        forall|k: int| 0 <= k < w2.len() ==> is_ws(#[trigger] w2[k]),
        c.len() > 0,
        !is_ws(c[0]),
        !is_ws(c.last()),
    ensures
        trimmed(w1 + c + w2) == c,
    decreases w1.len() + w2.len(),
{
    if w1.len() > 0 {
        assert((w1 + c + w2).drop_first() == w1.drop_first() + c + w2);
        lemma_trim_padded(w1.drop_first(), c, w2);
    } else if w2.len() > 0 {
        assert(w1 + c + w2 == c + w2);
        assert(!is_ws((c + w2)[0]));
        assert((c + w2).drop_last() == c + w2.drop_last());
        assert(c + w2.drop_last() == w1 + c + w2.drop_last());
        lemma_trim_padded(w1, c, w2.drop_last());
        assert(trim_front(c + w2) == c + w2);
        assert(trim_front(c + w2.drop_last()) == c + w2.drop_last());
    } else {
        assert(w1 + c + w2 == c);
    }
}

/// A closed status with any white space before and after it is closed, in
/// any letter case once lowered; a status whose trimmed lower-case form is
/// none of the closed statuses is not.
pub proof fn lemma_closed_padding(w1: Seq<char>, k: int, w2: Seq<char>, other: Seq<char>)
    requires
        0 <= k < 3,
        forall|i: int| 0 <= i < w1.len() ==> is_ws(#[trigger] w1[i]),
        forall|i: int| 0 <= i < w2.len() ==> is_ws(#[trigger] w2[i]),
    ensures
        is_closed_lowered(w1 + closed_statuses()[k] + w2),
        !closed_statuses().contains(trimmed(lower_of(other))) ==> !is_closed_status(other),
{
    reveal_strlit("tested on staging");
    reveal_strlit("tested on live");
    reveal_strlit("closed");
    let c = closed_statuses()[k];
    lemma_trim_padded(w1, c, w2);
    assert(closed_statuses()[k] == c);
}

/// Whether `s` is one of the strings of `v`.
pub fn contains_string(v: &Vec<String>, s: &str) -> (r: bool)
    ensures
        r == views(v@).contains(s@),
{
    let mut i: usize = 0;
    while i < v.len()
        invariant
            i <= v@.len(),
            forall|k: int| 0 <= k < i ==> v@[k]@ != s@,
        decreases v@.len() - i,
    {
        if str_eq(v[i].as_str(), s) {
            assert(views(v@)[i as int] == s@);
            return true;
        }
        i = i + 1;
    }
    assert forall|k: int| 0 <= k < views(v@).len() implies views(v@)[k] != s@ by {
        assert(views(v@)[k] == v@[k]@);
    }
    false
}

/// Whether `x` is one of the ids of `v`.
pub fn contains_id(v: &Vec<i64>, x: i64) -> (r: bool)
    ensures
        r == v@.contains(x),
{
    let mut i: usize = 0;
    while i < v.len()
        invariant
            i <= v@.len(),
            forall|k: int| 0 <= k < i ==> v@[k] != x,
        decreases v@.len() - i,
    {
        if v[i] == x {
            return true;
        }
        i = i + 1;
    }
    false
}

} // verus!
