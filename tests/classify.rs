use release_notes::zoho_bugs::issue::{build_list, resolve_milestones, Issue, Milestone};
use release_notes::zoho_bugs::task::{self, Task, Tasklist};
use release_notes::zoho_bugs::winnower::Winnower;
use release_notes::zoho_bugs::{
    classify_actions, closed_status, matches_closed, merge_actions, write_actions, Action,
    ClassifiedActions, CustomField, MDCustomFilters,
};

fn field(label: &str, value: &str) -> CustomField {
    CustomField::new(label.to_string(), value.to_string())
}

fn issue(key: &str, title: &str, class: &str, status: &str, fields: Vec<CustomField>) -> Issue {
    Issue {
        key: key.to_string(),
        title: title.to_string(),
        classification: class.to_string(),
        status: status.to_string(),
        reported_person: "Rita".to_string(),
        customfields: Some(fields),
    }
}

fn task(name: &str, status: &str, fields: Option<Vec<CustomField>>, tl: i64) -> Task {
    Task {
        key: "T1".to_string(),
        name: name.to_string(),
        status: status.to_string(),
        created_person: "Carl".to_string(),
        custom_fields: fields,
        tasklist_id: tl,
        tasklist: None,
    }
}

fn names(v: &[Action]) -> Vec<String> {
    v.iter().map(|a| a.name()).collect()
}

#[test]
fn closed_statuses_ignore_case_and_padding() {
    assert!(closed_status("Closed"));
    assert!(closed_status("  Tested on Staging \n"));
    assert!(closed_status("TESTED ON LIVE"));
    assert!(closed_status("\tclosed"));
    assert!(!closed_status("Open"));
    assert!(!closed_status("closed later"));
    assert!(!closed_status(""));
    assert!(matches_closed("  tested on live  "));
    assert!(!matches_closed("Tested on live"));
}

#[test]
fn issue_capabilities() {
    let i = issue("MD1", "Login", "Feature(New)", "Closed", vec![field("From a Client:", "Acme")]);
    assert!(i.has_client());
    assert!(i.is_feature());
    assert!(i.closed_tag());
    assert_eq!(i.issue_type(), "Feature(New)");
    assert_eq!(i.milestone(), "");
    let j = issue("MD2", "Bug", "Bug", "Open", vec![field("Severity", "High")]);
    assert!(!j.has_client());
    assert!(!j.is_feature());
    assert!(!j.closed_tag());
    let e = issue("MD3", "Enh", "Enhancement", "closed", vec![]);
    assert!(e.is_feature());
}

#[test]
fn task_capabilities() {
    let t = task(
        "Do it",
        "Tested on Live",
        Some(vec![field("Other", "x"), field("Release Milestone", "11.2.6")]),
        5,
    );
    assert!(t.is_feature());
    assert!(!t.has_client());
    assert!(t.closed_tag());
    assert_eq!(t.issue_type(), "DevelopmentTask");
    assert_eq!(t.milestone(), "11.2.6");
    let u = task("No fields", "Open", None, 5);
    assert_eq!(u.milestone(), "");
    assert!(!u.has_client());
}

#[test]
fn classify_puts_client_tickets_first_and_only_once() {
    let actions = vec![
        Action::ZIssue(issue("MD1", "Client feature", "Feature(New)", "Closed", vec![
            field("Notes", "n"),
            field("From a client", "Acme,Beta"),
        ])),
        Action::ZIssue(issue("MD2", "Plain feature", "Enhancement", "Closed", vec![])),
        Action::ZIssue(issue("MD3", "Plain bug", "Bug", "Closed", vec![])),
        Action::ZTask(task("A task", "Closed", None, 1)),
    ];
    let c = classify_actions(actions);
    assert_eq!(c.client_bugs.len(), 1);
    assert_eq!(c.client_bugs[0].clients, vec!["Acme".to_string(), "Beta".to_string()]);
    assert_eq!(c.client_bugs[0].bug.name(), "Client feature");
    assert_eq!(names(&c.features), vec!["Plain feature", "A task"]);
    assert_eq!(names(&c.others), vec!["Plain bug"]);
    assert!(c.features.iter().all(|a| !a.has_client()));
    assert!(c.others.iter().all(|a| !a.has_client()));
}

#[test]
fn classify_empty_list() {
    let c = classify_actions(vec![]);
    assert!(c.client_bugs.is_empty() && c.features.is_empty() && c.others.is_empty());
}

#[test]
fn merge_concatenates_without_dedup() {
    let a = classify_actions(vec![
        Action::ZIssue(issue("MD2", "F", "Enhancement", "Closed", vec![])),
        Action::ZIssue(issue("MD3", "B", "Bug", "Closed", vec![])),
    ]);
    let b = classify_actions(vec![
        Action::ZIssue(issue("MD2", "F", "Enhancement", "Closed", vec![])),
        Action::ZIssue(issue("MD9", "C", "Bug", "Closed", vec![field("from a client", "X")])),
    ]);
    let m = merge_actions(a, b);
    assert_eq!(m.client_bugs.len(), 1);
    assert_eq!(names(&m.features), vec!["F", "F"]);
    assert_eq!(names(&m.others), vec!["B"]);
}

#[test]
fn sort_orders_and_is_idempotent() {
    let actions = vec![
        Action::ZIssue(issue("1", "beta", "Bug", "Closed", vec![])),
        Action::ZIssue(issue("2", "Alpha", "Bug", "Closed", vec![])),
        Action::ZIssue(issue("3", "alpha", "Bug", "Closed", vec![])),
        Action::ZIssue(issue("4", "Two", "Bug", "Closed", vec![field("From a client", "A,B")])),
        Action::ZIssue(issue("5", "One", "Bug", "Closed", vec![field("From a client", "A")])),
    ];
    let once = classify_actions(actions).sort();
    assert_eq!(names(&once.others), vec!["Alpha", "alpha", "beta"]);
    let order: Vec<String> = once.client_bugs.iter().map(|c| c.bug.name()).collect();
    assert_eq!(order, vec!["One", "Two"]);
    let twice = once.sort();
    assert_eq!(names(&twice.others), vec!["Alpha", "alpha", "beta"]);
    let order2: Vec<String> = twice.client_bugs.iter().map(|c| c.bug.name()).collect();
    assert_eq!(order2, vec!["One", "Two"]);
}

#[test]
fn display_strips_quotes() {
    let a = Action::ZIssue(issue("MD7", "Don't \"break\" `it`", "Bug", "Closed", vec![]));
    assert_eq!(a.display(), "| [MD7] Dont break it | Bug | Rita |");
    let t = Action::ZTask(task("Task", "Closed", None, 1));
    assert_eq!(t.display(), "| [T1] Task | DevelopmentTask | Carl |");
}

#[test]
fn write_actions_markdown() {
    let c = classify_actions(vec![
        Action::ZIssue(issue("MD1", "Zed", "Bug", "Closed", vec![field("From a client", "A,B")])),
        Action::ZIssue(issue("MD2", "Feat", "Enhancement", "Closed", vec![])),
        Action::ZIssue(issue("MD3", "Bug", "Bug", "Closed", vec![])),
    ]);
    let out = write_actions(c);
    let expected = "### Client Bugs and Features\n\n| Ticket Name | Ticket Type | Raised By | Clients |\n| --- | --- | --- | --- |\n| [MD1] Zed | Bug | Rita | A;B |\n\n### Features and Enhancements\n\n| Ticket Name | Ticket Type | Raised By |\n| --- | --- | --- |\n| [MD2] Feat | Enhancement | Rita |\n\n### Other Bugs\n\n| Ticket Name | Ticket Type | Raised By |\n| --- | --- | --- |\n| [MD3] Bug | Bug | Rita |";
    assert_eq!(out, expected);
    let empty = write_actions(ClassifiedActions::new());
    assert!(empty.ends_with("| --- | --- | --- |"));
}

#[test]
fn milestone_not_in_listing_yields_nothing() {
    let listing = vec![Milestone { id: 7, name: " 11.2.7 ".to_string() }];
    let ids = resolve_milestones(&vec!["11.2.6".to_string()], &listing);
    assert!(ids.is_empty());
    let ids = resolve_milestones(&vec!["11.2.7".to_string(), "x".to_string()], &listing);
    assert_eq!(ids, vec![7]);
}

#[test]
fn issue_list_keeps_closed_only() {
    let list = build_list(vec![
        issue("1", "a", "Bug", "Closed", vec![]),
        issue("2", "b", "Bug", "In progress", vec![]),
        issue("3", "c", "Bug", " tested on staging", vec![]),
    ]);
    assert_eq!(names(&list), vec!["a", "c"]);
}

#[test]
fn task_list_by_milestone_or_tasklist() {
    let tasklists = vec![
        Tasklist { id: 10, milestone_name: " 11.2.6 ".to_string() },
        Tasklist { id: 11, milestone_name: "9.0".to_string() },
    ];
    let tasks = vec![
        task("by field", "Closed", Some(vec![field("Release Milestone", " 11.2.6")]), 99),
        task("by tasklist", "Closed", None, 10),
        task("other list", "Closed", None, 11),
        task("open", "Open", None, 10),
    ];
    let list = task::build_list(&tasklists, tasks, &vec!["11.2.6".to_string()]);
    assert_eq!(names(&list), vec!["by field", "by tasklist"]);
}

#[test]
fn winnower_by_label_or_status() {
    let w = Winnower::from_milestone(vec!["MD1".to_string()]).ok().unwrap();
    assert!(w.test(&issue("MD1", "a", "Bug", "Open", vec![])));
    assert!(w.test(&issue("MD2", "a", "Bug", "Tested on Live", vec![])));
    assert!(!w.test(&issue("MD2", "a", "Bug", "closed", vec![])));
}

#[test]
fn custom_fields_and_clients() {
    let a = Action::ZIssue(issue("MD1", "x", "Bug", "Closed", vec![field("From A Client", "A, B")]));
    assert_eq!(a.custom_fields().unwrap().len(), 1);
    assert_eq!(a.clients(), vec!["A".to_string(), " B".to_string()]);
}
