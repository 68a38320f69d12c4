use release_notes::errors::ErrorKind;
use release_notes::extract::{
    body, client_details, clients_from, feature_title, module_details, modules_from, title,
};
use release_notes::stats::{
    average_lifetime, average_seconds, duration_to_string, issue_data, pr_stats, IssueData,
    IssueSummary, Lifetime, OutputType, PrStats, PrSummary,
};

fn lt(created: i64, closed: Option<i64>) -> Lifetime {
    Lifetime { created_at: created, closed_at: closed }
}

fn data(count: usize, avg: i64) -> IssueData {
    IssueData {
        client_requests: vec![],
        features: vec![],
        bugfixes: vec![],
        issue_count: count,
        average_lifetime: avg,
        module_stats: vec![],
    }
}

#[test]
fn average_of_no_items_is_an_error() {
    let e = average_seconds(&vec![]).err().unwrap();
    assert!(matches!(e.kind, ErrorKind::NoItems(_)));
    assert_eq!(e.kind.message(), "No issues found for this milestone");
    assert!(average_lifetime(&vec![]).is_err());
}

#[test]
fn average_counts_open_items() {
    let items = vec![lt(0, Some(100)), lt(10, Some(210)), lt(5, None)];
    assert_eq!(average_seconds(&items).ok(), Some(100));
    assert_eq!(average_seconds(&vec![lt(100, Some(0)), lt(0, Some(1))]).ok(), Some(-49));
    assert_eq!(average_seconds(&vec![lt(i64::MIN, Some(i64::MAX)), lt(0, Some(8))]).ok(), Some(4));
}

#[test]
fn durations_in_words() {
    assert_eq!(duration_to_string(90061), "1 days, 1 hours");
    assert_eq!(duration_to_string(400 * 86400), "1 years, 1 months, 1 weeks, 1 days");
    assert_eq!(duration_to_string(0), "");
    assert_eq!(duration_to_string(-5000), "");
    assert_eq!(duration_to_string(59), "");
    assert_eq!(average_lifetime(&vec![lt(0, Some(2 * 86400))]).ok(), Some("2 days".to_string()));
}

#[test]
fn combine_equal_weights() {
    let m = data(10, 100).combine(data(10, 200));
    assert_eq!(m.issue_count, 20);
    assert_eq!(m.average_lifetime, 150);
}

#[test]
fn combine_weights_by_count() {
    let m = data(10, 100).combine(data(1, 1000));
    assert_eq!(m.issue_count, 11);
    assert_eq!(m.average_lifetime, 181);
    let n = data(0, 0).combine(data(0, 0));
    assert_eq!(n.average_lifetime, 0);
}

#[test]
fn combine_module_rows_by_name() {
    let mut a = data(1, 0);
    a.module_stats = vec![("Auctions".to_string(), 1, 0), ("Reports".to_string(), 0, 2)];
    a.bugfixes = vec![(1, "a".to_string(), "x".to_string())];
    let mut b = data(1, 0);
    b.module_stats = vec![("Admin".to_string(), 1, 1), ("Reports".to_string(), 3, 0)];
    b.bugfixes = vec![(2, "b".to_string(), "y".to_string())];
    a.module_stats.push(("Total".to_string(), 1, 2));
    let m = a.combine(b);
    assert_eq!(
        m.module_stats,
        vec![
            ("Admin".to_string(), 1, 1),
            ("Auctions".to_string(), 1, 0),
            ("Reports".to_string(), 3, 2),
            ("Total".to_string(), 5, 3),
        ]
    );
    assert_eq!(m.bugfixes.len(), 2);
}

#[test]
fn tables_in_both_formats() {
    let mut d = data(2, 0);
    d.client_requests = vec![(12, "A".to_string(), "Acme".to_string()), (13, "B".to_string(), "Beta".to_string())];
    d.module_stats = vec![("Auctions".to_string(), 2, 1), ("Total".to_string(), 2, 1)];
    assert_eq!(d.client_requests(OutputType::Latex), "12 & A & Acme \\\\\n13 & B & Beta");
    assert_eq!(d.client_requests(OutputType::Markdown), "| 12 | A | Acme |\n| 13 | B | Beta |");
    assert_eq!(d.features(OutputType::Markdown), "");
    assert_eq!(
        d.module_stats(OutputType::Markdown),
        "| Auctions | 2 | 1 | 3 |\n| **Total** | **2** | **1** | **3** |"
    );
    assert_eq!(
        d.module_stats(OutputType::Latex),
        "Auctions & 2 & 1 & 3 \\\\\n\\textbf{Total} & \\textbf{2} & \\textbf{1} & \\textbf{3}"
    );
    assert_eq!(data(0, 0).module_stats(OutputType::Markdown), "");
    assert_eq!(data(0, 0).module_stats(OutputType::Latex), "");
    let mut e = data(1, 0);
    e.module_stats = vec![("Auctions".to_string(), 2, 3), ("Total".to_string(), 2, 3)];
    assert_eq!(
        e.module_stats(OutputType::Markdown),
        "| Auctions | 2 | 3 | 5 |\n| **Total** | **2** | **3** | **5** |"
    );
}

#[test]
fn titles_and_bodies_cleaned() {
    assert_eq!(title("  a_b & #1 "), "a\\_b \\& \\#1");
    assert_eq!(body(&Some("  x\r\ny  ".to_string())), "x\ny");
    assert_eq!(body(&None), "");
}

#[test]
fn details_from_issue_forms() {
    let old = "### Have any clients encountered this?\n\nAcme & Co\nBeta\n\n### Which module(s) is this bug related to?\n\nAuctions, Reports";
    assert_eq!(client_details(old), Some("Acme \\& Co, Beta".to_string()));
    assert_eq!(module_details(old), Some(vec!["Auctions".to_string(), "Reports".to_string()]));
    let new = "### List the company names of any affected clients\n\n_No response_\n\n### Other";
    assert_eq!(client_details(new), None);
    assert_eq!(client_details("nothing here"), None);
    assert_eq!(module_details("nothing"), Some(vec!["Unsure/Other".to_string()]));
    assert!(feature_title("[Feature]: New thing"));
    assert!(feature_title("[Epic]: Big"));
    assert!(!feature_title("[Feature] no colon"));
}

#[test]
fn captured_sections_post_processed() {
    assert_eq!(clients_from(Some("A & B\n#1".to_string())), Some("A \\& B, \\#1".to_string()));
    assert_eq!(clients_from(Some("_No response_".to_string())), None);
    assert_eq!(clients_from(Some("   ".to_string())), None);
    assert_eq!(clients_from(Some(" \n ".to_string())), Some(" ,  ".to_string()));
    assert_eq!(clients_from(None), None);
    assert_eq!(modules_from(Some("A, B".to_string())), vec!["A".to_string(), "B".to_string()]);
    assert_eq!(modules_from(Some("_No response_".to_string())), vec!["Unsure/Other".to_string()]);
    assert_eq!(modules_from(Some("  ".to_string())), vec!["Unsure/Other".to_string()]);
    assert_eq!(modules_from(None), vec!["Unsure/Other".to_string()]);
}

#[test]
fn issue_data_groups_and_modules() {
    let issues = vec![
        IssueSummary {
            number: 1,
            title: "[Feature]: Add thing_x".to_string(),
            body: Some("### Have any clients requested this?\n\nAcme\n\n### Which module(s) would developing this feature affect?\n\nAuctions, Reports\n".to_string()),
            login: "alice".to_string(),
            lifetime: lt(0, Some(100)),
        },
        IssueSummary {
            number: 2,
            title: "Fix crash".to_string(),
            body: None,
            login: "bob".to_string(),
            lifetime: lt(0, Some(300)),
        },
        IssueSummary {
            number: 3,
            title: "[Request]: More".to_string(),
            body: Some("### Which module(s) is this bug related to?\n\nReports".to_string()),
            login: "carol".to_string(),
            lifetime: lt(0, None),
        },
    ];
    let d = issue_data(&issues).ok().unwrap();
    assert_eq!(d.client_requests, vec![(1, "[Feature]: Add thing\\_x".to_string(), "Acme".to_string())]);
    assert_eq!(d.features, vec![(3, "[Request]: More".to_string(), "carol".to_string())]);
    assert_eq!(d.bugfixes, vec![(2, "Fix crash".to_string(), "bob".to_string())]);
    assert_eq!(d.issue_count, 3);
    assert_eq!(d.average_lifetime, 133);
    assert_eq!(
        d.module_stats,
        vec![
            ("Auctions".to_string(), 1, 0),
            ("Reports".to_string(), 2, 0),
            ("Unsure/Other".to_string(), 0, 1),
            ("Total".to_string(), 3, 1),
        ]
    );
    let e = issue_data(&vec![]).err().unwrap();
    assert_eq!(e.kind.message(), "No issues found for this milestone");
}

#[test]
fn pull_request_statistics() {
    let pulls = vec![
        PrSummary { login: "a".to_string(), lifetime: lt(0, Some(10)) },
        PrSummary { login: "b".to_string(), lifetime: lt(0, Some(20)) },
        PrSummary { login: "a".to_string(), lifetime: lt(0, Some(30)) },
    ];
    let s = pr_stats(&pulls).ok().unwrap();
    assert_eq!(s.total_count, 3);
    assert_eq!(s.average_lifetime, 20);
    assert_eq!(s.contributor_count(), 2);
    let e = pr_stats(&vec![]).err().unwrap();
    assert_eq!(e.kind.message(), "No PRs found for this milestone");
    let other = PrStats { total_count: 1, average_lifetime: 60, contributors: vec!["c".to_string(), "a".to_string()] };
    let m = s.combine(other);
    assert_eq!(m.total_count, 4);
    assert_eq!(m.average_lifetime, 30);
    assert_eq!(m.contributors, vec!["a".to_string(), "b".to_string(), "c".to_string()]);
}
