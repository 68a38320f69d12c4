use release_notes::pull_list::format_repo;
use release_notes::pull_list::pr_iterator::{extract_next_link, parse_next_link, PRIterator, Step};
use release_notes::pull_list::predicate::Predicate;
use release_notes::pull_list::pull::{ticket_refs, Date, GithubUser, Pull, Timestamp};
use release_notes::pull_list::release::Release;
use release_notes::pull_list::repo::Repo;
use release_notes::zoho_bugs::issue_iterator::IssueIterator;
use release_notes::zoho_bugs::task_iterator::TaskIterator;

fn at_time(y: i32, m: u32, d: u32, h: u32) -> Timestamp {
    Timestamp::new(Date::new(y, m, d).unwrap(), h, 0, 0).unwrap()
}

fn at(y: i32, m: u32, d: u32) -> Timestamp {
    at_time(y, m, d, 12)
}

fn pull(n: usize, login: &str, closed: Timestamp) -> Pull {
    Pull {
        html_url: format!("https://example.com/pull/{}", n),
        title: format!("PR {}", n),
        user: GithubUser { id: 1, login: login.to_string() },
        closed_at: closed,
    }
}

fn drain(it: &mut PRIterator, pages: &mut Vec<(Vec<Pull>, Vec<String>)>) -> Vec<Pull> {
    let mut out = Vec::new();
    let mut fetches = 0;
    loop {
        match it.try_next() {
            Step::Item(p) => out.push(p),
            Step::Fetch(_) => {
                fetches += 1;
                assert!(fetches < 100);
                if pages.is_empty() {
                    it.receive_page(Vec::new(), &Vec::new());
                } else {
                    let (page, headers) = pages.remove(0);
                    it.receive_page(page, &headers);
                }
            }
            Step::Done => return out,
        }
    }
}

fn paged(n: usize) -> Vec<(Vec<Pull>, Vec<String>)> {
    let mut chunks: Vec<Vec<Pull>> = Vec::new();
    for i in 0..n {
        if i % 100 == 0 {
            chunks.push(Vec::new());
        }
        chunks.last_mut().unwrap().push(pull(i, "dev", at(2020, 1, 1)));
    }
    let count = chunks.len();
    chunks
        .into_iter()
        .enumerate()
        .map(|(k, c)| {
            let headers = if k + 1 < count {
                vec![format!("<https://api/pulls?page={}>; rel=\"next\", <https://api/pulls?page=9>; rel=\"last\"", k + 2)]
            } else {
                vec!["<https://api/pulls?page=1>; rel=\"first\"".to_string()]
            };
            (c, headers)
        })
        .collect()
}

#[test]
fn pager_yields_all_items_in_order() {
    let mut pages = paged(250);
    let mut it = PRIterator::for_addr("https://api/pulls?page=1", None);
    let got = drain(&mut it, &mut pages);
    assert_eq!(got.len(), 250);
    for (i, p) in got.iter().enumerate() {
        assert_eq!(p.title, format!("PR {}", i));
    }
    assert!(matches!(it.try_next(), Step::Done));
}

#[test]
fn pager_with_exact_multiple_of_page_size() {
    let mut pages = paged(200);
    let mut it = PRIterator::for_addr("https://api/pulls", None);
    assert_eq!(drain(&mut it, &mut pages).len(), 200);
}

#[test]
fn pager_with_predicate_rejecting_all_terminates() {
    let mut pages = paged(250);
    let pred = Predicate { since: Some(at(2030, 1, 1)), excluded_login: None };
    let mut it = PRIterator::for_addr("https://api/pulls", Some(pred));
    assert_eq!(drain(&mut it, &mut pages).len(), 0);
}

#[test]
fn failed_fetch_ends_sequence() {
    let mut it = PRIterator::for_addr("https://api/pulls", None);
    match it.try_next() {
        Step::Fetch(u) => assert_eq!(u, "https://api/pulls"),
        _ => panic!("expected a fetch"),
    }
    assert!(matches!(it.try_next(), Step::Done));
}

#[test]
fn next_link_parsing() {
    assert_eq!(
        parse_next_link("<https://api.github.com/x?page=2>; rel=\"next\""),
        Some("https://api.github.com/x?page=2".to_string())
    );
    let headers = vec![
        "<https://a/?page=1>; rel=\"prev\"".to_string(),
        "<https://a/?page=3>; rel=\"next\", <https://a/?page=5>; rel=\"last\"".to_string(),
    ];
    assert_eq!(extract_next_link(&headers), Some("https://a/?page=3".to_string()));
    assert_eq!(extract_next_link(&vec!["<https://a/>; rel=\"last\"".to_string()]), None);
    assert_eq!(extract_next_link(&vec![]), None);
}

#[test]
fn missing_release_defaults_to_first_commit() {
    let mut repo = Repo {
        name: "org/app".to_string(),
        last_release: None,
        pulls: None,
        base: "main".to_string(),
        since: None,
    };
    assert_eq!(repo.release_url(), Some("https://api.github.com/repos/org/app/releases/latest".to_string()));
    assert!(repo.record_release(404, None).is_ok());
    let rel = repo.last_release.as_ref().unwrap();
    assert_eq!(rel.name.as_deref(), Some("First Commit"));
    assert_eq!(rel.describe(), "First Commit, published 2001-01-01 00:00:00 UTC");
    assert_eq!(repo.release_url(), None);
    let pred = repo.pull_predicate().ok().unwrap();
    assert!(pred.test(&pull(1, "alice", at(2008, 4, 10))));
    assert!(pred.test(&pull(1, "alice", at(2001, 1, 2))));
    assert!(pred.test(&pull(1, "alice", at(2001, 1, 1))));
    assert!(!pred.test(&pull(1, "alice", Timestamp::new(Date::new(2001, 1, 1).unwrap(), 0, 0, 0).unwrap())));
    assert!(!pred.test(&pull(1, "alice", at(2000, 12, 31))));
    assert!(!pred.test(&pull(1, "dependabot[bot]", at(2020, 1, 1))));
}

#[test]
fn release_lookup_errors_and_tags() {
    let mut repo = Repo {
        name: "org/app".to_string(),
        last_release: None,
        pulls: None,
        base: "main".to_string(),
        since: Some("v1.2".to_string()),
    };
    assert_eq!(repo.release_url(), Some("https://api.github.com/repos/org/app/releases/tags/v1.2".to_string()));
    let err = repo.record_release(500, None).err().unwrap();
    assert_eq!(err.kind().message(), "Server error: 500");
    assert!(repo.last_release.is_none());
    assert_eq!(
        repo.pull_predicate().err().unwrap().kind().message(),
        "Repo has no last release; has it been initialized?"
    );
    assert!(repo.pull_listing().is_err());
    assert_eq!(repo.pulls_url(), "https://api.github.com/repos/org/app/pulls?state=closed&base=main&per_page=100");
    repo.record_pulls(vec![]);
    assert!(repo.pulls.is_none());
    repo.record_pulls(vec![pull(1, "a", at(2020, 1, 1))]);
    repo.record_pulls(vec![pull(2, "a", at(2020, 1, 1)), pull(3, "a", at(2020, 1, 1))]);
    assert_eq!(repo.pulls.as_ref().unwrap().len(), 1);
}

#[test]
fn predicate_compares_full_moments() {
    let release = Release {
        id: None,
        name: Some("v1".to_string()),
        tag_name: None,
        body: None,
        created_at: at_time(2021, 5, 5, 10),
    };
    let pred = Predicate::from_release(&release).ok().unwrap();
    assert!(pred.test(&pull(1, "alice", at_time(2021, 5, 5, 12))));
    assert!(!pred.test(&pull(1, "alice", at_time(2021, 5, 5, 10))));
    assert!(!pred.test(&pull(1, "alice", at_time(2021, 5, 5, 9))));
    assert!(Predicate { since: None, excluded_login: None }.test(&pull(1, "alice", at(1999, 1, 1))));
    let other = pred.excluding(Some("alice".to_string()));
    assert!(!other.test(&pull(1, "alice", at_time(2021, 5, 5, 12))));
    assert!(other.test(&pull(1, "dependabot[bot]", at_time(2021, 5, 5, 12))));
}

#[test]
fn pull_listing_steps() {
    let mut repo = Repo {
        name: "org/app".to_string(),
        last_release: Some(Release::default()),
        pulls: None,
        base: "dev".to_string(),
        since: None,
    };
    let mut pager = repo.pull_listing().ok().unwrap().unwrap();
    match pager.try_next() {
        Step::Fetch(u) => assert_eq!(u, "https://api.github.com/repos/org/app/pulls?state=closed&base=dev&per_page=100"),
        _ => panic!("expected a fetch"),
    }
    repo.record_pulls(vec![pull(1, "a", at(2020, 1, 1))]);
    assert!(repo.pull_listing().ok().unwrap().is_none());
}

#[test]
fn ticket_references_from_titles() {
    assert_eq!(ticket_refs("[#MD1234, #MD5678] Fix login bug"), vec!["#MD1234".to_string(), "#MD5678".to_string()]);
    assert!(ticket_refs("Fix login bug [#MD1]").is_empty());
    assert!(ticket_refs("[#MD1 unclosed").is_empty());
    assert!(ticket_refs("").is_empty());
    assert!(ticket_refs("[] empty").is_empty());
}

#[test]
fn repo_section_by_contributor() {
    let mut repo = Repo {
        name: "org/app".to_string(),
        last_release: Some(Release::default()),
        pulls: None,
        base: "main".to_string(),
        since: None,
    };
    repo.record_pulls(vec![
        pull(3, "alice", at(2020, 1, 3)),
        pull(2, "bob", at(2020, 1, 2)),
        pull(1, "alice", at(2020, 1, 1)),
    ]);
    let out = format_repo(repo);
    let expected = "\n\n## Closed Pull Requests for org/app\n\n### Last Release: First Commit, published 2001-01-01 00:00:00 UTC\n\n| Pull Request | Contributor |\n| --- | --- |\n| [PR 2](https://example.com/pull/2) | Bob |\n| [PR 1](https://example.com/pull/1) | Alice |\n| [PR 3](https://example.com/pull/3) | Alice |";
    assert_eq!(out, expected);
}

#[test]
fn repo_section_without_release_is_empty() {
    let repo = Repo { name: "x".to_string(), last_release: None, pulls: None, base: "b".to_string(), since: None };
    assert_eq!(format_repo(repo), "");
}

#[test]
fn timestamp_text_pads() {
    let t = Timestamp::new(Date::new(987, 3, 4).unwrap(), 5, 6, 7).unwrap();
    assert_eq!(t.text(), "0987-03-04 05:06:07 UTC");
    assert!(Date::new(2001, 1, 1).unwrap().is_before(&Date::new(2001, 1, 2).unwrap()));
    assert!(!Date::new(2001, 2, 1).unwrap().is_before(&Date::new(2001, 1, 9).unwrap()));
    assert!(Date::new(2001, 13, 1).is_none());
    assert!(Date::new(2001, 1, 0).is_none());
    assert!(Timestamp::new(Date::new(2001, 1, 1).unwrap(), 24, 0, 0).is_none());
    assert!(Timestamp::new(Date::new(2001, 1, 1).unwrap(), 23, 59, 60).is_none());
}

#[test]
fn issue_pager_by_index() {
    let mut it = IssueIterator::new(vec!["1".to_string()]);
    assert!(matches!(it.try_next(), Step::Fetch(0)));
    it.receive_page(Vec::new());
    assert!(matches!(it.try_next(), Step::Done));
    let mut t = TaskIterator::new();
    assert!(matches!(t.try_next(), Step::Fetch(0)));
    assert!(matches!(t.try_next(), Step::Done));
}
