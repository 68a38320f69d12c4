//! Closed pull requests of repositories since their last release, and the
//! report section that lists them by contributor.

pub mod pr_iterator;
pub mod predicate;
pub mod pull;
pub mod release;
pub mod repo;

use crate::ordering::{insert_pos, sort_seq};
use crate::pull_list::pull::Pull;
use crate::pull_list::repo::Repo;
use crate::text::str_eq;
use vstd::prelude::*;

verus! {

/// What `inflector`'s `to_title_case` returns for `s`.
pub uninterp spec fn title_case_of(s: Seq<char>) -> Seq<char>;

/// Relies on `inflector::cases::titlecase::to_title_case`: a login written
/// as words in title case; the result depends on the characters alone.
#[verifier::external_body]
fn title_case(s: &str) -> (r: String)
    ensures
        r@ == title_case_of(s@),
{
    inflector::cases::titlecase::to_title_case(s)
}

/// A contributor's name and pull requests, as text and a list.
pub open spec fn group_views(v: Seq<(String, Vec<Pull>)>) -> Seq<(Seq<char>, Seq<Pull>)> {
    v.map_values(|g: (String, Vec<Pull>)| (g.0@, g.1@))
}

/// The position of the group named `name`, if there is one.
pub open spec fn group_index(g: Seq<(Seq<char>, Seq<Pull>)>, name: Seq<char>) -> Option<int>
    decreases g.len(),
{
    if g.len() == 0 {
        None
    } else if g.last().0 == name {
        Some(g.len() - 1)
    } else {
        group_index(g.drop_last(), name)
    }
}

/// Pull requests grouped by their author's login in title case, groups in
/// order of first appearance, each group in the order of the list.
pub open spec fn grouped(s: Seq<Pull>) -> Seq<(Seq<char>, Seq<Pull>)>
    decreases s.len(),
{
    if s.len() == 0 {
        Seq::empty()
    } else {
        let r = grouped(s.drop_last());
        let name = title_case_of(s.last().user.login@);
        match group_index(r, name) {
            Some(k) => r.update(k, (name, r[k].1.push(s.last()))),
            None => r.push((name, seq![s.last()])),
        }
    }
}

/// Groups ordered by their number of pull requests.
pub open spec fn by_count() -> spec_fn((Seq<char>, Seq<Pull>), (Seq<char>, Seq<Pull>)) -> bool {
    |a: (Seq<char>, Seq<Pull>), b: (Seq<char>, Seq<Pull>)| a.1.len() <= b.1.len()
}

proof fn lemma_group_index(g: Seq<(Seq<char>, Seq<Pull>)>, name: Seq<char>)
    ensures
        group_index(g, name) matches Some(k) ==> 0 <= k < g.len() && g[k].0 == name,
    decreases g.len(),
{
    if g.len() > 0 && g.last().0 != name {
        lemma_group_index(g.drop_last(), name);
    }
}

fn find_group(g: &Vec<(String, Vec<Pull>)>, name: &str) -> (r: Option<usize>)
    ensures
        match r {
            Some(k) => group_index(group_views(g@), name@) == Some(k as int) && k < g@.len(),
            None => group_index(group_views(g@), name@) is None,
        },
{
    let mut j: usize = g.len();
    let ghost gv = group_views(g@);
    assert(gv.subrange(0, j as int) == gv);
    while j > 0
        invariant
            j <= g@.len(),
            gv == group_views(g@),
            group_index(gv, name@) == group_index(gv.subrange(0, j as int), name@),
        decreases j,
    {
        let ghost pre = gv.subrange(0, j as int);
        assert(pre.last() == (g@[j - 1].0@, g@[j - 1].1@));
        assert(pre.drop_last() == gv.subrange(0, j - 1));
        if str_eq(g[j - 1].0.as_str(), name) {
            return Some(j - 1);
        }
        j = j - 1;
    }
    None
}

/// Groups stably ordered by their number of pull requests.
fn sort_groups(v: Vec<(String, Vec<Pull>)>) -> (r: Vec<(String, Vec<Pull>)>)
    ensures
        group_views(r@) == sort_seq(group_views(v@), by_count()),
{
    let ghost orig = group_views(v@);
    let ghost le = by_count();
    let n = v.len();
    let mut rest = v;
    let mut out: Vec<(String, Vec<Pull>)> = Vec::new();
    let mut i: usize = 0;
    while rest.len() > 0
        invariant
            n == orig.len(),
            i <= n,
            group_views(rest@) == orig.subrange(i as int, n as int),
            group_views(out@) == sort_seq(orig.subrange(0, i as int), le),
            le == by_count(),
        decreases rest@.len(),
    {
        let ghost rv = group_views(rest@);
        let x = rest.remove(0);
        let ghost xv = (x.0@, x.1@);
        assert(rv[0] == xv);
        assert(group_views(rest@) == rv.drop_first());
        let k = x.1.len();
        let mut j = out.len();
        let ghost ov = group_views(out@);
        assert(ov.subrange(0, j as int) == ov);
        while j > 0 && !(out[j - 1].1.len() <= k)
            invariant
                j <= out@.len(),
                ov == group_views(out@),
                insert_pos(ov, xv, le) == insert_pos(ov.subrange(0, j as int), xv, le),
                k == xv.1.len(),
                le == by_count(),
            decreases j,
        {
            assert(ov.subrange(0, j as int).drop_last() == ov.subrange(0, j - 1));
            assert(ov.subrange(0, j as int).last() == ov[j - 1]);
            j = j - 1;
        }
        proof {
            let pre = orig.subrange(0, i + 1);
            assert(pre.drop_last() == orig.subrange(0, i as int));
            assert(pre.last() == xv);
            assert(rv.drop_first() == orig.subrange(i + 1, n as int));
        }
        let ghost before = out@;
        out.insert(j, x);
        assert(group_views(out@) == group_views(before).insert(j as int, xv));
        i = i + 1;
    }
    assert(orig.subrange(0, n as int) == orig);
    out
}

/// The pull requests of a repository grouped by contributor (login in
/// title case), the groups ordered by ascending number of pull requests;
/// groups of equal size keep the order of first appearance.
pub fn extract_and_sort_contributors(repo: Repo) -> (r: Vec<(String, Vec<Pull>)>)
    requires
        repo.pulls is Some,
    ensures
        group_views(r@) == sort_seq(grouped(repo.pulls.unwrap()@), by_count()),
{
    let pulls = repo.pulls.unwrap();
    let ghost orig = pulls@;
    let n = pulls.len();
    let mut rest = pulls;
    let mut groups: Vec<(String, Vec<Pull>)> = Vec::new();
    let mut i: usize = 0;
    while rest.len() > 0
        invariant
            n == orig.len(),
            i <= n,
            rest@ == orig.subrange(i as int, n as int),
            group_views(groups@) == grouped(orig.subrange(0, i as int)),
        decreases rest@.len(),
    {
        let pull = rest.remove(0);
        proof {
            let pre = orig.subrange(0, i + 1);
            assert(pre.drop_last() == orig.subrange(0, i as int));
            assert(pre.last() == pull);
            assert(rest@ == orig.subrange(i + 1, n as int));
        }
        let name = title_case(pull.user.login.as_str());
        let ghost gv = group_views(groups@);
        match find_group(&groups, name.as_str()) {
            Some(k) => {
                proof {
                    lemma_group_index(gv, name@);
                }
                let ghost g0 = groups@;
                let (gname, mut members) = groups.remove(k);
                assert(gname@ == gv[k as int].0 && members@ == gv[k as int].1);
                members.push(pull);
                groups.insert(k, (gname, members));
                assert(groups@ == g0.update(k as int, (gname, members)));
                assert(group_views(groups@) == gv.update(
                    k as int,
                    (name@, gv[k as int].1.push(pull)),
                ));
            },
            None => {
                let mut members: Vec<Pull> = Vec::new();
                members.push(pull);
                let ghost before = groups@;
                groups.push((name, members));
                assert(group_views(groups@) == gv.push((name@, seq![pull])));
            },
        }
        i = i + 1;
    }
    assert(orig.subrange(0, n as int) == orig);
    sort_groups(groups)
}

/// The table rows of one contributor's pull requests, latest last: the list
/// comes newest first, so it is read backwards.
pub open spec fn contributor_rows(name: Seq<char>, pulls: Seq<Pull>) -> Seq<char>
    decreases pulls.len(),
{
    if pulls.len() == 0 {
        Seq::empty()
    } else {
        "\n| "@ + pulls.last().link_spec() + " | "@ + name + " |"@ + contributor_rows(
            name,
            pulls.drop_last(),
        )
    }
}

/// The table rows of all groups, in order.
pub open spec fn group_rows(g: Seq<(Seq<char>, Seq<Pull>)>) -> Seq<char>
    decreases g.len(),
{
    if g.len() == 0 {
        Seq::empty()
    } else {
        group_rows(g.drop_last()) + contributor_rows(g.last().0, g.last().1)
    }
}

/// The report section of a repository: a heading with its last release, and
/// when it has pull requests a table of them by contributor. A repository
/// whose last release is unknown gives nothing.
pub open spec fn repo_section(repo: Repo) -> Seq<char> {
    match repo.last_release {
        None => Seq::empty(),
        Some(rel) => "\n\n## Closed Pull Requests for "@ + repo.name@ + "\n\n### Last Release: "@
            + rel.describe_spec() + "\n"@ + match repo.pulls {
            Some(p) => "\n| Pull Request | Contributor |\n| --- | --- |"@ + group_rows(
                sort_seq(grouped(p@), by_count()),
            ),
            None => Seq::empty(),
        },
    }
}

fn append_contributor_rows(out: &mut String, name: &String, pulls: &Vec<Pull>)
    ensures
        final(out)@ == old(out)@ + contributor_rows(name@, pulls@),
{
    let mut j: usize = pulls.len();
    assert(pulls@.subrange(0, j as int) == pulls@);
    while j > 0
        invariant
            j <= pulls@.len(),
            old(out)@ + contributor_rows(name@, pulls@) == out@ + contributor_rows(
                name@,
                pulls@.subrange(0, j as int),
            ),
        decreases j,
    {
        let ghost pre = pulls@.subrange(0, j as int);
        assert(pre.last() == pulls@[j - 1]);
        assert(pre.drop_last() == pulls@.subrange(0, j - 1));
        out.append("\n| ");
        let l = pulls[j - 1].link();
        out.append(l.as_str());
        out.append(" | ");
        out.append(name.as_str());
        out.append(" |");
        j = j - 1;
    }
    assert(contributor_rows(name@, pulls@.subrange(0, 0)) == Seq::<char>::empty());
}

/// The report section of a repository.
pub fn format_repo(repo: Repo) -> (r: String)
    ensures
        r@ == repo_section(repo),
{
    let ghost orig = repo;
    let mut output = String::new();
    match &repo.last_release {
        None => {
            return output;
        },
        Some(rel) => {
            output.append("\n\n## Closed Pull Requests for ");
            output.append(repo.name.as_str());
            output.append("\n\n### Last Release: ");
            let d = rel.describe();
            output.append(d.as_str());
            output.append("\n");
        },
    }
    if repo.pulls.is_some() {
        output.append("\n| Pull Request | Contributor |\n| --- | --- |");
        let sorted_contributors = extract_and_sort_contributors(repo);
        let ghost gv = group_views(sorted_contributors@);
        let ghost start = output@;
        let mut i: usize = 0;
        while i < sorted_contributors.len()
            invariant
                i <= sorted_contributors@.len(),
                gv == group_views(sorted_contributors@),
                output@ == start + group_rows(gv.subrange(0, i as int)),
            decreases sorted_contributors@.len() - i,
        {
            let ghost pre = gv.subrange(0, i + 1);
            assert(pre.drop_last() == gv.subrange(0, i as int));
            assert(pre.last() == (sorted_contributors@[i as int].0@, sorted_contributors@[i as int].1@));
            append_contributor_rows(
                &mut output,
                &sorted_contributors[i].0,
                &sorted_contributors[i].1,
            );
            i = i + 1;
        }
        assert(gv.subrange(0, gv.len() as int) == gv);
    }
    output
}

} // verus!
