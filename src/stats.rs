//! Statistics over closed issues and pull requests: lifetimes, counts and
//! contributors, and how the statistics of two runs combine.

use crate::errors::{is_no_items, lemma_no_items_messages, Error, ErrorKind, Result};
use crate::extract::{
    body, clean_body, clean_title, client_details, client_text, feature_title, is_feature_title,
    module_details, module_list, title,
};
use crate::pull_list::pr_iterator::opt_view;
use crate::zoho_bugs::contains_string;
use crate::text::{decimal, join, join_seq, push_decimal, seq_le, str_eq, str_le, views};
use vstd::arithmetic::div_mod::lemma_div_multiples_vanish_quotient;
use vstd::prelude::*;

verus! {

/// Seconds in a day.
pub const SECS_PER_DAY: u64 = 86400;

/// Seconds in an hour.
pub const SECS_PER_HOUR: u64 = 3600;

/// One part of a duration, such as `3 weeks`, when its count is positive.
pub open spec fn part(n: int, unit: Seq<char>) -> Seq<Seq<char>> {
    if n > 0 {
        seq![decimal(n as nat) + unit]
    } else {
        Seq::empty()
    }
}

/// The parts of a duration of `secs` seconds: years of 365 days, months of
/// 30 days, weeks, days and hours, each left out when zero. A duration
/// that is not positive has no parts.
pub open spec fn duration_parts(secs: int) -> Seq<Seq<char>> {
    if secs <= 0 {
        Seq::empty()
    } else {
        let days = secs / 86400;
        let hours = secs / 3600;
        part(days / 365, " years"@) + part((days % 365) / 30, " months"@) + part(
            (days % 30) / 7,
            " weeks"@,
        ) + part(days % 7, " days"@) + part(hours % 24, " hours"@)
    }
}

/// A duration in words, its parts joined with commas.
pub open spec fn duration_text(secs: int) -> Seq<char> {
    join_seq(duration_parts(secs), ", "@)
}

fn push_part(parts: &mut Vec<String>, n: u64, unit: &str)
    ensures
        views(final(parts)@) == views(old(parts)@) + part(n as int, unit@),
{
    if n > 0 {
        let mut s = String::new();
        push_decimal(&mut s, n);
        s.append(unit);
        let ghost before = parts@;
        parts.push(s);
        assert(views(before.push(s)) == views(before) + seq![s@]);
    } else {
        assert(views(old(parts)@) + part(n as int, unit@) == views(old(parts)@));
    }
}

/// A duration of `secs` seconds in words, such as `1 months, 2 days, 3 hours`.
pub fn duration_to_string(secs: i64) -> (r: String)
    ensures
        r@ == duration_text(secs as int),
{
    let mut parts: Vec<String> = Vec::new();
    if secs > 0 {
        let s = secs as u64;
        let days = s / SECS_PER_DAY;
        let hours = s / SECS_PER_HOUR;
        assert(views(parts@) == Seq::<Seq<char>>::empty());
        push_part(&mut parts, days / 365, " years");
        push_part(&mut parts, (days % 365) / 30, " months");
        push_part(&mut parts, (days % 30) / 7, " weeks");
        push_part(&mut parts, days % 7, " days");
        push_part(&mut parts, hours % 24, " hours");
        assert(views(parts@) == duration_parts(secs as int));
    } else {
        assert(views(parts@) == duration_parts(secs as int));
    }
    join(&parts, ", ")
}

/// When an item was opened and, if it was, closed: seconds since the epoch.
#[derive(Clone, Copy)]
pub struct Lifetime {
    pub created_at: i64,
    pub closed_at: Option<i64>,
}

/// The lifetime of one item in seconds: none when it is still open or when
/// the difference does not fit in 64 bits.
pub open spec fn lifetime_of(l: Lifetime) -> Option<int> {
    match l.closed_at {
        Some(c) => {
            let d = c - l.created_at;
            if i64::MIN <= d <= i64::MAX {
                Some(d)
            } else {
                None
            }
        },
        None => None,
    }
}

/// The sum of the lifetimes of the items that have one.
pub open spec fn lifetime_sum(items: Seq<Lifetime>) -> int
    decreases items.len(),
{
    if items.len() == 0 {
        0
    } else {
        lifetime_sum(items.drop_last()) + match lifetime_of(items.last()) {
            Some(d) => d,
            None => 0,
        }
    }
}

/// `a / b` rounded toward zero, for `b > 0`.
pub open spec fn div_trunc(a: int, b: int) -> int {
    if a >= 0 {
        a / b
    } else {
        -((-a) / b)
    }
}

/// The largest magnitude of one lifetime: 2^63.
pub open spec fn max_lifetime() -> int {
    0x8000_0000_0000_0000
}

proof fn lemma_sum_bounds(items: Seq<Lifetime>)
    ensures
        -(items.len() * max_lifetime()) <= lifetime_sum(items) <= items.len() * (max_lifetime() - 1),
    decreases items.len(),
{
    if items.len() > 0 {
        lemma_sum_bounds(items.drop_last());
        let n = items.len() as int;
        assert((n - 1) * max_lifetime() + max_lifetime() == n * max_lifetime()) by (nonlinear_arith);
        assert((n - 1) * (max_lifetime() - 1) + (max_lifetime() - 1) == n * (max_lifetime() - 1))
            by (nonlinear_arith);
    }
}

proof fn lemma_quotient_bounds(s: int, n: int)
    requires
        n > 0,
        -(n * max_lifetime()) <= s <= n * (max_lifetime() - 1),
    ensures
        -max_lifetime() <= div_trunc(s, n) <= max_lifetime() - 1,
{
    if s >= 0 {
        assert(s / n <= max_lifetime() - 1) by (nonlinear_arith)
            requires
                n > 0,
                0 <= s <= n * (max_lifetime() - 1),
        ;
    } else {
        assert((-s) / n <= max_lifetime()) by (nonlinear_arith)
            requires
                n > 0,
                0 < -s <= n * max_lifetime(),
        ;
    }
}

/// The sum of the lifetimes of the items that have one.
pub fn total_lifetime(items: &Vec<Lifetime>) -> (r: i128)
    ensures
        r == lifetime_sum(items@),
{
    let mut sum: i128 = 0;
    let mut i: usize = 0;
    while i < items.len()
        invariant
            i <= items@.len(),
            sum == lifetime_sum(items@.subrange(0, i as int)),
        decreases items@.len() - i,
    {
        let ghost pre = items@.subrange(0, i + 1);
        assert(pre.drop_last() == items@.subrange(0, i as int));
        proof {
            lemma_sum_bounds(pre);
            assert(pre.len() <= usize::MAX);
            assert((i + 1) * max_lifetime() <= 0x1_0000_0000_0000_0000 * max_lifetime())
                by (nonlinear_arith)
                requires
                    i + 1 <= 0x1_0000_0000_0000_0000,
            ;
            assert((i + 1) * (max_lifetime() - 1) <= 0x1_0000_0000_0000_0000 * (max_lifetime() - 1))
                by (nonlinear_arith)
                requires
                    i + 1 <= 0x1_0000_0000_0000_0000,
            ;
            assert(pre.last() == items@[i as int]);
        }
        match items[i].closed_at {
            Some(c) => {
                let d = c as i128 - items[i].created_at as i128;
                if i64::MIN as i128 <= d && d <= i64::MAX as i128 {
                    assert(lifetime_sum(pre) == sum + d);
                    sum = sum + d;
                }
            },
            None => {},
        }
        i = i + 1;
    }
    assert(items@.subrange(0, items@.len() as int) == items@);
    sum
}

/// The mean lifetime in seconds, rounded toward zero, of a number of items
/// whose lifetimes sum to `total`; none for no items.
pub open spec fn mean_lifetime(total: int, count: int) -> Option<int> {
    if count == 0 {
        None
    } else {
        Some(div_trunc(total, count))
    }
}

/// `total / count` rounded toward zero.
pub fn mean_of(total: i128, count: usize) -> (r: i64)
    requires
        count > 0,
        -(count * max_lifetime()) <= total <= count * (max_lifetime() - 1),
    ensures
        r == div_trunc(total as int, count as int),
{
    proof {
        lemma_quotient_bounds(total as int, count as int);
    }
    if total >= 0 {
        (total / count as i128) as i64
    } else {
        let m = (0 - total) / count as i128;
        (0 - m) as i64
    }
}

/// The mean lifetime in seconds of all items, open ones counting in the
/// number of items but adding nothing; an error when there are no items.
pub fn average_seconds(items: &Vec<Lifetime>) -> (r: Result<i64>)
    ensures
        items@.len() == 0 <==> r is Err,
        r matches Err(e) ==> is_no_items(e.kind, "issues"@) && e.kind.message_spec()
            == "No issues found for this milestone"@,
        r matches Ok(v) ==> Some(v as int) == mean_lifetime(lifetime_sum(items@), items@.len() as int),
{
    if items.len() == 0 {
        let e = Error::from_kind(ErrorKind::NoItems(String::from_str("issues")));
        proof {
            lemma_no_items_messages(e.kind);
        }
        return Err(e);
    }
    let total = total_lifetime(items);
    proof {
        lemma_sum_bounds(items@);
    }
    Ok(mean_of(total, items.len()))
}

/// The mean lifetime of all items in words; an error when there are none.
pub fn average_lifetime(items: &Vec<Lifetime>) -> (r: Result<String>)
    ensures
        items@.len() == 0 <==> r is Err,
        r matches Err(e) ==> is_no_items(e.kind, "issues"@) && e.kind.message_spec()
            == "No issues found for this milestone"@,
        r matches Ok(s) ==> s@ == duration_text(
            div_trunc(lifetime_sum(items@), items@.len() as int),
        ),
{
    match average_seconds(items) {
        Ok(v) => Ok(duration_to_string(v)),
        Err(e) => Err(e),
    }
}

/// The document format that a table is written for.
pub enum OutputType {
    Latex,
    Markdown,
}

/// The closed issues of a milestone in their three groups, the number of
/// issues and their mean lifetime, and per module the number of features
/// and bugs (`(module, features, bugs)`, ordered by module name, the
/// "Total" row of the column sums last).
pub struct IssueData {
    /// `(number, title, clients)` of issues raised by clients.
    pub client_requests: Vec<(u64, String, String)>,
    /// `(number, title, author)` of features.
    pub features: Vec<(u64, String, String)>,
    /// `(number, title, author)` of the other issues.
    pub bugfixes: Vec<(u64, String, String)>,
    /// The number of issues that the mean lifetime is taken over.
    pub issue_count: usize,
    /// The mean lifetime in seconds.
    pub average_lifetime: i64,
    pub module_stats: Vec<(String, usize, usize)>,
}

/// `a + b`, or the largest `usize` when that is larger.
pub open spec fn sat_add(a: int, b: int) -> int {
    if a + b > usize::MAX {
        usize::MAX as int
    } else {
        a + b
    }
}

fn add_sat(a: usize, b: usize) -> (r: usize)
    ensures
        r == sat_add(a as int, b as int),
{
    if a > usize::MAX - b {
        usize::MAX
    } else {
        a + b
    }
}

/// One `(number, title, detail)` entry as a table row.
pub open spec fn entry_row(e: (u64, String, String), ot: OutputType) -> Seq<char> {
    match ot {
        OutputType::Latex => decimal(e.0 as nat) + " & "@ + e.1@ + " & "@ + e.2@,
        OutputType::Markdown => "| "@ + decimal(e.0 as nat) + " | "@ + e.1@ + " | "@ + e.2@
            + " |"@,
    }
}

/// The line break between rows.
pub open spec fn row_break(ot: OutputType) -> Seq<char> {
    match ot {
        OutputType::Latex => " \\\\\n"@,
        OutputType::Markdown => "\n"@,
    }
}

/// The rows of `(number, title, detail)` entries, joined by line breaks.
pub open spec fn entry_table(v: Seq<(u64, String, String)>, ot: OutputType) -> Seq<char> {
    join_seq(v.map_values(|e: (u64, String, String)| entry_row(e, ot)), row_break(ot))
}

/// A module's row: name, features, bugs and their sum, in bold for the row
/// named "Total".
pub open spec fn module_row(name: Seq<char>, f: nat, b: nat, ot: OutputType) -> Seq<char> {
    let t = sat_add(f as int, b as int) as nat;
    match ot {
        OutputType::Latex => if name == "Total"@ {
            "\\textbf{"@ + name + "} & \\textbf{"@ + decimal(f) + "} & \\textbf{"@ + decimal(b)
                + "} & \\textbf{"@ + decimal(t) + "}"@
        } else {
            name + " & "@ + decimal(f) + " & "@ + decimal(b) + " & "@ + decimal(t)
        },
        OutputType::Markdown => if name == "Total"@ {
            "| **"@ + name + "** | **"@ + decimal(f) + "** | **"@ + decimal(b) + "** | **"@
                + decimal(t) + "** |"@
        } else {
            "| "@ + name + " | "@ + decimal(f) + " | "@ + decimal(b) + " | "@ + decimal(t) + " |"@
        },
    }
}

/// The rows of the module table, one per stored row.
pub open spec fn module_rows(v: Seq<(String, usize, usize)>, ot: OutputType) -> Seq<Seq<char>> {
    v.map_values(|m: (String, usize, usize)| module_row(m.0@, m.1 as nat, m.2 as nat, ot))
}

/// The sum of the feature counts of rows, saturating.
pub open spec fn column_features(s: Seq<(Seq<char>, int, int)>) -> int
    decreases s.len(),
{
    if s.len() == 0 {
        0
    } else {
        sat_add(column_features(s.drop_last()), s.last().1)
    }
}

/// The sum of the bug counts of rows, saturating.
pub open spec fn column_bugs(s: Seq<(Seq<char>, int, int)>) -> int
    decreases s.len(),
{
    if s.len() == 0 {
        0
    } else {
        sat_add(column_bugs(s.drop_last()), s.last().2)
    }
}

/// Module rows followed by the "Total" row of their column sums.
pub open spec fn with_total(s: Seq<(Seq<char>, int, int)>) -> Seq<(Seq<char>, int, int)> {
    s.push(("Total"@, column_features(s), column_bugs(s)))
}

/// Rows without a last row named "Total".
pub open spec fn without_total(s: Seq<(Seq<char>, int, int)>) -> Seq<(Seq<char>, int, int)> {
    if s.len() > 0 && s.last().0 == "Total"@ {
        s.drop_last()
    } else {
        s
    }
}

/// Appends the "Total" row of the column sums.
pub fn push_total(v: &mut Vec<(String, usize, usize)>)
    ensures
        row_views(final(v)@) == with_total(row_views(old(v)@)),
{
    let mut f: usize = 0;
    let mut b: usize = 0;
    let mut i: usize = 0;
    let ghost rv = row_views(v@);
    while i < v.len()
        invariant
            i <= v@.len(),
            v@ == old(v)@,
            rv == row_views(v@),
            f == column_features(rv.subrange(0, i as int)),
            b == column_bugs(rv.subrange(0, i as int)),
        decreases v@.len() - i,
    {
        let ghost pre = rv.subrange(0, i + 1);
        assert(pre.drop_last() == rv.subrange(0, i as int));
        assert(pre.last() == (v@[i as int].0@, v@[i as int].1 as int, v@[i as int].2 as int));
        f = add_sat(f, v[i].1);
        b = add_sat(b, v[i].2);
        i = i + 1;
    }
    assert(rv.subrange(0, rv.len() as int) == rv);
    let ghost before = v@;
    v.push((String::from_str("Total"), f, b));
    assert(row_views(v@) == row_views(before).push(("Total"@, f as int, b as int)));
}

/// Takes off a last row named "Total".
pub fn drop_total(v: &mut Vec<(String, usize, usize)>)
    ensures
        row_views(final(v)@) == without_total(row_views(old(v)@)),
{
    let n = v.len();
    if n > 0 && str_eq(v[n - 1].0.as_str(), "Total") {
        let ghost before = v@;
        let _ = v.pop();
        assert(row_views(v@) == row_views(before).drop_last());
    }
}

fn push_entry_row(out: &mut String, e: &(u64, String, String), ot: &OutputType)
    ensures
        final(out)@ == old(out)@ + entry_row(*e, *ot),
{
    match ot {
        OutputType::Latex => {
            push_decimal(out, e.0);
            out.append(" & ");
            out.append(e.1.as_str());
            out.append(" & ");
            out.append(e.2.as_str());
        },
        OutputType::Markdown => {
            out.append("| ");
            push_decimal(out, e.0);
            out.append(" | ");
            out.append(e.1.as_str());
            out.append(" | ");
            out.append(e.2.as_str());
            out.append(" |");
        },
    }
}

fn break_text(ot: &OutputType) -> (r: &'static str)
    ensures
        r@ == row_break(*ot),
{
    match ot {
        OutputType::Latex => " \\\\\n",
        OutputType::Markdown => "\n",
    }
}

fn entry_table_of(v: &Vec<(u64, String, String)>, ot: OutputType) -> (r: String)
    ensures
        r@ == entry_table(v@, ot),
{
    let ghost rows = v@.map_values(|e: (u64, String, String)| entry_row(e, ot));
    let mut out = String::new();
    let mut i: usize = 0;
    while i < v.len()
        invariant
            i <= v@.len(),
            rows == v@.map_values(|e: (u64, String, String)| entry_row(e, ot)),
            out@ == join_seq(rows.subrange(0, i as int), row_break(ot)),
        decreases v@.len() - i,
    {
        let ghost pre = rows.subrange(0, i + 1);
        assert(pre.drop_last() == rows.subrange(0, i as int));
        assert(pre.last() == entry_row(v@[i as int], ot));
        if i > 0 {
            out.append(break_text(&ot));
        }
        push_entry_row(&mut out, &v[i], &ot);
        i = i + 1;
    }
    assert(rows.subrange(0, v@.len() as int) == rows);
    out
}

fn push_module_row(out: &mut String, name: &str, f: usize, b: usize, ot: &OutputType)
    ensures
        final(out)@ == old(out)@ + module_row(name@, f as nat, b as nat, *ot),
{
    let t = add_sat(f, b);
    let total = str_eq(name, "Total");
    match ot {
        OutputType::Latex => {
            if total {
                out.append("\\textbf{");
                out.append(name);
                out.append("} & \\textbf{");
                push_decimal(out, f as u64);
                out.append("} & \\textbf{");
                push_decimal(out, b as u64);
                out.append("} & \\textbf{");
                push_decimal(out, t as u64);
                out.append("}");
            } else {
                out.append(name);
                out.append(" & ");
                push_decimal(out, f as u64);
                out.append(" & ");
                push_decimal(out, b as u64);
                out.append(" & ");
                push_decimal(out, t as u64);
            }
        },
        OutputType::Markdown => {
            if total {
                out.append("| **");
                out.append(name);
                out.append("** | **");
                push_decimal(out, f as u64);
                out.append("** | **");
                push_decimal(out, b as u64);
                out.append("** | **");
                push_decimal(out, t as u64);
                out.append("** |");
            } else {
                out.append("| ");
                out.append(name);
                out.append(" | ");
                push_decimal(out, f as u64);
                out.append(" | ");
                push_decimal(out, b as u64);
                out.append(" | ");
                push_decimal(out, t as u64);
                out.append(" |");
            }
        },
    }
}

impl IssueData {
    /// The table rows of the issues raised by clients.
    pub fn client_requests(&self, output_type: OutputType) -> (r: String)
        ensures
            r@ == entry_table(self.client_requests@, output_type),
    {
        entry_table_of(&self.client_requests, output_type)
    }

    /// The table rows of the features.
    pub fn features(&self, output_type: OutputType) -> (r: String)
        ensures
            r@ == entry_table(self.features@, output_type),
    {
        entry_table_of(&self.features, output_type)
    }

    /// The table rows of the other issues.
    pub fn bugfixes(&self, output_type: OutputType) -> (r: String)
        ensures
            r@ == entry_table(self.bugfixes@, output_type),
    {
        entry_table_of(&self.bugfixes, output_type)
    }

    /// The rows of the module table, one per stored row; a row named
    /// "Total" is in bold.
    pub fn module_stats(&self, output_type: OutputType) -> (r: String)
        ensures
            r@ == join_seq(module_rows(self.module_stats@, output_type), row_break(output_type)),
    {
        let v = &self.module_stats;
        let ghost rows = module_rows(v@, output_type);
        let mut out = String::new();
        let mut i: usize = 0;
        while i < v.len()
            invariant
                i <= v@.len(),
                rows == module_rows(v@, output_type),
                out@ == join_seq(rows.subrange(0, i as int), row_break(output_type)),
            decreases v@.len() - i,
        {
            let ghost pre = rows.subrange(0, i + 1);
            assert(pre.drop_last() == rows.subrange(0, i as int));
            assert(pre.last() == module_row(
                v@[i as int].0@,
                v@[i as int].1 as nat,
                v@[i as int].2 as nat,
                output_type,
            ));
            if i > 0 {
                out.append(break_text(&output_type));
            }
            push_module_row(&mut out, v[i].0.as_str(), v[i].1, v[i].2, &output_type);
            i = i + 1;
        }
        assert(rows.subrange(0, v@.len() as int) == rows);
        out
    }
}

/// The mean of two means over `n` and `m` items, weighted by the numbers of
/// items and rounded toward zero; zero when there are no items.
pub open spec fn weighted_mean(a: int, n: int, b: int, m: int) -> int {
    if n + m == 0 {
        0
    } else {
        div_trunc(a * n + b * m, n + m)
    }
}

proof fn lemma_weighted_term(x: int, k: int)
    requires
        -max_lifetime() <= x <= max_lifetime() - 1,
        0 <= k <= usize::MAX,
    ensures
        -(k * max_lifetime()) <= x * k <= k * (max_lifetime() - 1),
        k * max_lifetime() <= 0x8000_0000_0000_0000_0000_0000_0000_0000,
        k * (max_lifetime() - 1) <= i128::MAX,
        i128::MIN <= x * k <= i128::MAX,
{
    assert(-(k * max_lifetime()) <= x * k <= k * (max_lifetime() - 1)) by (nonlinear_arith)
        requires
            -max_lifetime() <= x <= max_lifetime() - 1,
            k >= 0,
    ;
    assert(k * max_lifetime() <= 0x1_0000_0000_0000_0000 * max_lifetime()) by (nonlinear_arith)
        requires
            k <= 0x1_0000_0000_0000_0000,
    ;
    assert(k * (max_lifetime() - 1) <= 0x1_0000_0000_0000_0000 * (max_lifetime() - 1))
        by (nonlinear_arith)
        requires
            0 <= k <= 0x1_0000_0000_0000_0000,
    ;
}

fn combine_means(a: i64, n: usize, b: i64, m: usize) -> (r: i64)
    requires
        n + m <= usize::MAX,
    ensures
        r == weighted_mean(a as int, n as int, b as int, m as int),
{
    if n + m == 0 {
        return 0;
    }
    let c = n + m;
    proof {
        let (ai, bi, ni, mi) = (a as int, b as int, n as int, m as int);
        lemma_weighted_term(ai, ni);
        lemma_weighted_term(bi, mi);
        lemma_weighted_term(0, ni + mi);
        assert(ni * max_lifetime() + mi * max_lifetime() == (ni + mi) * max_lifetime())
            by (nonlinear_arith);
        assert(ni * (max_lifetime() - 1) + mi * (max_lifetime() - 1) == (ni + mi) * (max_lifetime()
            - 1)) by (nonlinear_arith);
    }
    let pa: i128 = a as i128 * n as i128;
    let pb: i128 = b as i128 * m as i128;
    assert(pa as int + pb as int <= (n + m) * (max_lifetime() - 1));
    assert(pa as int + pb as int >= -((n + m) * max_lifetime()));
    let s: i128 = pa + pb;
    mean_of(s, c)
}

/// Two equal-sized groups combine to the plain mean of their means, and the
/// weights make the combination symmetric.
pub proof fn lemma_weighted_mean(a: int, n: int, b: int, m: int)
    requires
        n >= 0,
        m >= 0,
    ensures
        n == m && n > 0 ==> weighted_mean(a, n, b, m) == div_trunc(a + b, 2),
        weighted_mean(a, n, b, m) == weighted_mean(b, m, a, n),
{
    if n == m && n > 0 {
        let s = a + b;
        assert(a * n + b * n == n * (a + b)) by (nonlinear_arith);
        assert(n + n == n * 2);
        if s >= 0 {
            lemma_div_multiples_vanish_quotient(n, s, 2);
        } else {
            lemma_div_multiples_vanish_quotient(n, -s, 2);
            assert(-(n * s) == n * (-s)) by (nonlinear_arith);
        }
    }
}

/// Module rows as names and counts.
pub open spec fn row_views(v: Seq<(String, usize, usize)>) -> Seq<(Seq<char>, int, int)> {
    v.map_values(|e: (String, usize, usize)| (e.0@, e.1 as int, e.2 as int))
}

/// Rows ordered by name adding `f` features and `b` bugs to module `name`:
/// its row when there is one, else a new row in name order.
pub open spec fn add_row(s: Seq<(Seq<char>, int, int)>, name: Seq<char>, f: int, b: int) -> Seq<
    (Seq<char>, int, int),
>
    decreases s.len(),
{
    if s.len() == 0 {
        seq![(name, f, b)]
    } else if s[0].0 == name {
        seq![(name, sat_add(s[0].1, f), sat_add(s[0].2, b))] + s.drop_first()
    } else if seq_le(name, s[0].0) {
        seq![(name, f, b)] + s
    } else {
        seq![s[0]] + add_row(s.drop_first(), name, f, b)
    }
}

/// The rows of `a` with each row of `b` added in turn.
pub open spec fn merge_rows(a: Seq<(Seq<char>, int, int)>, b: Seq<(Seq<char>, int, int)>) -> Seq<
    (Seq<char>, int, int),
>
    decreases b.len(),
{
    if b.len() == 0 {
        a
    } else {
        merge_rows(add_row(a, b[0].0, b[0].1, b[0].2), b.drop_first())
    }
}

/// Adds `f` features and `b` bugs to module `name` in rows ordered by name.
pub fn add_module_row(v: &mut Vec<(String, usize, usize)>, name: String, f: usize, b: usize)
    ensures
        row_views(final(v)@) == add_row(row_views(old(v)@), name@, f as int, b as int),
{
    let ghost s0 = row_views(v@);
    let mut i: usize = 0;
    assert(s0.subrange(0, s0.len() as int) == s0);
    while i < v.len()
        invariant
            i <= v@.len(),
            v@ == old(v)@,
            s0 == row_views(v@),
            add_row(s0, name@, f as int, b as int) == s0.subrange(0, i as int) + add_row(
                s0.subrange(i as int, s0.len() as int),
                name@,
                f as int,
                b as int,
            ),
        decreases v@.len() - i,
    {
        let ghost rest = s0.subrange(i as int, s0.len() as int);
        assert(rest[0] == (v@[i as int].0@, v@[i as int].1 as int, v@[i as int].2 as int));
        assert(rest.drop_first() == s0.subrange(i + 1, s0.len() as int));
        if str_eq(v[i].0.as_str(), name.as_str()) {
            let (n, of, ob) = v.remove(i);
            let nf = add_sat(of, f);
            let nb = add_sat(ob, b);
            v.insert(i, (n, nf, nb));
            proof {
                let t = row_views(v@);
                assert(t == s0.subrange(0, i as int) + (seq![(name@, nf as int, nb as int)]
                    + rest.drop_first()));
            }
            return;
        }
        if str_le(name.as_str(), v[i].0.as_str()) {
            v.insert(i, (name, f, b));
            proof {
                let t = row_views(v@);
                assert(t == s0.subrange(0, i as int) + (seq![(name@, f as int, b as int)] + rest));
            }
            return;
        }
        proof {
            assert(s0.subrange(0, i as int) + (seq![rest[0]] + add_row(
                rest.drop_first(),
                name@,
                f as int,
                b as int,
            )) == s0.subrange(0, i + 1) + add_row(
                s0.subrange(i + 1, s0.len() as int),
                name@,
                f as int,
                b as int,
            ));
        }
        i = i + 1;
    }
    v.push((name, f, b));
    proof {
        assert(s0.subrange(i as int, s0.len() as int).len() == 0);
        assert(row_views(v@) == s0 + seq![(name@, f as int, b as int)]);
    }
}

impl IssueData {
    /// The data of two runs together: the groups concatenated, the numbers
    /// of issues added, the mean lifetimes weighted by those numbers, and the
    /// module rows (without their "Total" rows) added up by module, followed
    /// by the "Total" row of the combined columns.
    pub fn combine(self, other: IssueData) -> (r: IssueData)
        requires
            self.issue_count + other.issue_count <= usize::MAX,
        ensures
            r.client_requests@ == self.client_requests@ + other.client_requests@,
            r.features@ == self.features@ + other.features@,
            r.bugfixes@ == self.bugfixes@ + other.bugfixes@,
            r.issue_count == self.issue_count + other.issue_count,
            r.average_lifetime == weighted_mean(
                self.average_lifetime as int,
                self.issue_count as int,
                other.average_lifetime as int,
                other.issue_count as int,
            ),
            row_views(r.module_stats@) == with_total(
                merge_rows(
                    without_total(row_views(self.module_stats@)),
                    without_total(row_views(other.module_stats@)),
                ),
            ),
    {
        let IssueData {
            mut client_requests,
            mut features,
            mut bugfixes,
            issue_count,
            average_lifetime,
            mut module_stats,
        } = self;
        let IssueData {
            client_requests: mut cr,
            features: mut fs,
            bugfixes: mut bf,
            issue_count: n2,
            average_lifetime: a2,
            module_stats: mut ms2,
        } = other;
        drop_total(&mut module_stats);
        drop_total(&mut ms2);
        client_requests.append(&mut cr);
        features.append(&mut fs);
        bugfixes.append(&mut bf);
        let avg = combine_means(average_lifetime, issue_count, a2, n2);
        let ghost b = row_views(ms2@);
        let ghost a = row_views(module_stats@);
        let mut rest = ms2;
        let mut k: usize = 0;
        let total: usize = rest.len();
        assert(b.subrange(0, b.len() as int) == b);
        while rest.len() > 0
            invariant
                k <= total,
                total == b.len(),
                total == ms2@.len(),
                b == row_views(ms2@),
                rest@ == ms2@.subrange(k as int, total as int),
                merge_rows(a, b) == merge_rows(
                    row_views(module_stats@),
                    b.subrange(k as int, total as int),
                ),
            decreases rest@.len(),
        {
            let (name, f, bg) = rest.remove(0);
            proof {
                let bs = b.subrange(k as int, total as int);
                assert(bs[0] == (name@, f as int, bg as int));
                assert(bs.drop_first() == b.subrange(k + 1, total as int));
                assert(rest@ == ms2@.subrange(k + 1, total as int));
            }
            add_module_row(&mut module_stats, name, f, bg);
            k = k + 1;
        }
        assert(b.subrange(total as int, total as int).len() == 0);
        push_total(&mut module_stats);
        IssueData {
            client_requests,
            features,
            bugfixes,
            issue_count: issue_count + n2,
            average_lifetime: avg,
            module_stats,
        }
    }
}

/// A closed issue as the report reads it.
pub struct IssueSummary {
    pub number: u64,
    pub title: String,
    pub body: Option<String>,
    /// The login of the issue's author.
    pub login: String,
    pub lifetime: Lifetime,
}

/// `(number, title, detail)` entries as numbers and texts.
pub open spec fn entry_views(v: Seq<(u64, String, String)>) -> Seq<(u64, Seq<char>, Seq<char>)> {
    v.map_values(|e: (u64, String, String)| (e.0, e.1@, e.2@))
}

/// The report title of an issue.
pub open spec fn title_of(i: IssueSummary) -> Seq<char> {
    clean_title(i.title@)
}

/// The clients that an issue names, if any.
pub open spec fn clients_of(i: IssueSummary) -> Option<Seq<char>> {
    client_text(clean_body(opt_view(i.body)))
}

/// Whether an issue is a feature.
pub open spec fn feature_of(i: IssueSummary) -> bool {
    is_feature_title(title_of(i))
}

/// The issues raised by clients, in order.
pub open spec fn requests_of(s: Seq<IssueSummary>) -> Seq<(u64, Seq<char>, Seq<char>)>
    decreases s.len(),
{
    if s.len() == 0 {
        Seq::empty()
    } else {
        let r = requests_of(s.drop_last());
        match clients_of(s.last()) {
            Some(c) => r.push((s.last().number, title_of(s.last()), c)),
            None => r,
        }
    }
}

/// The features not raised by clients, in order, with their authors.
pub open spec fn features_of(s: Seq<IssueSummary>) -> Seq<(u64, Seq<char>, Seq<char>)>
    decreases s.len(),
{
    if s.len() == 0 {
        Seq::empty()
    } else {
        let r = features_of(s.drop_last());
        if clients_of(s.last()) is None && feature_of(s.last()) {
            r.push((s.last().number, title_of(s.last()), s.last().login@))
        } else {
            r
        }
    }
}

/// The other issues, in order, with their authors.
pub open spec fn bugfixes_of(s: Seq<IssueSummary>) -> Seq<(u64, Seq<char>, Seq<char>)>
    decreases s.len(),
{
    if s.len() == 0 {
        Seq::empty()
    } else {
        let r = bugfixes_of(s.drop_last());
        if clients_of(s.last()) is None && !feature_of(s.last()) {
            r.push((s.last().number, title_of(s.last()), s.last().login@))
        } else {
            r
        }
    }
}

/// Rows with one feature (or one bug) counted for each of `ms` in turn.
pub open spec fn add_modules(acc: Seq<(Seq<char>, int, int)>, ms: Seq<Seq<char>>, feature: bool) -> Seq<
    (Seq<char>, int, int),
>
    decreases ms.len(),
{
    if ms.len() == 0 {
        acc
    } else {
        add_modules(
            add_row(acc, ms[0], if feature { 1 } else { 0 }, if feature { 0 } else { 1 }),
            ms.drop_first(),
            feature,
        )
    }
}

/// The module rows of a list of issues, ordered by module name.
pub open spec fn modules_of(s: Seq<IssueSummary>) -> Seq<(Seq<char>, int, int)>
    decreases s.len(),
{
    if s.len() == 0 {
        Seq::empty()
    } else {
        add_modules(
            modules_of(s.drop_last()),
            module_list(clean_body(opt_view(s.last().body))),
            feature_of(s.last()),
        )
    }
}

/// The lifetimes of a list of issues.
pub open spec fn issue_lifetimes(s: Seq<IssueSummary>) -> Seq<Lifetime> {
    s.map_values(|i: IssueSummary| i.lifetime)
}

fn push_entry(v: &mut Vec<(u64, String, String)>, n: u64, t: String, d: String)
    ensures
        entry_views(final(v)@) == entry_views(old(v)@).push((n, t@, d@)),
{
    let ghost before = v@;
    v.push((n, t, d));
    assert(entry_views(before.push((n, t, d))) == entry_views(before).push((n, t@, d@)));
}

/// The data of a milestone's closed issues: the groups (raised by clients;
/// else features by title; else the rest), the number of issues and their
/// mean lifetime, and the module rows followed by the "Total" row. No
/// issues is an error, since no mean lifetime exists.
pub fn issue_data(issues: &Vec<IssueSummary>) -> (r: Result<IssueData>)
    ensures
        issues@.len() == 0 <==> r is Err,
        r matches Err(e) ==> is_no_items(e.kind, "issues"@) && e.kind.message_spec()
            == "No issues found for this milestone"@,
        r matches Ok(d) ==> {
            &&& entry_views(d.client_requests@) == requests_of(issues@)
            &&& entry_views(d.features@) == features_of(issues@)
            &&& entry_views(d.bugfixes@) == bugfixes_of(issues@)
            &&& d.issue_count == issues@.len()
            &&& Some(d.average_lifetime as int) == mean_lifetime(
                lifetime_sum(issue_lifetimes(issues@)),
                issues@.len() as int,
            )
            &&& row_views(d.module_stats@) == with_total(modules_of(issues@))
        },
{
    let mut lifetimes: Vec<Lifetime> = Vec::new();
    let mut i: usize = 0;
    while i < issues.len()
        invariant
            i <= issues@.len(),
            lifetimes@ == issue_lifetimes(issues@.subrange(0, i as int)),
        decreases issues@.len() - i,
    {
        lifetimes.push(issues[i].lifetime);
        assert(issue_lifetimes(issues@.subrange(0, i + 1)) == issue_lifetimes(
            issues@.subrange(0, i as int),
        ).push(issues@[i as int].lifetime));
        i = i + 1;
    }
    assert(issues@.subrange(0, issues@.len() as int) == issues@);
    let average = match average_seconds(&lifetimes) {
        Ok(v) => v,
        Err(e) => {
            return Err(e);
        },
    };
    let mut client_requests: Vec<(u64, String, String)> = Vec::new();
    let mut features: Vec<(u64, String, String)> = Vec::new();
    let mut bugfixes: Vec<(u64, String, String)> = Vec::new();
    let mut module_stats: Vec<(String, usize, usize)> = Vec::new();
    let mut k: usize = 0;
    while k < issues.len()
        invariant
            k <= issues@.len(),
            entry_views(client_requests@) == requests_of(issues@.subrange(0, k as int)),
            entry_views(features@) == features_of(issues@.subrange(0, k as int)),
            entry_views(bugfixes@) == bugfixes_of(issues@.subrange(0, k as int)),
            row_views(module_stats@) == modules_of(issues@.subrange(0, k as int)),
        decreases issues@.len() - k,
    {
        let ghost pre = issues@.subrange(0, k + 1);
        assert(pre.drop_last() == issues@.subrange(0, k as int));
        assert(pre.last() == issues@[k as int]);
        let issue = &issues[k];
        let t = title(issue.title.as_str());
        let b = body(&issue.body);
        let clients = client_details(b.as_str());
        let modules = module_details(b.as_str()).unwrap();
        let feature = feature_title(t.as_str());
        let ghost acc0 = row_views(module_stats@);
        let mut j: usize = 0;
        assert(views(modules@).subrange(0, modules@.len() as int) == views(modules@));
        while j < modules.len()
            invariant
                j <= modules@.len(),
                add_modules(acc0, views(modules@), feature) == add_modules(
                    row_views(module_stats@),
                    views(modules@).subrange(j as int, modules@.len() as int),
                    feature,
                ),
            decreases modules@.len() - j,
        {
            let ghost rest = views(modules@).subrange(j as int, modules@.len() as int);
            assert(rest[0] == modules@[j as int]@);
            assert(rest.drop_first() == views(modules@).subrange(j + 1, modules@.len() as int));
            let (f, g): (usize, usize) = if feature {
                (1, 0)
            } else {
                (0, 1)
            };
            add_module_row(&mut module_stats, modules[j].clone(), f, g);
            j = j + 1;
        }
        assert(views(modules@).subrange(0, modules@.len() as int) == views(modules@));
        assert(views(modules@).subrange(modules@.len() as int, modules@.len() as int).len() == 0);
        match clients {
            Some(c) => push_entry(&mut client_requests, issue.number, t, c),
            None => {
                if feature {
                    push_entry(&mut features, issue.number, t, issue.login.clone());
                } else {
                    push_entry(&mut bugfixes, issue.number, t, issue.login.clone());
                }
            },
        }
        k = k + 1;
    }
    assert(issues@.subrange(0, issues@.len() as int) == issues@);
    push_total(&mut module_stats);
    Ok(
        IssueData {
            client_requests,
            features,
            bugfixes,
            issue_count: issues.len(),
            average_lifetime: average,
            module_stats,
        },
    )
}

/// Statistics of a milestone's closed pull requests: how many there are,
/// their mean lifetime in seconds, and their distinct authors.
pub struct PrStats {
    pub total_count: usize,
    pub average_lifetime: i64,
    /// Each author once, in order of first appearance.
    pub contributors: Vec<String>,
}

/// A closed pull request as the statistics read it.
pub struct PrSummary {
    pub login: String,
    pub lifetime: Lifetime,
}

/// `acc` followed by each name of `s` that is not already there.
pub open spec fn with_new(acc: Seq<Seq<char>>, s: Seq<Seq<char>>) -> Seq<Seq<char>>
    decreases s.len(),
{
    if s.len() == 0 {
        acc
    } else {
        let r = with_new(acc, s.drop_last());
        if r.contains(s.last()) {
            r
        } else {
            r.push(s.last())
        }
    }
}

/// The authors of pull requests.
pub open spec fn pr_logins(s: Seq<PrSummary>) -> Seq<Seq<char>> {
    s.map_values(|p: PrSummary| p.login@)
}

/// The lifetimes of pull requests.
pub open spec fn pr_lifetimes(s: Seq<PrSummary>) -> Seq<Lifetime> {
    s.map_values(|p: PrSummary| p.lifetime)
}

fn add_new(acc: &mut Vec<String>, names: &Vec<String>)
    ensures
        views(final(acc)@) == with_new(views(old(acc)@), views(names@)),
{
    let ghost a0 = views(acc@);
    let mut i: usize = 0;
    while i < names.len()
        invariant
            i <= names@.len(),
            views(acc@) == with_new(a0, views(names@).subrange(0, i as int)),
        decreases names@.len() - i,
    {
        let ghost pre = views(names@).subrange(0, i + 1);
        assert(pre.drop_last() == views(names@).subrange(0, i as int));
        assert(pre.last() == names@[i as int]@);
        if !contains_string(acc, names[i].as_str()) {
            let ghost before = acc@;
            acc.push(names[i].clone());
            assert(views(before.push(names@[i as int])) == views(before).push(names@[i as int]@));
        }
        i = i + 1;
    }
    assert(views(names@).subrange(0, names@.len() as int) == views(names@));
}

impl PrStats {
    /// The number of distinct authors.
    pub fn contributor_count(&self) -> (r: usize)
        ensures
            r == self.contributors@.len(),
    {
        self.contributors.len()
    }

    /// The statistics of two runs together: counts added, mean lifetimes
    /// weighted by the counts, authors of both without repeats.
    pub fn combine(self, other: PrStats) -> (r: PrStats)
        requires
            self.total_count + other.total_count <= usize::MAX,
        ensures
            r.total_count == self.total_count + other.total_count,
            r.average_lifetime == weighted_mean(
                self.average_lifetime as int,
                self.total_count as int,
                other.average_lifetime as int,
                other.total_count as int,
            ),
            views(r.contributors@) == with_new(views(self.contributors@), views(other.contributors@)),
    {
        let PrStats { total_count, average_lifetime, mut contributors } = self;
        let avg = combine_means(average_lifetime, total_count, other.average_lifetime, other.total_count);
        add_new(&mut contributors, &other.contributors);
        PrStats { total_count: total_count + other.total_count, average_lifetime: avg, contributors }
    }
}

/// Statistics of a milestone's closed pull requests; no pull requests is an
/// error, since no mean lifetime exists.
pub fn pr_stats(pulls: &Vec<PrSummary>) -> (r: Result<PrStats>)
    ensures
        pulls@.len() == 0 <==> r is Err,
        r matches Err(e) ==> is_no_items(e.kind, "PRs"@) && e.kind.message_spec()
            == "No PRs found for this milestone"@,
        r matches Ok(st) ==> {
            &&& st.total_count == pulls@.len()
            &&& Some(st.average_lifetime as int) == mean_lifetime(
                lifetime_sum(pr_lifetimes(pulls@)),
                pulls@.len() as int,
            )
            &&& views(st.contributors@) == with_new(Seq::empty(), pr_logins(pulls@))
        },
{
    let mut lifetimes: Vec<Lifetime> = Vec::new();
    let mut logins: Vec<String> = Vec::new();
    let mut i: usize = 0;
    while i < pulls.len()
        invariant
            i <= pulls@.len(),
            lifetimes@ == pr_lifetimes(pulls@.subrange(0, i as int)),
            views(logins@) == pr_logins(pulls@.subrange(0, i as int)),
        decreases pulls@.len() - i,
    {
        let ghost before = logins@;
        lifetimes.push(pulls[i].lifetime);
        logins.push(pulls[i].login.clone());
        assert(pr_lifetimes(pulls@.subrange(0, i + 1)) == pr_lifetimes(pulls@.subrange(0, i as int)).push(
            pulls@[i as int].lifetime,
        ));
        assert(pr_logins(pulls@.subrange(0, i + 1)) == pr_logins(pulls@.subrange(0, i as int)).push(
            pulls@[i as int].login@,
        ));
        assert(views(before.push(pulls@[i as int].login)) == views(before).push(pulls@[i as int].login@));
        i = i + 1;
    }
    assert(pulls@.subrange(0, pulls@.len() as int) == pulls@);
    if pulls.len() == 0 {
        let e = Error::from_kind(ErrorKind::NoItems(String::from_str("PRs")));
        proof {
            lemma_no_items_messages(e.kind);
        }
        return Err(e);
    }
    let average = match average_seconds(&lifetimes) {
        Ok(v) => v,
        Err(e) => {
            return Err(e);
        },
    };
    let mut contributors: Vec<String> = Vec::new();
    assert(views(contributors@) == Seq::<Seq<char>>::empty());
    assert(views(logins@) == pr_logins(pulls@));
    add_new(&mut contributors, &logins);
    assert(views(contributors@) == with_new(Seq::empty(), pr_logins(pulls@)));
    Ok(PrStats { total_count: pulls.len(), average_lifetime: average, contributors })
}

} // verus!
