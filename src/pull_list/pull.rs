//! Pull requests, their authors, and the dates on them.

use crate::text::{decimal, push_decimal, split, split_seq, trim, trimmed, views};
use vstd::prelude::*;

verus! {

/// A calendar date (UTC).
pub struct Date {
    pub year: i32,
    pub month: u32,
    pub day: u32,
}

/// `a` is an earlier day than `b`.
pub open spec fn date_before(a: Date, b: Date) -> bool {
    a.year < b.year || (a.year == b.year && (a.month < b.month || (a.month == b.month && a.day
        < b.day)))
}

/// A month from 1 to 12 and a day from 1 to 31.
pub open spec fn date_wf(d: Date) -> bool {
    1 <= d.month <= 12 && 1 <= d.day <= 31
}

impl Date {
    /// The date with these parts, if the month is 1 to 12 and the day 1 to 31.
    pub fn new(year: i32, month: u32, day: u32) -> (r: Option<Date>)
        ensures
            r is Some <==> (1 <= month <= 12 && 1 <= day <= 31),
            r matches Some(d) ==> d.year == year && d.month == month && d.day == day,
    {
        if 1 <= month && month <= 12 && 1 <= day && day <= 31 {
            Some(Date { year, month, day })
        } else {
            None
        }
    }

    /// Whether this is an earlier day than `other`.
    pub fn is_before(&self, other: &Date) -> (r: bool)
        ensures
            r == date_before(*self, *other),
    {
        self.year < other.year || (self.year == other.year && (self.month < other.month || (
        self.month == other.month && self.day < other.day)))
    }

    pub fn copy(&self) -> (r: Date)
        ensures
            r == *self,
    {
        Date { year: self.year, month: self.month, day: self.day }
    }
}

/// A moment in UTC: its date and its time of day.
pub struct Timestamp {
    pub date: Date,
    pub hour: u32,
    pub minute: u32,
    pub second: u32,
}

/// `n` in decimal with leading zeros up to `width` digits.
pub open spec fn padded(n: nat, width: nat) -> Seq<char>
    decreases width,
{
    if width <= 1 {
        decimal(n)
    } else if n < pow10((width - 1) as nat) {
        seq!['0'] + padded(n, (width - 1) as nat)
    } else {
        decimal(n)
    }
}

/// Ten to the power `k`.
pub open spec fn pow10(k: nat) -> nat
    decreases k,
{
    if k == 0 {
        1
    } else {
        10 * pow10((k - 1) as nat)
    }
}

fn push_padded(out: &mut String, n: u32, width: u32)
    requires
        width <= 4,
    ensures
        final(out)@ == old(out)@ + padded(n as nat, width as nat),
    decreases width,
{
    if width <= 1 {
        push_decimal(out, n as u64);
    } else {
        let bound: u32 = if width == 2 {
            10
        } else if width == 3 {
            100
        } else {
            1000
        };
        assert(bound == pow10((width - 1) as nat)) by {
            reveal_with_fuel(pow10, 4);
        }
        if n < bound {
            proof {
                reveal_strlit("0");
            }
            out.append("0");
            push_padded(out, n, width - 1);
            assert(old(out)@ + seq!['0'] + padded(n as nat, (width - 1) as nat) == old(out)@
                + padded(n as nat, width as nat));
        } else {
            push_decimal(out, n as u64);
        }
    }
}

/// A year as the calendar shows it: four digits, with a sign outside years
/// 0 to 9999.
pub open spec fn year_text(y: int) -> Seq<char> {
    if 0 <= y <= 9999 {
        padded(y as nat, 4)
    } else if y > 9999 {
        seq!['+'] + padded(y as nat, 4)
    } else {
        seq!['-'] + padded((-y) as nat, 4)
    }
}

/// A moment as `YYYY-MM-DD HH:MM:SS UTC`.
pub open spec fn timestamp_text(t: Timestamp) -> Seq<char> {
    year_text(t.date.year as int) + seq!['-'] + padded(t.date.month as nat, 2) + seq!['-']
        + padded(t.date.day as nat, 2) + seq![' '] + padded(t.hour as nat, 2) + seq![':']
        + padded(t.minute as nat, 2) + seq![':'] + padded(t.second as nat, 2) + " UTC"@
}

/// A valid date and a time of day with hour below 24, minute and second
/// below 60.
pub open spec fn timestamp_wf(t: Timestamp) -> bool {
    date_wf(t.date) && t.hour < 24 && t.minute < 60 && t.second < 60
}

/// `a` is an earlier moment than `b`.
pub open spec fn timestamp_before(a: Timestamp, b: Timestamp) -> bool {
    date_before(a.date, b.date) || (a.date == b.date && (a.hour < b.hour || (a.hour == b.hour && (
    a.minute < b.minute || (a.minute == b.minute && a.second < b.second)))))
}

impl Timestamp {
    /// The moment with these parts, if they are in range.
    pub fn new(date: Date, hour: u32, minute: u32, second: u32) -> (r: Option<Timestamp>)
        ensures
            r is Some <==> (date_wf(date) && hour < 24 && minute < 60 && second < 60),
            r matches Some(t) ==> t.date == date && t.hour == hour && t.minute == minute
                && t.second == second,
    {
        if 1 <= date.month && date.month <= 12 && 1 <= date.day && date.day <= 31 && hour < 24
            && minute < 60 && second < 60 {
            Some(Timestamp { date, hour, minute, second })
        } else {
            None
        }
    }

    /// Whether this is an earlier moment than `other`.
    pub fn is_before(&self, other: &Timestamp) -> (r: bool)
        ensures
            r == timestamp_before(*self, *other),
    {
        let same_day = self.date.year == other.date.year && self.date.month == other.date.month
            && self.date.day == other.date.day;
        self.date.is_before(&other.date) || (same_day && (self.hour < other.hour || (self.hour
            == other.hour && (self.minute < other.minute || (self.minute == other.minute
            && self.second < other.second)))))
    }

    pub fn copy(&self) -> (r: Timestamp)
        ensures
            r == *self,
    {
        Timestamp {
            date: self.date.copy(),
            hour: self.hour,
            minute: self.minute,
            second: self.second,
        }
    }

    /// This moment as `YYYY-MM-DD HH:MM:SS UTC`.
    pub fn text(&self) -> (r: String)
        ensures
            r@ == timestamp_text(*self),
    {
        proof {
            reveal_strlit("+");
            reveal_strlit("-");
            reveal_strlit(" ");
            reveal_strlit(":");
        }
        let mut out = String::new();
        let y = self.date.year;
        if 0 <= y && y <= 9999 {
            push_padded(&mut out, y as u32, 4);
        } else if y > 9999 {
            out.append("+");
            push_padded(&mut out, y as u32, 4);
        } else {
            out.append("-");
            let a: u32 = (0i64 - y as i64) as u32;
            push_padded(&mut out, a, 4);
        }
        out.append("-");
        push_padded(&mut out, self.date.month, 2);
        out.append("-");
        push_padded(&mut out, self.date.day, 2);
        out.append(" ");
        push_padded(&mut out, self.hour, 2);
        out.append(":");
        push_padded(&mut out, self.minute, 2);
        out.append(":");
        push_padded(&mut out, self.second, 2);
        out.append(" UTC");
        out
    }
}

/// An account of the source hosting platform.
pub struct GithubUser {
    pub id: u32,
    pub login: String,
}

/// A closed pull request.
pub struct Pull {
    pub html_url: String,
    pub title: String,
    pub user: GithubUser,
    pub closed_at: Timestamp,
}

impl Pull {
    /// The pull request as a Markdown link: `[title](url)`.
    pub open spec fn link_spec(&self) -> Seq<char> {
        "["@ + self.title@ + "]("@ + self.html_url@ + ")"@
    }

    /// The pull request as a Markdown link: `[title](url)`.
    pub fn link(&self) -> (r: String)
        ensures
            r@ == self.link_spec(),
    {
        let mut out = String::from_str("[");
        out.append(self.title.as_str());
        out.append("](");
        out.append(self.html_url.as_str());
        out.append(")");
        out
    }
}

/// The non-blank pieces of `s`, each trimmed, in order.
pub open spec fn nonblank_trimmed(s: Seq<Seq<char>>) -> Seq<Seq<char>>
    decreases s.len(),
{
    if s.len() == 0 {
        Seq::empty()
    } else {
        let r = nonblank_trimmed(s.drop_last());
        if trimmed(s.last()).len() > 0 {
            r.push(trimmed(s.last()))
        } else {
            r
        }
    }
}

/// The ticket references that a title starts with, as in
/// `[#MD1234, #MD5678] Fix login bug`: the comma-separated entries of a
/// leading bracket group, trimmed, blank ones left out; none without a
/// leading, closed bracket group.
pub open spec fn refs_of(title: Seq<char>) -> Seq<Seq<char>> {
    if title.len() > 0 && title[0] == '[' {
        let parts = split_seq(title.drop_first(), "]"@);
        if parts.len() > 1 {
            nonblank_trimmed(split_seq(parts[0], ","@))
        } else {
            Seq::empty()
        }
    } else {
        Seq::empty()
    }
}

/// The ticket references that a title starts with.
pub fn ticket_refs(title: &str) -> (r: Vec<String>)
    ensures
        views(r@) == refs_of(title@),
{
    let n = title.unicode_len();
    let mut out: Vec<String> = Vec::new();
    if n == 0 || title.get_char(0) != '[' {
        assert(views(out@) == Seq::<Seq<char>>::empty());
        return out;
    }
    proof {
        reveal_strlit("]");
        reveal_strlit(",");
    }
    let rest = title.substring_char(1, n);
    assert(rest@ == title@.drop_first());
    let parts = split(rest, "]");
    if parts.len() <= 1 {
        assert(views(out@) == Seq::<Seq<char>>::empty());
        return out;
    }
    assert(views(parts@)[0] == parts@[0]@);
    let pieces = split(parts[0].as_str(), ",");
    let ghost pv = views(pieces@);
    let mut i: usize = 0;
    assert(views(out@) == Seq::<Seq<char>>::empty());
    while i < pieces.len()
        invariant
            i <= pieces@.len(),
            pv == views(pieces@),
            views(out@) == nonblank_trimmed(pv.subrange(0, i as int)),
        decreases pieces@.len() - i,
    {
        let ghost pre = pv.subrange(0, i + 1);
        assert(pre.drop_last() == pv.subrange(0, i as int));
        assert(pre.last() == pieces@[i as int]@);
        let t = trim(pieces[i].as_str());
        if t.unicode_len() > 0 {
            let ghost before = out@;
            out.push(t);
            assert(views(before.push(t)) == views(before).push(t@));
        }
        i = i + 1;
    }
    assert(pv.subrange(0, pieces@.len() as int) == pv);
    out
}

impl Pull {
    /// The ticket references that this pull request's title starts with.
    pub fn ticket_refs(&self) -> (r: Vec<String>)
        ensures
            views(r@) == refs_of(self.title@),
    {
        ticket_refs(self.title.as_str())
    }
}

} // verus!
