//! Walking a paginated list of pull requests page by page. The network
//! requests are the caller's: the iterator says which page to fetch next
//! and takes in what came back.

use crate::pull_list::predicate::{accepts, Predicate};
use crate::pull_list::pull::Pull;
use crate::text::{contains, contains_seq, split, split_seq, views};
use vstd::prelude::*;

verus! {

/// The number of items on a full page.
pub const PAGE_SIZE: usize = 100;

/// What a pager asks for next.
pub enum Step<T, R> {
    /// The next item of the sequence.
    Item(T),
    /// The page at this cursor must be fetched and handed back.
    Fetch(R),
    /// The sequence is over.
    Done,
}

/// A character trimmed from the ends of a link.
pub open spec fn is_angle(c: char) -> bool {
    c == '<' || c == '>'
}

pub open spec fn strip_front_angles(s: Seq<char>) -> Seq<char>
    decreases s.len(),
{
    if s.len() > 0 && is_angle(s[0]) {
        strip_front_angles(s.drop_first())
    } else {
        s
    }
}

pub open spec fn strip_back_angles(s: Seq<char>) -> Seq<char>
    decreases s.len(),
{
    if s.len() > 0 && is_angle(s.last()) {
        strip_back_angles(s.drop_last())
    } else {
        s
    }
}

/// The link of one `Link` header entry: the text before the first `;`,
/// without the angle brackets around it.
pub open spec fn link_target(entry: Seq<char>) -> Seq<char> {
    strip_back_angles(strip_front_angles(split_seq(entry, ";"@)[0]))
}

proof fn lemma_split_nonempty(s: Seq<char>, p: Seq<char>, cur: Seq<char>)
    ensures
        crate::text::split_from(s, p, cur).len() >= 1,
    decreases s.len(),
{
    if s.len() > 0 {
        if p.len() > 0 && crate::text::occurs_at(s, p, 0) {
            lemma_split_nonempty(s.subrange(p.len() as int, s.len() as int), p, Seq::empty());
        } else {
            lemma_split_nonempty(s.drop_first(), p, cur.push(s[0]));
        }
    }
}

proof fn lemma_strip_front(s: Seq<char>, i: int)
    requires
        0 <= i <= s.len(),
        forall|k: int| 0 <= k < i ==> is_angle(#[trigger] s[k]),
    ensures
        strip_front_angles(s) == strip_front_angles(s.subrange(i, s.len() as int)),
    decreases i,
{
    if i > 0 {
        lemma_strip_front(s.drop_first(), i - 1);
        assert(s.drop_first().subrange(i - 1, s.drop_first().len() as int) == s.subrange(
            i,
            s.len() as int,
        ));
    } else {
        assert(s.subrange(0, s.len() as int) == s);
    }
}

proof fn lemma_strip_back(s: Seq<char>, j: int)
    requires
        0 <= j <= s.len(),
        forall|k: int| j <= k < s.len() ==> is_angle(#[trigger] s[k]),
    ensures
        strip_back_angles(s) == strip_back_angles(s.subrange(0, j)),
    decreases s.len() - j,
{
    if j < s.len() {
        lemma_strip_back(s.drop_last(), j);
        assert(s.drop_last().subrange(0, j) == s.subrange(0, j));
    } else {
        assert(s.subrange(0, j) == s);
    }
}

fn strip_angles(s: &str) -> (r: String)
    ensures
        r@ == strip_back_angles(strip_front_angles(s@)),
{
    let n = s.unicode_len();
    let mut a: usize = 0;
    while a < n && (s.get_char(a) == '<' || s.get_char(a) == '>')
        invariant
            n == s@.len(),
            a <= n,
            forall|k: int| 0 <= k < a ==> is_angle(#[trigger] s@[k]),
        decreases n - a,
    {
        a = a + 1;
    }
    let mut b: usize = n;
    while b > a && (s.get_char(b - 1) == '<' || s.get_char(b - 1) == '>')
        invariant
            n == s@.len(),
            a <= b <= n,
            forall|k: int| b <= k < n ==> is_angle(#[trigger] s@[k]),
        decreases b - a,
    {
        b = b - 1;
    }
    proof {
        lemma_strip_front(s@, a as int);
        let f = s@.subrange(a as int, n as int);
        if a < n {
            assert(!is_angle(f[0]));
        }
        assert(strip_front_angles(f) == f);
        lemma_strip_back(f, b - a);
        assert(f.subrange(0, b - a) == s@.subrange(a as int, b as int));
        if b > a {
            assert(!is_angle(s@.subrange(a as int, b as int).last()));
        }
    }
    String::from_str(s.substring_char(a, b))
}

/// The link of one `Link` header entry such as `<https://x/?page=2>; rel="next"`.
pub fn parse_next_link(next_header: &str) -> (r: Option<String>)
    ensures
        r matches Some(u) && u@ == link_target(next_header@),
{
    proof {
        reveal_strlit(";");
        lemma_split_nonempty(next_header@, ";"@, Seq::empty());
    }
    let pieces = split(next_header, ";");
    assert(views(pieces@)[0] == pieces@[0]@);
    Some(strip_angles(pieces[0].as_str()))
}

/// The entries of `Link` header values, each value split at commas.
pub open spec fn link_entries(values: Seq<String>) -> Seq<Seq<char>>
    decreases values.len(),
{
    if values.len() == 0 {
        Seq::empty()
    } else {
        link_entries(values.drop_last()) + split_seq(values.last()@, ","@)
    }
}

/// The first entry that is marked `rel="next"`.
pub open spec fn first_next(entries: Seq<Seq<char>>) -> Option<Seq<char>>
    decreases entries.len(),
{
    if entries.len() == 0 {
        None
    } else if contains_seq(entries[0], "rel=\"next\""@) {
        Some(entries[0])
    } else {
        first_next(entries.drop_first())
    }
}

/// The next-page link that `Link` header values give, if any.
pub open spec fn next_link_of(values: Seq<String>) -> Option<Seq<char>> {
    match first_next(link_entries(values)) {
        Some(e) => Some(link_target(e)),
        None => None,
    }
}

/// The view of an optional string.
pub open spec fn opt_view(o: Option<String>) -> Option<Seq<char>> {
    match o {
        Some(s) => Some(s@),
        None => None,
    }
}

/// The next-page link that the values of `Link` headers give, if any.
pub fn extract_next_link(values: &Vec<String>) -> (r: Option<String>)
    ensures
        opt_view(r) == next_link_of(values@),
{
    let mut entries: Vec<String> = Vec::new();
    let mut i: usize = 0;
    while i < values.len()
        invariant
            i <= values@.len(),
            views(entries@) == link_entries(values@.subrange(0, i as int)),
        decreases values@.len() - i,
    {
        let ghost pre = values@.subrange(0, i + 1);
        assert(pre.drop_last() == values@.subrange(0, i as int));
        proof {
            reveal_strlit(",");
        }
        let mut parts = split(values[i].as_str(), ",");
        let ghost before = entries@;
        let ghost added = parts@;
        entries.append(&mut parts);
        assert(views(before + added) == views(before) + views(added));
        i = i + 1;
    }
    assert(values@.subrange(0, values@.len() as int) == values@);
    let ghost all = views(entries@);
    let mut k: usize = 0;
    assert(all.subrange(0, all.len() as int) == all);
    while k < entries.len()
        invariant
            k <= entries@.len(),
            all == views(entries@),
            all == link_entries(values@),
            first_next(all) == first_next(all.subrange(k as int, all.len() as int)),
        decreases entries@.len() - k,
    {
        let ghost rest = all.subrange(k as int, all.len() as int);
        assert(rest.drop_first() == all.subrange(k + 1, all.len() as int));
        assert(rest[0] == entries@[k as int]@);
        if contains(entries[k].as_str(), "rel=\"next\"") {
            assert(first_next(rest) == Some(rest[0]));
            return parse_next_link(entries[k].as_str());
        }
        k = k + 1;
    }
    None
}

/// The items of a page that the predicate keeps, in order.
pub open spec fn kept(page: Seq<Pull>, pred: Option<Predicate>) -> Seq<Pull>
    decreases page.len(),
{
    if page.len() == 0 {
        Seq::empty()
    } else {
        let r = kept(page.drop_last(), pred);
        match pred {
            Some(p) => if accepts(p, page.last()) {
                r.push(page.last())
            } else {
                r
            },
            None => r.push(page.last()),
        }
    }
}

/// Pull requests of a paginated list, fetched lazily: the items of the last
/// page that passed the predicate, and the cursor of the next page, none once
/// the list is exhausted.
pub struct PRIterator {
    pub items: Vec<Pull>,
    pub next_link: Option<String>,
    pub predicate: Option<Predicate>,
}

impl PRIterator {
    /// A pager that starts at `url`.
    pub fn for_addr(url: &str, pred: Option<Predicate>) -> (r: PRIterator)
        ensures
            r.items@.len() == 0,
            opt_view(r.next_link) == Some(url@),
            r.predicate == pred,
    {
        PRIterator { items: Vec::new(), next_link: Some(String::from_str(url)), predicate: pred }
    }

    /// The next item, if one is buffered; else the page to fetch, if any is
    /// left; else the end. Asking for a page gives up its cursor, so after a
    /// failed fetch the sequence is over.
    pub fn try_next(&mut self) -> (r: Step<Pull, String>)
        ensures
            final(self).predicate == old(self).predicate,
            old(self).items@.len() > 0 ==> {
                &&& r == Step::<Pull, String>::Item(old(self).items@[0])
                &&& final(self).items@ == old(self).items@.drop_first()
                &&& final(self).next_link == old(self).next_link
            },
            old(self).items@.len() == 0 && old(self).next_link is None ==> {
                &&& r is Done
                &&& final(self).items@.len() == 0
                &&& final(self).next_link is None
            },
            old(self).items@.len() == 0 && old(self).next_link is Some ==> {
                &&& r == Step::<Pull, String>::Fetch(old(self).next_link.unwrap())
                &&& final(self).items@.len() == 0
                &&& final(self).next_link is None
            },
    {
        if self.items.len() > 0 {
            return Step::Item(self.items.remove(0));
        }
        match self.next_link.take() {
            Some(url) => Step::Fetch(url),
            None => Step::Done,
        }
    }

    /// Takes in a fetched page and the values of its `Link` headers. Only a
    /// full page can have a next one; the items that the predicate keeps are
    /// buffered.
    pub fn receive_page(&mut self, page: Vec<Pull>, link_headers: &Vec<String>)
        ensures
            final(self).predicate == old(self).predicate,
            final(self).items@ == kept(page@, old(self).predicate),
            opt_view(final(self).next_link) == if page@.len() == PAGE_SIZE {
                next_link_of(link_headers@)
            } else {
                None
            },
    {
        if page.len() == PAGE_SIZE {
            self.next_link = extract_next_link(link_headers);
        } else {
            self.next_link = None;
        }
        let ghost orig = page@;
        let n = page.len();
        let mut rest = page;
        let mut out: Vec<Pull> = Vec::new();
        let mut i: usize = 0;
        while rest.len() > 0
            invariant
                n == orig.len(),
                i <= n,
                rest@ == orig.subrange(i as int, n as int),
                out@ == kept(orig.subrange(0, i as int), self.predicate),
            decreases rest@.len(),
        {
            let pull = rest.remove(0);
            proof {
                let pre = orig.subrange(0, i + 1);
                assert(pre.drop_last() == orig.subrange(0, i as int));
                assert(rest@ == orig.subrange(i + 1, n as int));
            }
            let keep = match &self.predicate {
                Some(p) => p.test(&pull),
                None => true,
            };
            if keep {
                out.push(pull);
            }
            i = i + 1;
        }
        assert(orig.subrange(0, n as int) == orig);
        self.items = out;
    }
}

/// What a pager yields when asked until it is done, starting from buffered
/// items `buf` and a pending cursor if `pending`, while each requested page
/// is answered by the next entry of `pages` (its items and `Link` header
/// values); an empty `pages` stands for a source that has nothing more.
pub open spec fn drained(
    buf: Seq<Pull>,
    pending: bool,
    pages: Seq<(Seq<Pull>, Seq<String>)>,
    pred: Option<Predicate>,
) -> Seq<Pull>
    decreases pages.len(), buf.len(),
{
    if buf.len() > 0 {
        seq![buf[0]] + drained(buf.drop_first(), pending, pages, pred)
    } else if !pending || pages.len() == 0 {
        Seq::empty()
    } else {
        let page = pages[0].0;
        let more = page.len() == PAGE_SIZE && next_link_of(pages[0].1) is Some;
        drained(kept(page, pred), more, pages.drop_first(), pred)
    }
}

/// The items of the pages that `pred` keeps, page after page.
pub open spec fn all_kept(pages: Seq<(Seq<Pull>, Seq<String>)>, pred: Option<Predicate>) -> Seq<
    Pull,
>
    decreases pages.len(),
{
    if pages.len() == 0 {
        Seq::empty()
    } else {
        kept(pages[0].0, pred) + all_kept(pages.drop_first(), pred)
    }
}

/// The items of the pages, page after page.
pub open spec fn all_items(pages: Seq<(Seq<Pull>, Seq<String>)>) -> Seq<Pull>
    decreases pages.len(),
{
    if pages.len() == 0 {
        Seq::empty()
    } else {
        pages[0].0 + all_items(pages.drop_first())
    }
}

/// A well-formed source: every page but the last is full and links to a
/// next page; the last is either not full or links to none.
pub open spec fn well_paged(pages: Seq<(Seq<Pull>, Seq<String>)>) -> bool {
    &&& forall|k: int|
        0 <= k < pages.len() - 1 ==> (#[trigger] pages[k]).0.len() == PAGE_SIZE && next_link_of(
            pages[k].1,
        ) is Some
    &&& pages.len() > 0 ==> (pages.last().0.len() < PAGE_SIZE || next_link_of(pages.last().1) is None)
}

proof fn lemma_drain_buffer(
    buf: Seq<Pull>,
    pending: bool,
    pages: Seq<(Seq<Pull>, Seq<String>)>,
    pred: Option<Predicate>,
)
    ensures
        drained(buf, pending, pages, pred) == buf + drained(Seq::empty(), pending, pages, pred),
    decreases buf.len(),
{
    if buf.len() > 0 {
        lemma_drain_buffer(buf.drop_first(), pending, pages, pred);
        assert(seq![buf[0]] + buf.drop_first() == buf);
    } else {
        assert(buf + drained(Seq::empty(), pending, pages, pred) == drained(
            Seq::empty(),
            pending,
            pages,
            pred,
        ));
    }
}

proof fn lemma_kept_all(page: Seq<Pull>)
    ensures
        kept(page, None) == page,
    decreases page.len(),
{
    if page.len() > 0 {
        lemma_kept_all(page.drop_last());
    }
}

proof fn lemma_kept_none(page: Seq<Pull>, p: Predicate)
    requires
        forall|x: Pull| !accepts(p, x),
    ensures
        kept(page, Some(p)).len() == 0,
    decreases page.len(),
{
    if page.len() > 0 {
        lemma_kept_none(page.drop_last(), p);
    }
}

/// Items in order from a paginated list: from the first page on, the pager
/// yields every item of every page that the predicate keeps, in page order,
/// and then stops; without a predicate these are all items; with one that
/// keeps nothing there are none.
pub proof fn lemma_drain_pages(pages: Seq<(Seq<Pull>, Seq<String>)>, pred: Option<Predicate>)
    requires
        well_paged(pages),
    ensures
        drained(Seq::empty(), true, pages, pred) == all_kept(pages, pred),
        pred is None ==> drained(Seq::empty(), true, pages, pred) == all_items(pages),
        pred matches Some(p) && (forall|x: Pull| !accepts(p, x)) ==> all_kept(pages, pred).len()
            == 0,
    decreases pages.len(),
{
    if pages.len() > 0 {
        let rest = pages.drop_first();
        let page = pages[0].0;
        let more = page.len() == PAGE_SIZE && next_link_of(pages[0].1) is Some;
        assert(well_paged(rest)) by {
            assert forall|k: int| 0 <= k < rest.len() - 1 implies (#[trigger] rest[k]).0.len()
                == PAGE_SIZE && next_link_of(rest[k].1) is Some by {
                assert(rest[k] == pages[k + 1]);
            }
            if rest.len() > 0 {
                assert(rest.last() == pages.last());
            }
        }
        lemma_drain_pages(rest, pred);
        lemma_drain_buffer(kept(page, pred), more, rest, pred);
        if rest.len() > 0 {
            assert(pages[0] == pages[0]);
            assert(more);
        }
        if let Some(p) = pred {
            if forall|x: Pull| !accepts(p, x) {
                lemma_kept_none(page, p);
            }
        } else {
            lemma_kept_all(page);
        }
    }
}

} // verus!
