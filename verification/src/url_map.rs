//! How often each domain occurs among the bookmarks' urls.

use vstd::prelude::*;
use vstd::string::*;
use crate::records::{Bookmark, bookmark_view, copy_bookmark};
use crate::decimal::decimal;
use crate::number_text::usize_text;

verus! {

#[verifier::external_type_specification]
#[verifier::external_body]
pub struct ExUrlParseError(url::ParseError);

/// What `url::Url::parse` and `Url::domain` find in a text: `None` when it
/// is no absolute url, else the url's domain, if its host is one.
pub uninterp spec fn url_domain_of(url: Seq<char>) -> Option<Option<Seq<char>>>;

/// Calls `url::Url::parse` on `url` and, when that succeeds, `Url::domain`
/// on the result. The result is stated by the name `url_domain_of` alone.
#[verifier::external_body]
fn parse_url_domain(url: &str) -> (res: Result<Option<String>, url::ParseError>)
    ensures
        match res {
            Ok(Some(d)) => url_domain_of(url@) == Some(Some(d@)),
            Ok(None) => url_domain_of(url@) == Some(None::<Seq<char>>),
            Err(_) => url_domain_of(url@) is None,
        },
{
    match url::Url::parse(url) {
        Ok(u) => Ok(u.domain().map(String::from)),
        Err(e) => Err(e),
    }
}

/// The key under which urls without a domain are counted.
pub open spec fn no_domain_key() -> Seq<char> {
    "<no domain>"@
}

/// The key under which a bookmark is counted; `None` when its url does not
/// parse.
pub open spec fn domain_key(b: Bookmark) -> Option<Seq<char>> {
    match url_domain_of(b.url@) {
        Some(Some(d)) => Some(d),
        Some(None) => Some(no_domain_key()),
        None => None,
    }
}

/// How many of the bookmarks are counted under `key`.
pub open spec fn key_count(bs: Seq<Bookmark>, key: Seq<char>) -> nat
    decreases bs.len(),
{
    if bs.len() == 0 {
        0
    } else {
        key_count(bs.drop_last(), key) + if domain_key(bs.last()) == Some(key) {
            1nat
        } else {
            0nat
        }
    }
}

/// The bookmarks whose url does not parse, in order.
pub open spec fn unparsed(bs: Seq<Bookmark>) -> Seq<(Seq<char>, Seq<char>, Seq<Seq<char>>)>
    decreases bs.len(),
{
    if bs.len() == 0 {
        Seq::empty()
    } else if domain_key(bs.last()) is None {
        unparsed(bs.drop_last()).push(bookmark_view(bs.last()))
    } else {
        unparsed(bs.drop_last())
    }
}

/// Occurrences of each domain, and the bookmarks whose url did not parse.
#[derive(Debug)]
pub struct UrlMap {
    /// For each domain, how many urls have it; each domain once.
    pub occurance_count: Vec<(String, usize)>,
    /// The bookmarks whose url did not parse, with the error.
    pub parse_issues: Vec<(Bookmark, url::ParseError)>,
}

/// A summary of an `UrlMap`.
#[derive(Debug, Clone, Copy, PartialEq, Eq)]
pub struct Tally {
    /// How many urls did not parse.
    pub parse_issues: usize,
    /// How many urls had no domain.
    pub no_domain: usize,
    /// How many distinct domains there are.
    pub domains: usize,
}

/// Does no key occur twice?
pub open spec fn distinct_keys(entries: Seq<(String, usize)>) -> bool {
    forall|i: int, j: int|
        0 <= i < entries.len() && 0 <= j < entries.len() && i != j ==> entries[i].0@
            != entries[j].0@
}

/// The entries count exactly the keys of the bookmarks.
pub open spec fn counts_match(entries: Seq<(String, usize)>, bs: Seq<Bookmark>) -> bool {
    &&& distinct_keys(entries)
    &&& forall|i: int|
        0 <= i < entries.len() ==> entries[i].1 == key_count(bs, entries[i].0@) && entries[i].1
            > 0
    &&& forall|key: Seq<char>|
        key_count(bs, key) > 0 ==> exists|i: int| 0 <= i < entries.len() && entries[i].0@ == key
}

/// The position of an entry whose key is `key`, if there is one.
pub open spec fn entry_with_key(entries: Seq<(String, usize)>, key: Seq<char>) -> Option<int> {
    if exists|i: int| 0 <= i < entries.len() && entries[i].0@ == key {
        Some(choose|i: int| 0 <= i < entries.len() && entries[i].0@ == key)
    } else {
        None
    }
}

/// The contents of a map: its entries, and the views of the bookmarks
/// whose url did not parse with their errors.
pub open spec fn url_map_view(m: UrlMap) -> (
    Seq<(String, usize)>,
    Seq<((Seq<char>, Seq<char>, Seq<Seq<char>>), url::ParseError)>,
) {
    (
        m.occurance_count@,
        m.parse_issues@.map_values(|p: (Bookmark, url::ParseError)| (bookmark_view(p.0), p.1)),
    )
}

impl UrlMap {
    /// A copy of the map, with the same contents.
    pub fn copy(&self) -> (m: Self)
        ensures
            url_map_view(m) == url_map_view(*self),
    {
        let mut entries: Vec<(String, usize)> = Vec::new();
        let mut i: usize = 0;
        while i < self.occurance_count.len()
            invariant
                i <= self.occurance_count@.len(),
                entries@ == self.occurance_count@.subrange(0, i as int),
            decreases self.occurance_count@.len() - i,
        {
            let e = &self.occurance_count[i];
            entries.push((e.0.clone(), e.1));
            i = i + 1;
            assert(entries@ =~= self.occurance_count@.subrange(0, i as int));
        }
        let mut issues: Vec<(Bookmark, url::ParseError)> = Vec::new();
        let mut j: usize = 0;
        while j < self.parse_issues.len()
            invariant
                j <= self.parse_issues@.len(),
                issues@.len() == j,
                forall|k: int|
                    0 <= k < j ==> bookmark_view((#[trigger] issues@[k]).0) == bookmark_view(
                        self.parse_issues@[k].0,
                    ) && issues@[k].1 == self.parse_issues@[k].1,
            decreases self.parse_issues@.len() - j,
        {
            let p = &self.parse_issues[j];
            issues.push((copy_bookmark(&p.0), p.1));
            j = j + 1;
        }
        assert(issues@.map_values(|p: (Bookmark, url::ParseError)| (bookmark_view(p.0), p.1))
            =~= url_map_view(*self).1);
        assert(self.occurance_count@.subrange(0, i as int) =~= self.occurance_count@);
        assert(self.parse_issues@.subrange(0, j as int) =~= self.parse_issues@);
        UrlMap { occurance_count: entries, parse_issues: issues }
    }

    /// An empty map.
    pub fn new() -> (m: Self)
        ensures
            m.occurance_count@.len() == 0,
            m.parse_issues@.len() == 0,
    {
        UrlMap { occurance_count: Vec::new(), parse_issues: Vec::new() }
    }

    /// Summarises the map: the number of urls that did not parse, the count
    /// under `<no domain>`, and the number of other keys.
    pub fn tally(&self) -> (t: Tally)
        requires
            distinct_keys(self.occurance_count@),
        ensures
            t.parse_issues == self.parse_issues@.len(),
            match entry_with_key(self.occurance_count@, no_domain_key()) {
                Some(i) => t.no_domain == self.occurance_count@[i].1 && t.domains
                    == self.occurance_count@.len() - 1,
                None => t.no_domain == 0 && t.domains == self.occurance_count@.len(),
            },
    {
        let key = String::from_str("<no domain>");
        let mut i: usize = 0;
        while i < self.occurance_count.len()
            invariant
                i <= self.occurance_count@.len(),
                key@ == no_domain_key(),
                forall|j: int| 0 <= j < i ==> self.occurance_count@[j].0@ != no_domain_key(),
                distinct_keys(self.occurance_count@),
            decreases self.occurance_count.len() - i,
        {
            if self.occurance_count[i].0 == key {
                proof {
                    let entries = self.occurance_count@;
                    assert(entries[i as int].0@ == no_domain_key());
                    let w = choose|w: int| 0 <= w < entries.len() && entries[w].0@ == no_domain_key();
                    assert(w == i);
                }
                return Tally {
                    parse_issues: self.parse_issues.len(),
                    no_domain: self.occurance_count[i].1,
                    domains: self.occurance_count.len() - 1,
                };
            }
            i = i + 1;
        }
        Tally {
            parse_issues: self.parse_issues.len(),
            no_domain: 0,
            domains: self.occurance_count.len(),
        }
    }
}

/// The key under which a parse result is counted: the domain, or
/// `<no domain>`; none when the url did not parse.
pub open spec fn parsed_key(parsed: Result<Option<String>, url::ParseError>) -> Option<Seq<char>> {
    match parsed {
        Ok(Some(d)) => Some(d@),
        Ok(None) => Some(no_domain_key()),
        Err(_) => None,
    }
}

/// The views of the bookmarks whose url did not parse.
pub open spec fn issues_view(issues: Seq<(Bookmark, url::ParseError)>) -> Seq<(Seq<char>, Seq<char>, Seq<Seq<char>>)> {
    issues.map_values(|p: (Bookmark, url::ParseError)| bookmark_view(p.0))
}

/// Counts one bookmark, given what parsing its url gave: a url that did not
/// parse is kept aside with its error; else the count of its key goes up by
/// one, or the key is added with a count of one.
pub fn record_url(map: &mut UrlMap, bookmark: &Bookmark, parsed: Result<Option<String>, url::ParseError>)
    requires
        distinct_keys(old(map).occurance_count@),
        forall|i: int|
            0 <= i < old(map).occurance_count@.len() ==> #[trigger] old(map).occurance_count@[i].1
                < usize::MAX,
    ensures
        distinct_keys(final(map).occurance_count@),
        match parsed {
            Err(e) => {
                &&& final(map).occurance_count == old(map).occurance_count
                &&& issues_view(final(map).parse_issues@) == issues_view(old(map).parse_issues@).push(
                    bookmark_view(*bookmark),
                )
                &&& final(map).parse_issues@.last().1 == e
            },
            Ok(_) => {
                let key = parsed_key(parsed)->Some_0;
                &&& final(map).parse_issues == old(map).parse_issues
                &&& match entry_with_key(old(map).occurance_count@, key) {
                    Some(i) => final(map).occurance_count@ == old(map).occurance_count@.update(
                        i,
                        (old(map).occurance_count@[i].0, (old(map).occurance_count@[i].1 + 1) as usize),
                    ),
                    None => {
                        &&& final(map).occurance_count@.len() == old(map).occurance_count@.len() + 1
                        &&& final(map).occurance_count@.drop_last() == old(map).occurance_count@
                        &&& final(map).occurance_count@.last().0@ == key
                        &&& final(map).occurance_count@.last().1 == 1
                    },
                }
            },
        },
{
    let key = match parsed {
        Err(e) => {
            let ghost before = map.parse_issues@;
            map.parse_issues.push((copy_bookmark(bookmark), e));
            assert(issues_view(map.parse_issues@) =~= issues_view(before).push(bookmark_view(*bookmark)));
            return;
        },
        Ok(Some(d)) => d,
        Ok(None) => String::from_str("<no domain>"),
    };
    let mut j: usize = 0;
    let mut found = false;
    while j < map.occurance_count.len() && !found
        invariant
            j <= map.occurance_count@.len(),
            found ==> j < map.occurance_count@.len() && map.occurance_count@[j as int].0@ == key@,
            forall|m: int| 0 <= m < j ==> map.occurance_count@[m].0@ != key@,
        decreases map.occurance_count.len() - j + if found {
            0int
        } else {
            1int
        },
    {
        if map.occurance_count[j].0 == key {
            found = true;
        } else {
            j = j + 1;
        }
    }
    let ghost entries = map.occurance_count@;
    if found {
        proof {
            let w = choose|w: int| 0 <= w < entries.len() && entries[w].0@ == key@;
            assert(w == j);
        }
        let name = map.occurance_count[j].0.clone();
        let c = map.occurance_count[j].1;
        map.occurance_count.set(j, (name, c + 1));
        assert forall|m: int|
            0 <= m < map.occurance_count@.len() implies map.occurance_count@[m].0@ == entries[m].0@ by {}
    } else {
        map.occurance_count.push((key, 1));
        assert(map.occurance_count@.drop_last() =~= entries);
    }
}

/// The sum of the counts of the entries.
pub open spec fn total_count(entries: Seq<(String, usize)>) -> int
    decreases entries.len(),
{
    if entries.len() == 0 {
        0
    } else {
        total_count(entries.drop_last()) + entries.last().1
    }
}

proof fn lemma_total_count_update(entries: Seq<(String, usize)>, i: int, e: (String, usize))
    requires
        0 <= i < entries.len(),
    ensures
        total_count(entries.update(i, e)) == total_count(entries) - entries[i].1 + e.1,
    decreases entries.len(),
{
    let u = entries.update(i, e);
    if i == entries.len() - 1 {
        assert(u.drop_last() =~= entries.drop_last());
    } else {
        assert(u.drop_last() =~= entries.drop_last().update(i, e));
        lemma_total_count_update(entries.drop_last(), i, e);
    }
}

/// Counts the domains of the bookmarks' urls: urls without a domain under
/// `<no domain>`, urls that do not parse kept aside with their error.
pub fn url_occurances(bookmarks: &Vec<Bookmark>) -> (map: UrlMap)
    ensures
        counts_match(map.occurance_count@, bookmarks@),
        issues_view(map.parse_issues@) == unparsed(bookmarks@),
        total_count(map.occurance_count@) + map.parse_issues@.len() == bookmarks@.len(),
{
    let mut map = UrlMap::new();
    let mut i: usize = 0;
    assert(issues_view(map.parse_issues@) =~= unparsed(bookmarks@.subrange(0, 0)));
    while i < bookmarks.len()
        invariant
            i <= bookmarks.len(),
            counts_match(map.occurance_count@, bookmarks@.subrange(0, i as int)),
            issues_view(map.parse_issues@) == unparsed(bookmarks@.subrange(0, i as int)),
            total_count(map.occurance_count@) + map.parse_issues@.len() == i,
        decreases bookmarks.len() - i,
    {
        let ghost prev = bookmarks@.subrange(0, i as int);
        let ghost next = bookmarks@.subrange(0, i + 1);
        assert(next.drop_last() =~= prev);
        assert(next.last() == bookmarks@[i as int]);
        let ghost old_entries = map.occurance_count@;
        assert forall|m: int| 0 <= m < old_entries.len() implies #[trigger] old_entries[m].1 < usize::MAX by {
            lemma_key_count_bound(prev, old_entries[m].0@);
        }
        let b = &bookmarks[i];
        let parsed = parse_url_domain(b.url.as_str());
        let ghost key = parsed_key(parsed);
        assert(key == domain_key(*b));
        let ghost old_issues = map.parse_issues@;
        record_url(&mut map, b, parsed);
        proof {
            let entries = map.occurance_count@;
            if key is None {
                assert(issues_view(map.parse_issues@).len() == issues_view(old_issues).len() + 1);
            } else {
                match entry_with_key(old_entries, key->Some_0) {
                    Some(w) => {
                        lemma_total_count_update(
                            old_entries,
                            w,
                            (old_entries[w].0, (old_entries[w].1 + 1) as usize),
                        );
                    },
                    None => {
                        assert(entries.drop_last() == old_entries);
                    },
                }
            }
            if key is None {
                assert forall|k: Seq<char>| key_count(next, k) == key_count(prev, k) by {}
            } else {
                let kk = key->Some_0;
                assert forall|k: Seq<char>| #[trigger] key_count(next, k) == key_count(prev, k) + if k == kk {
                    1nat
                } else {
                    0nat
                } by {}
                match entry_with_key(old_entries, kk) {
                    Some(w) => {
                        assert forall|m: int| 0 <= m < entries.len() implies entries[m].1 == key_count(
                            next,
                            entries[m].0@,
                        ) && entries[m].1 > 0 by {
                            if m != w {
                                assert(entries[m] == old_entries[m]);
                            }
                        }
                        assert forall|k: Seq<char>| key_count(next, k) > 0 implies exists|m: int|
                            0 <= m < entries.len() && entries[m].0@ == k by {
                            if k == kk {
                                assert(entries[w].0@ == k);
                            } else {
                                let m = choose|m: int| 0 <= m < old_entries.len() && old_entries[m].0@ == k;
                                assert(entries[m].0@ == k);
                            }
                        }
                    },
                    None => {
                        assert(key_count(prev, kk) == 0) by {
                            if key_count(prev, kk) > 0 {
                                let m = choose|m: int| 0 <= m < old_entries.len() && old_entries[m].0@ == kk;
                                assert(0 <= m < old_entries.len() && old_entries[m].0@ == kk);
                            }
                        }
                        assert forall|m: int| 0 <= m < entries.len() implies entries[m].1 == key_count(
                            next,
                            entries[m].0@,
                        ) && entries[m].1 > 0 by {
                            if m < old_entries.len() {
                                assert(entries[m] == entries.drop_last()[m]);
                            }
                        }
                        assert forall|k: Seq<char>| key_count(next, k) > 0 implies exists|m: int|
                            0 <= m < entries.len() && entries[m].0@ == k by {
                            if k == kk {
                                assert(entries[old_entries.len() as int].0@ == k);
                            } else {
                                let m = choose|m: int| 0 <= m < old_entries.len() && old_entries[m].0@ == k;
                                assert(entries[m] == entries.drop_last()[m]);
                                assert(entries[m].0@ == k);
                            }
                        }
                    },
                }
            }
        }
        i = i + 1;
    }
    assert(bookmarks@.subrange(0, i as int) =~= bookmarks@);
    map
}

proof fn lemma_key_count_bound(bs: Seq<Bookmark>, key: Seq<char>)
    ensures
        key_count(bs, key) <= bs.len(),
    decreases bs.len(),
{
    if bs.len() > 0 {
        lemma_key_count_bound(bs.drop_last(), key);
    }
}

/// Does entry `a` come before entry `b` in the summary: a higher count
/// first, and of equal counts the later entry first.
pub open spec fn summary_before(entries: Seq<(String, usize)>, a: int, b: int) -> bool {
    entries[a].1 > entries[b].1 || (entries[a].1 == entries[b].1 && a > b)
}

/// Is `order` an arrangement of all positions of `entries` in summary
/// order?
pub open spec fn is_summary_order(entries: Seq<(String, usize)>, order: Seq<usize>) -> bool {
    &&& order.len() == entries.len()
    &&& forall|a: int| 0 <= a < order.len() ==> order[a] < entries.len()
    &&& forall|a: int, b: int| 0 <= a < b < order.len() ==> order[a] != order[b]
    &&& forall|a: int, b: int|
        0 <= a < b < order.len() ==> summary_before(entries, order[a] as int, order[b] as int)
}

/// The positions of the entries ordered for the summary: by count, highest
/// first, and of equal counts the later entry first.
pub fn summary_order(entries: &Vec<(String, usize)>) -> (order: Vec<usize>)
    ensures
        is_summary_order(entries@, order@),
{
    let mut order: Vec<usize> = Vec::new();
    let mut i: usize = 0;
    while i < entries.len()
        invariant
            i <= entries@.len(),
            order@.len() == i,
            forall|a: int| 0 <= a < order@.len() ==> order@[a] < i,
            forall|a: int, b: int| 0 <= a < b < order@.len() ==> order@[a] != order@[b],
            forall|a: int, b: int|
                0 <= a < b < order@.len() ==> summary_before(entries@, order@[a] as int, order@[b] as int),
        decreases entries@.len() - i,
    {
        let count = entries[i].1;
        let mut p: usize = 0;
        while p < order.len() && entries[order[p]].1 > count
            invariant
                p <= order@.len(),
                i < entries@.len(),
                count == entries@[i as int].1,
                forall|a: int| 0 <= a < order@.len() ==> order@[a] < i,
                forall|a: int| 0 <= a < p ==> entries@[order@[a] as int].1 > count,
            decreases order@.len() - p,
        {
            p = p + 1;
        }
        let ghost before = order@;
        order.insert(p, i);
        proof {
            assert forall|a: int, b: int| 0 <= a < b < order@.len() implies summary_before(
                entries@,
                order@[a] as int,
                order@[b] as int,
            ) by {
                if a < p && b == p {
                } else if a < p && b > p {
                    assert(order@[b] == before[b - 1]);
                } else if a == p {
                    assert(order@[b] == before[b - 1]);
                    if b - 1 > p {
                        assert(summary_before(entries@, before[p as int] as int, before[b - 1] as int));
                    }
                } else if a > p {
                    assert(order@[a] == before[a - 1]);
                    assert(order@[b] == before[b - 1]);
                }
            }
            assert forall|a: int, b: int| 0 <= a < b < order@.len() implies order@[a] != order@[b] by {
                if a < p && b > p {
                    assert(order@[b] == before[b - 1]);
                } else if a > p {
                    assert(order@[a] == before[a - 1]);
                    assert(order@[b] == before[b - 1]);
                } else if a == p {
                    assert(order@[b] == before[b - 1]);
                }
            }
            assert forall|a: int| 0 <= a < order@.len() implies order@[a] < i + 1 by {
                if a > p {
                    assert(order@[a] == before[a - 1]);
                }
            }
        }
        i = i + 1;
    }
    order
}

/// The line of the summary for an entry: the key and its count.
pub open spec fn summary_line(entry: (String, usize)) -> Seq<char> {
    entry.0@ + ": "@ + decimal(entry.1 as nat)
}

impl UrlMap {
    /// The lines of the url summary: each key with its count, by count
    /// highest first, and of equal counts the later entry first.
    pub fn summary(&self) -> (lines: Vec<String>)
        ensures
            exists|order: Seq<usize>|
                #[trigger] is_summary_order(self.occurance_count@, order) && lines@.len()
                    == order.len() && forall|k: int|
                    0 <= k < order.len() ==> (#[trigger] lines@[k])@ == summary_line(
                        self.occurance_count@[order[k] as int],
                    ),
    {
        let order = summary_order(&self.occurance_count);
        let mut lines: Vec<String> = Vec::new();
        let mut k: usize = 0;
        while k < order.len()
            invariant
                k <= order@.len(),
                is_summary_order(self.occurance_count@, order@),
                lines@.len() == k,
                forall|m: int|
                    0 <= m < k ==> (#[trigger] lines@[m])@ == summary_line(
                        self.occurance_count@[order@[m] as int],
                    ),
            decreases order@.len() - k,
        {
            let entry = &self.occurance_count[order[k]];
            let mut line = entry.0.clone();
            line.append(": ");
            let n = usize_text(entry.1);
            line.append(n.as_str());
            lines.push(line);
            k = k + 1;
        }
        lines
    }
}

/// The text a tally is shown with.
pub open spec fn tally_text(t: Tally) -> Seq<char> {
    "Tally { parse_issues: "@ + decimal(t.parse_issues as nat) + ", no_domain: "@ + decimal(
        t.no_domain as nat,
    ) + ", domains: "@ + decimal(t.domains as nat) + " }"@
}

impl Tally {
    /// The text the tally is shown with in the statistics.
    pub fn text(&self) -> (s: String)
        ensures
            s@ == tally_text(*self),
    {
        let mut s = String::from_str("Tally { parse_issues: ");
        let a = usize_text(self.parse_issues);
        s.append(a.as_str());
        s.append(", no_domain: ");
        let b = usize_text(self.no_domain);
        s.append(b.as_str());
        s.append(", domains: ");
        let c = usize_text(self.domains);
        s.append(c.as_str());
        s.append(" }");
        s
    }
}

} // verus!
