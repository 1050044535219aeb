use bookmarks::records::Bookmark;
use bookmarks::url_map::{record_url, summary_order, url_occurances, Tally, UrlMap};

fn bm(url: &str) -> Bookmark {
    Bookmark { url: url.into(), description: String::new(), tags: Vec::new() }
}

fn count_of(map: &UrlMap, key: &str) -> Option<usize> {
    map.occurance_count.iter().find(|e| e.0 == key).map(|e| e.1)
}

#[test]
fn occurances_count_domains() {
    let bookmarks = vec![
        bm("https://example.com/a"),
        bm("https://example.com/b"),
        bm("not a url"),
        bm("https://127.0.0.1/x"),
        bm("https://rust-lang.org"),
    ];
    let map = url_occurances(&bookmarks);
    assert_eq!(count_of(&map, "example.com"), Some(2));
    assert_eq!(count_of(&map, "rust-lang.org"), Some(1));
    assert_eq!(count_of(&map, "<no domain>"), Some(1));
    assert_eq!(map.occurance_count.len(), 3);
    assert_eq!(map.parse_issues.len(), 1);
    assert_eq!(map.parse_issues[0].0.url, "not a url");
    let total: usize = map.occurance_count.iter().map(|e| e.1).sum();
    assert_eq!(total + map.parse_issues.len(), bookmarks.len());
}

#[test]
fn tally_separates_no_domain() {
    let bookmarks = vec![bm("https://a.org"), bm("https://10.0.0.1"), bm("::"), bm("https://b.org")];
    let t = url_occurances(&bookmarks).tally();
    assert_eq!(t, Tally { parse_issues: 1, no_domain: 1, domains: 2 });
    assert_eq!(t.text(), "Tally { parse_issues: 1, no_domain: 1, domains: 2 }");
    assert_eq!(t.text(), format!("{t:?}"));
}

#[test]
fn tally_of_empty_map() {
    let t = UrlMap::new().tally();
    assert_eq!(t, Tally { parse_issues: 0, no_domain: 0, domains: 0 });
}

#[test]
fn record_url_counts_one_bookmark() {
    let mut map = UrlMap::new();
    record_url(&mut map, &bm("https://x.org/1"), Ok(Some(String::from("x.org"))));
    record_url(&mut map, &bm("https://x.org/2"), Ok(Some(String::from("x.org"))));
    record_url(&mut map, &bm("file:///tmp"), Ok(None));
    assert_eq!(map.occurance_count, vec![(String::from("x.org"), 2), (String::from("<no domain>"), 1)]);
    let err = url::Url::parse("no scheme").expect_err("a relative url");
    record_url(&mut map, &bm("no scheme"), Err(err));
    assert_eq!(map.parse_issues.len(), 1);
    assert_eq!(map.parse_issues[0].1, url::ParseError::RelativeUrlWithoutBase);
}

#[test]
fn summary_orders_by_count_then_later_first() {
    let mut map = UrlMap::new();
    map.occurance_count = vec![
        (String::from("a.org"), 1),
        (String::from("b.org"), 3),
        (String::from("c.org"), 1),
        (String::from("d.org"), 2),
    ];
    assert_eq!(summary_order(&map.occurance_count), vec![1, 3, 2, 0]);
    assert_eq!(map.summary(), vec!["b.org: 3", "d.org: 2", "c.org: 1", "a.org: 1"]);
}
