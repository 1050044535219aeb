use bookmarks::bookmark_list::{
    is_shown, matches_filter, page, page_header_text, truncate_clusters, truncated_text,
};
use bookmarks::app_state::{App, Msg, Theme};
use bookmarks::bookmark_list::{bookmark_column, bookmark_row};
use bookmarks::records::Bookmark;

fn bm(url: &str, description: &str) -> Bookmark {
    Bookmark { url: url.into(), description: description.into(), tags: Vec::new() }
}

fn sample() -> Vec<Bookmark> {
    vec![
        bm("https://www.rust-lang.org", "The Rust language"),
        bm("https://example.com", "An example"),
        bm("https://docs.rs", "Documentation of RUST crates"),
        bm("https://news.ycombinator.com", "Hacker News"),
        bm("https://crates.io", "rust package registry"),
    ]
}

#[test]
fn filter_ignores_ascii_case() {
    let b = bm("https://www.rust-lang.org", "home");
    assert!(is_shown(&b, &Vec::new()));
    assert!(matches_filter(&b, "RUST"));
    assert!(matches_filter(&b, "Lang.Org"));
    assert!(!matches_filter(&b, "python"));
}

#[test]
fn filter_reads_description_too() {
    let b = bm("https://example.com", "Weekly NEWS digest");
    assert!(matches_filter(&b, "news"));
    assert!(!matches_filter(&b, "newsletter"));
}

#[test]
fn filter_folds_only_ascii_letters() {
    let b = bm("https://example.com", "Über alles");
    assert!(matches_filter(&b, "Über"));
    assert!(!matches_filter(&b, "über"));
}

#[test]
fn page_without_filter() {
    let bs = sample();
    assert_eq!(page(&bs, &Vec::new(), 0, 2), vec![0, 1]);
    assert_eq!(page(&bs, &Vec::new(), 3, 10), vec![3, 4]);
    assert_eq!(page(&bs, &Vec::new(), 9, 10), Vec::<usize>::new());
    assert_eq!(page(&bs, &Vec::new(), 1, 0), Vec::<usize>::new());
}

#[test]
fn page_with_filter_counts_matches_only() {
    let bs = sample();
    assert_eq!(page(&bs, &vec![String::from("rust")], 0, 512), vec![0, 2, 4]);
    assert_eq!(page(&bs, &vec![String::from("rust")], 1, 1), vec![2]);
    assert_eq!(page(&bs, &vec![String::from("rust")], 2, usize::MAX), vec![4]);
}

#[test]
fn several_patterns_must_all_match() {
    let bs = sample();
    let both = vec![String::from("rust"), String::from("crates")];
    assert_eq!(page(&bs, &both, 0, 10), vec![2, 4]);
    assert!(is_shown(&bs[2], &both));
    assert!(!is_shown(&bs[0], &both));
}

#[test]
fn header_text() {
    assert_eq!(page_header_text(0, 3, 10), "Bookmarks (0~3/10):");
    assert_eq!(page_header_text(512, 0, 512), "Bookmarks (512~512/512):");
    assert_eq!(
        page_header_text(usize::MAX, 5, 1),
        format!("Bookmarks ({}~{}/1):", usize::MAX, usize::MAX)
    );
}

#[test]
fn truncated_text_cuts_long_text() {
    assert_eq!(truncated_text("abcdefghij", 5), "ab...");
    assert_eq!(truncated_text("abcde", 5), "abcde");
    assert_eq!(truncated_text("abcdef", 0), "abcdef");
    assert_eq!(truncated_text("abcdef", 2), "..");
    assert_eq!(truncated_text("abcdef", 1), ".");
    assert_eq!(truncated_text("", 3), "");
}

#[test]
fn truncated_text_counts_grapheme_clusters() {
    let text = "e\u{301}e\u{301}e\u{301}e\u{301}e\u{301}e\u{301}";
    assert_eq!(truncated_text(text, 6), text);
    assert_eq!(truncated_text(text, 5), "e\u{301}e\u{301}...");
    let flags = "🇷🇺🇸🇹🇷🇺🇸🇹🇷🇺";
    assert_eq!(truncated_text(flags, 4), "🇷🇺...");
}

#[test]
fn truncate_clusters_uses_given_clusters() {
    let clusters = vec![String::from("ab"), String::from("c"), String::from("d"), String::from("e"), String::from("f")];
    assert_eq!(truncate_clusters("abcdef", 4, &clusters), "ab...");
    assert_eq!(truncate_clusters("abcdef", 5, &clusters), "abcdef");
}

#[test]
fn same_pattern_twice_lists_the_same() {
    let bs = sample();
    let once = vec![String::from("rust")];
    let twice = vec![String::from("rust"), String::from("rust")];
    assert_eq!(page(&bs, &once, 0, 10), page(&bs, &twice, 0, 10));
}

#[test]
fn bookmark_row_actions_and_widths() {
    let bs = sample();
    let r = bookmark_row(&bs, 0, 8, 0, false);
    assert_eq!(r.index, 0);
    assert_eq!(r.description, "The R...");
    assert_eq!(r.url, "https://www.rust-lang.org");
    assert!(r.edit.is_none());
    assert!(matches!(r.open, Msg::GotoBookmarkLocation(0)));
    let r = bookmark_row(&bs, 3, 0, 0, true);
    assert!(matches!(r.edit, Some(Msg::EditBookmark(3))));
}

#[test]
fn bookmark_column_of_app() {
    let mut app = App::new(Theme::Light);
    app.update(Msg::AddBookmarks(Some(sample())));
    app.update(Msg::FilterBookmarks(String::from("rust")));
    app.update(Msg::UpdateShownBookmarks(String::from("2")));
    app.update(Msg::UpdateShownFrom(String::from("1")));
    app.update(Msg::SetEditMode(true));
    let col = bookmark_column(&app);
    assert_eq!(col.header, "Bookmarks (1~3/5):");
    let idx: Vec<usize> = col.rows.iter().map(|r| r.index).collect();
    assert_eq!(idx, vec![2, 4]);
    assert!(col.rows.iter().all(|r| r.edit.is_some()));
    assert_eq!(col.rows[0].description, "Documentation of RUST crates");
    assert!(matches!(col.rows[1].open, Msg::GotoBookmarkLocation(4)));
}
