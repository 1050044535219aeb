use bookmarks::app_state::{
    edit_toggle_message, filter_input_message, step_position, theme_toggle_column_title, tool_row, ToolItem, theme_toggle_message, theme_toggle_title, Action, App,
    BookmarkColumnState, LogPane, MainContent, Metric, MetricValue, Msg, Setting, StatusLog, Theme,
};
use bookmarks::bookmark_list::bookmark_column;
use bookmarks::edit_pane::{Axis, BookmarkChange, EditPaneState};
use bookmarks::records::Bookmark;
use bookmarks::url_map::UrlMap;

fn bm(url: &str, description: &str) -> Bookmark {
    Bookmark { url: url.into(), description: description.into(), tags: Vec::new() }
}

#[test]
fn main_content_names_and_choices() {
    assert_eq!(MainContent::Bookmarks.name(), "Bookmarks");
    assert_eq!(MainContent::Edit.name(), "Edit");
    assert_eq!(MainContent::Log.name(), "Log");
    assert_eq!(
        MainContent::choices(),
        vec![MainContent::Bookmarks, MainContent::Edit, MainContent::Log]
    );
}

#[test]
fn metric_names() {
    assert_eq!(Metric::AverageContentStringLength.name(), "AverageContentStringLength");
    assert_eq!(Metric::UrlOccurances.name(), "UrlOccurances");
    assert_eq!(
        Metric::all(),
        vec![Metric::AverageContentStringLength, Metric::UrlOccurances]
    );
}

#[test]
fn setting_labels_and_titles() {
    assert_eq!(Setting::ShownBookmarks.label(), "shown bookmarks");
    assert_eq!(Setting::ShownFrom.label(), "shown from");
    assert_eq!(Setting::UrlWidth.label(), "url width");
    assert_eq!(Setting::DescWidth.label(), "desc width");
    let titles: Vec<&str> = Setting::in_pane_order().iter().map(|s| s.title()).collect();
    assert_eq!(titles, vec!["Info Width", "Url Width", "Shown", "From"]);
}

#[test]
fn status_log_keeps_every_message() {
    let mut log = StatusLog::new();
    assert_eq!(log.current(), "");
    log.set_status(String::from("first"));
    log.set_status(String::from("second"));
    assert_eq!(log.current(), "second");
    assert_eq!(log.messages(), &vec![String::from("first"), String::from("second")]);
}

#[test]
fn column_defaults() {
    let c = BookmarkColumnState::default();
    assert_eq!(c.desc_width.as_tuple(), (50, "50"));
    assert_eq!(c.url_width.as_tuple(), (75, "75"));
    assert_eq!(c.shown_bookmarks.as_tuple(), (512, "512"));
    assert_eq!(c.shown_from.as_tuple(), (0, "0"));
    assert_eq!(c.filter(), None);
    assert_eq!(c.setting(Setting::UrlWidth).value(), Some(75));
}

#[test]
fn new_state_logs_creation() {
    let s = App::new(Theme::Light);
    assert_eq!(s.status.current(), "Created application");
    assert_eq!(s.status.messages().len(), 1);
    assert_eq!(s.main_content, MainContent::Bookmarks);
    assert!(!s.edit_mode_active);
    assert!(!s.is_ticking());
}

#[test]
fn step_position_moves_pages() {
    assert_eq!(step_position(0, 512, 1), 512);
    assert_eq!(step_position(1024, 512, -1), 512);
    assert_eq!(step_position(100, 512, -1), 0);
    assert_eq!(step_position(usize::MAX - 3, 10, 1), usize::MAX);
    assert_eq!(step_position(5, 3, 0), 5);
    assert_eq!(step_position(0, isize::MAX as usize, 4), isize::MAX as usize);
}

#[test]
fn step_forward_then_back_returns() {
    let from = step_position(7, 20, 1);
    assert_eq!(step_position(from, 20, -1), 7);
    let back = step_position(70, 20, -1);
    assert_eq!(step_position(back, 20, 1), 70);
}

#[test]
fn tick_watchers_count_and_log() {
    let mut s = App::new(Theme::Light);
    s.increment_tick_watchers(2);
    assert_eq!(s.tick_watcher_count, 2);
    assert_eq!(s.status.current(), "incremented tick watcher count from 0 to 2");
    assert!(s.is_ticking());
    s.decrement_tick_watchers(2);
    assert_eq!(s.tick_watcher_count, 0);
    assert_eq!(s.status.current(), "decremented tick watcher count from 2 to 0");
    s.decrement_tick_watchers(1);
    assert_eq!(s.tick_watcher_count, 0);
    assert_eq!(s.status.current(), "decremented tick watcher count from 0 to 0");
    s.tick_watcher_count = usize::MAX;
    s.increment_tick_watchers(1);
    assert_eq!(s.tick_watcher_count, usize::MAX);
}

#[test]
fn update_setting_changes_and_logs() {
    let mut s = App::new(Theme::Light);
    let a = s.update(Msg::UpdateUrlWidth(String::from("30")));
    assert!(matches!(a, Action::Nothing));
    assert_eq!(s.column.url_width.as_tuple(), (30, "30"));
    assert_eq!(s.status.current(), "changed url width to 30");
    s.update(Msg::UpdateDescWidth(String::new()));
    assert_eq!(s.column.desc_width.value(), None);
    assert_eq!(s.status.current(), "changed desc width to none");
    s.update(Msg::UpdateShownBookmarks(String::from("10")));
    assert_eq!(s.status.current(), "changed shown bookmarks to 10");
    s.update(Msg::UpdateShownFrom(String::from("3")));
    assert_eq!(s.status.current(), "changed shown from to 3");
    assert_eq!(s.status.messages().len(), 5);
}

#[test]
fn update_setting_ignores_bad_text() {
    let mut s = App::new(Theme::Light);
    s.update(Msg::UpdateShownBookmarks(String::from("many")));
    assert_eq!(s.column.shown_bookmarks.as_tuple(), (512, "512"));
    assert_eq!(s.status.messages().len(), 1);
}

#[test]
fn update_steps_pages_and_scrolls() {
    let mut s = App::new(Theme::Light);
    let a = s.update(Msg::UpdateShownFromSteps(2));
    assert!(matches!(a, Action::ScrollToTop));
    assert_eq!(s.column.shown_from.as_tuple(), (1024, "1024"));
    s.update(Msg::UpdateShownFromSteps(-5));
    assert_eq!(s.column.shown_from.as_tuple(), (0, "0"));
}

#[test]
fn update_filter_and_apply() {
    let mut s = App::new(Theme::Light);
    s.update(Msg::AddBookmarks(Some(vec![
        bm("https://www.rust-lang.org", "Rust"),
        bm("https://example.com", "Example"),
        bm("https://crates.io", "RUST packages"),
    ])));
    assert!(matches!(s.update(Msg::ApplyFilter), Action::Nothing));
    assert!(s.applied_filters.is_empty());
    s.update(Msg::FilterBookmarks(String::from("rust")));
    assert_eq!(s.column.filter(), Some("rust"));
    assert!(matches!(s.update(Msg::ApplyFilter), Action::Nothing));
    assert_eq!(s.applied_filters, vec![String::from("rust")]);
    s.update(Msg::FilterBookmarks(String::new()));
    let col = bookmark_column(&s);
    let idx: Vec<usize> = col.rows.iter().map(|r| r.index).collect();
    assert_eq!(idx, vec![0, 2]);
    assert_eq!(s.bookmarks.len(), 3);
}

#[test]
fn reset_after_filter_lists_everything() {
    let mut s = App::new(Theme::Light);
    s.update(Msg::AddBookmarks(Some(vec![bm("a", "b")])));
    s.update(Msg::FilterBookmarks(String::from("xyz")));
    s.update(Msg::ApplyFilter);
    s.update(Msg::FilterBookmarks(String::new()));
    assert!(bookmark_column(&s).rows.is_empty());
    assert!(matches!(s.update(Msg::Reset), Action::Nothing));
    assert!(s.applied_filters.is_empty());
    assert_eq!(s.bookmarks.len(), 1);
    assert_eq!(bookmark_column(&s).rows.len(), 1);
    assert_eq!(s.status.current(), "reset bookmark filters");
}

#[test]
fn pane_messages() {
    let mut s = App::new(Theme::Light);
    s.update(Msg::AddBookmarks(Some(vec![bm("u", "d")])));
    s.update(Msg::DragLogPane(0, 1));
    assert!(matches!(s.log_panes.as_slice(), [LogPane::Stats, LogPane::Log]));
    s.update(Msg::CloseLogPane(0));
    assert!(matches!(s.log_panes.as_slice(), [LogPane::Log]));
    s.update(Msg::CloseLogPane(0));
    assert_eq!(s.log_panes.len(), 1);
    s.update(Msg::EditBookmark(0));
    s.update(Msg::EditBookmarkPaneChange(1, BookmarkChange::Url(String::from("v"))));
    match &s.edit_panes[1] {
        EditPaneState::Bookmark(p) => assert_eq!(p.url, "v"),
        other => panic!("unexpected pane {other:?}"),
    }
    s.update(Msg::DragEditPane(0, 1));
    assert!(matches!(s.edit_panes[1], EditPaneState::Settings));
    s.update(Msg::CloseEditPane(0));
    assert!(matches!(s.edit_panes.as_slice(), [EditPaneState::Settings]));
}

#[test]
fn tool_row_items() {
    let row = tool_row("rust", true);
    assert_eq!(row.len(), 6);
    assert!(matches!(row[0], ToolItem::Label("Filter:")));
    assert!(matches!(row[1], ToolItem::FilterInput(ref t) if t == "rust"));
    assert!(matches!(row[2], ToolItem::Button { label: "Apply", on_press: Msg::ApplyFilter }));
    assert!(matches!(row[3], ToolItem::Button { label: "Reset", on_press: Msg::Reset }));
    assert!(matches!(row[5], ToolItem::EditToggle(true)));
    assert!(matches!(filter_input_message(String::from("x")), Msg::FilterBookmarks(ref t) if t == "x"));
    assert!(matches!(edit_toggle_message(false), Msg::SetEditMode(false)));
}

#[test]
fn add_bookmarks_appends_in_order() {
    let mut s = App::new(Theme::Dark);
    s.update(Msg::AddBookmarks(Some(vec![bm("a", "")])));
    s.update(Msg::AddBookmarks(None));
    s.update(Msg::AddBookmarks(Some(vec![bm("b", ""), bm("c", "")])));
    let urls: Vec<&str> = s.bookmarks.iter().map(|b| b.url.as_str()).collect();
    assert_eq!(urls, vec!["a", "b", "c"]);
}

#[test]
fn update_switches_and_edits() {
    let mut s = App::new(Theme::Light);
    s.update(Msg::AddBookmarks(Some(vec![bm("u0", "d0"), bm("u1", "d1")])));
    s.update(Msg::SwitchMainTo(MainContent::Log));
    assert_eq!(s.main_content, MainContent::Log);
    s.update(Msg::SetEditMode(true));
    assert!(s.edit_mode_active);
    assert!(matches!(s.update(Msg::EditBookmark(1)), Action::SplitEditPane(Axis::Vertical)));
    assert_eq!(s.main_content, MainContent::Edit);
    assert_eq!(s.edit_panes.len(), 2);
    match &s.edit_panes[1] {
        EditPaneState::Bookmark(p) => assert_eq!((p.url.as_str(), p.info.as_str(), p.index), ("u1", "d1", 1)),
        other => panic!("unexpected pane {other:?}"),
    }
    assert!(matches!(s.update(Msg::EditBookmark(0)), Action::SplitEditPane(Axis::Horizontal)));
    s.update(Msg::SwitchMainTo(MainContent::Bookmarks));
    assert!(matches!(s.update(Msg::EditCategory(2)), Action::EditCategory(2)));
    assert_eq!(s.main_content, MainContent::Edit);
}

#[test]
fn theme_setting_and_toggle() {
    let mut s = App::new(Theme::Light);
    assert!(!s.is_dark_mode());
    let m = theme_toggle_message(true);
    assert!(matches!(m, Msg::SetTheme(Theme::Dark)));
    s.update(m);
    assert_eq!(s.theme, Theme::Dark);
    assert!(s.is_dark_mode());
    assert!(matches!(theme_toggle_message(false), Msg::SetTheme(Theme::Light)));
    assert_eq!(theme_toggle_title(), "Use Dark Theme");
    assert_eq!(theme_toggle_column_title(), "Use Dark Theme:");
}

#[test]
fn settings_inputs_and_messages() {
    let mut s = App::new(Theme::Light);
    s.update(Msg::UpdateUrlWidth(String::from("30")));
    let inputs = s.settings_inputs();
    let got: Vec<(&str, &str)> = inputs.iter().map(|i| (i.title, i.value.as_str())).collect();
    assert_eq!(got, vec![("Info Width", "50"), ("Url Width", "30"), ("Shown", "512"), ("From", "0")]);
    assert!(matches!(inputs[0].setting.message(String::from("9")), Msg::UpdateDescWidth(ref t) if t == "9"));
    assert!(matches!(inputs[3].setting.message(String::from("1")), Msg::UpdateShownFrom(ref t) if t == "1"));
    assert_eq!(Setting::DescWidth.column_title(), "Info Width:");
    assert_eq!(Setting::ShownFrom.column_title(), "From:");
}

#[test]
fn choice_row_selects_current() {
    let row = MainContent::Edit.choice_row();
    let got: Vec<(&str, bool)> = row.iter().map(|c| (c.label, c.selected)).collect();
    assert_eq!(got, vec![("Bookmarks", false), ("Edit", true), ("Log", false)]);
    assert!(matches!(row[2].on_choose, Msg::SwitchMainTo(MainContent::Log)));
}

#[test]
fn initial_state_has_empty_log() {
    let s = App::with_theme(Theme::Dark);
    assert_eq!(s.status.messages().len(), 0);
    assert_eq!(s.status.current(), "");
    assert_eq!(s.theme, Theme::Dark);
    assert!(matches!(s.log_panes.as_slice(), [LogPane::Log, LogPane::Stats]));
    assert!(matches!(s.edit_panes.as_slice(), [EditPaneState::Settings]));
    assert!(s.bookmarks.is_empty() && s.category_tree.is_empty());
    assert!(matches!(s.metrics.get(Metric::UrlOccurances), MetricValue::Absent));
}

#[test]
fn debug_message_is_logged() {
    let mut s = App::new(Theme::Light);
    s.update(Msg::Debug(String::from("Some(3)")));
    assert_eq!(s.status.current(), "Some(3)");
}

#[test]
fn update_passes_on_outside_work() {
    let mut s = App::new(Theme::Light);
    assert!(matches!(s.update(Msg::GotoBookmarkLocation(3)), Action::OpenBookmark(3)));
    match s.update(Msg::ApplyCategory(vec![0, 2])) {
        Action::ApplyCategories(v) => assert_eq!(v, vec![0, 2]),
        other => panic!("unexpected action {other:?}"),
    }
    assert!(matches!(s.update(Msg::Tick), Action::ReceiveResults));
    assert!(matches!(s.update(Msg::Nothing), Action::Nothing));
    assert_eq!(s.status.messages().len(), 1);
    assert!(matches!(s.update(Msg::Reset), Action::Nothing));
    assert_eq!(s.status.current(), "reset bookmark filters");
}

#[test]
fn gather_and_report_metric() {
    let mut s = App::new(Theme::Light);
    let a = s.update(Msg::GatherMetric(Metric::UrlOccurances));
    assert!(matches!(a, Action::Gather(Metric::UrlOccurances)));
    assert_eq!(s.tick_watcher_count, 1);
    assert!(s.is_ticking());
    let mut map = UrlMap::new();
    map.occurance_count.push((String::from("a.org"), 2));
    s.report_gathered(
        Metric::UrlOccurances,
        MetricValue::UrlMap(map),
        "Tally { parse_issues: 0, no_domain: 0, domains: 1 }",
    );
    let n = s.status.messages().len();
    assert_eq!(
        s.status.messages()[n - 2],
        "gathered metric \"UrlOccurances\", value [Tally { parse_issues: 0, no_domain: 0, domains: 1 }]"
    );
    assert_eq!(s.status.current(), "decremented tick watcher count from 1 to 0");
    assert!(!s.is_ticking());
    assert_eq!(s.log_panes.len(), 3);
    match &s.log_panes[2] {
        LogPane::UrlSummary(m) => assert_eq!(m.occurance_count, vec![(String::from("a.org"), 2)]),
        other => panic!("unexpected pane {other:?}"),
    }
    assert!(matches!(s.metrics.get(Metric::UrlOccurances), MetricValue::UrlMap(_)));
    s.update(Msg::GatherMetric(Metric::AverageContentStringLength));
    s.report_gathered(Metric::AverageContentStringLength, MetricValue::Average { total: 10, count: 4 }, "2.5");
    let n = s.status.messages().len();
    assert_eq!(s.status.messages()[n - 2], "gathered metric \"AverageContentStringLength\", value [2.5]");
    assert!(matches!(
        s.metrics.get(Metric::AverageContentStringLength),
        MetricValue::Average { total: 10, count: 4 }
    ));
    s.update(Msg::GatherMetric(Metric::AverageContentStringLength));
    s.report_gathered(Metric::AverageContentStringLength, MetricValue::Absent, "");
    let n = s.status.messages().len();
    assert_eq!(
        s.status.messages()[n - 2],
        "failed to gather metric \"AverageContentStringLength\""
    );
    assert_eq!(s.log_panes.len(), 3);
}

#[test]
fn report_messages() {
    let mut s = App::new(Theme::Light);
    s.report_opened("https://a.org", None);
    assert_eq!(s.status.current(), "opened bookmark [https://a.org]");
    s.report_opened("https://a.org", Some("no browser"));
    assert_eq!(s.status.current(), "Failed to open: https://a.org, no browser");
    s.report_applied("News", None);
    assert_eq!(s.status.current(), "applied category <News>");
    s.report_applied("News", Some("bad rule"));
    assert_eq!(s.status.current(), "failed to apply category <News>, bad rule");
    s.report_section("bookmark", None);
    assert_eq!(s.status.current(), "loaded section [bookmark]");
    s.report_section("bookmark", Some("line 3"));
    assert_eq!(s.status.current(), "failed to load section [bookmark], line 3");
    assert_eq!(s.status.messages().len(), 7);
}
