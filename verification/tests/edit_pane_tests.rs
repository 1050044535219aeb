use bookmarks::edit_pane::{
    split_axis, Axis, BookmarkChange, BookmarkProxy, CategoryChange, CategoryProxy, EditPaneState,
};
use bookmarks::records::Bookmark;

#[test]
fn panes_split_alternately() {
    assert_eq!(split_axis(0), Axis::Horizontal);
    assert_eq!(split_axis(1), Axis::Vertical);
    assert_eq!(split_axis(2), Axis::Horizontal);
    assert_eq!(split_axis(7), Axis::Vertical);
}

#[test]
fn bookmark_proxy_copies_bookmark() {
    let b = Bookmark {
        url: "https://a.org".into(),
        description: "A".into(),
        tags: vec![String::from("x")],
    };
    let p = BookmarkProxy::of(&b, 3);
    assert_eq!((p.url.as_str(), p.info.as_str(), p.index), ("https://a.org", "A", 3));
    assert_eq!(p.tags, vec![String::from("x")]);
}

#[test]
fn bookmark_pane_changes_one_field() {
    let b = Bookmark { url: "u".into(), description: "d".into(), tags: Vec::new() };
    let mut pane = EditPaneState::Bookmark(BookmarkProxy::of(&b, 0));
    pane.edit_bookmark(BookmarkChange::Info(String::from("new description")));
    pane.edit_bookmark(BookmarkChange::Tags(vec![String::from("t")]));
    match pane {
        EditPaneState::Bookmark(p) => {
            assert_eq!(p.info, "new description");
            assert_eq!(p.url, "u");
            assert_eq!(p.tags, vec![String::from("t")]);
        }
        other => panic!("unexpected pane {other:?}"),
    }
}

#[test]
fn category_pane_changes_one_field() {
    let mut pane = EditPaneState::Category(CategoryProxy {
        id: "tech".into(),
        name: "Tech".into(),
        info: String::new(),
        identifiers: Vec::new(),
        subcategories: Vec::new(),
        index: 1,
    });
    pane.edit_category(CategoryChange::Name(String::from("Technology")));
    pane.edit_category(CategoryChange::Subcategories(vec![String::from("rust")]));
    match pane {
        EditPaneState::Category(p) => {
            assert_eq!(p.name, "Technology");
            assert_eq!(p.id, "tech");
            assert_eq!(p.subcategories, vec![String::from("rust")]);
            assert_eq!(p.index, 1);
        }
        other => panic!("unexpected pane {other:?}"),
    }
}
