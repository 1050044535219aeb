use bookmarks::export::{category_resolves_within, Export, ExportError, FileData};
use bookmarks::records::{Bookmark, Category, Info};

fn strings(v: &[&str]) -> Vec<String> {
    v.iter().map(|s| String::from(*s)).collect()
}

fn cat(id: &str, name: &str, subs: &[&str]) -> Category {
    Category {
        id: id.into(),
        name: name.into(),
        description: format!("about {name}"),
        require: strings(&["r"]),
        whole: Vec::new(),
        included: strings(&[id]),
        subcategories: strings(subs),
    }
}

fn bm(url: &str, description: &str, tags: &[&str]) -> Bookmark {
    Bookmark { url: url.into(), description: description.into(), tags: strings(tags) }
}

fn sample() -> (Vec<Info>, Vec<Category>, Vec<Bookmark>) {
    let infos = vec![
        Info { categories: strings(&["tech", "news"]), tags: strings(&["a", "b"]) },
        Info { categories: strings(&["news"]), tags: strings(&["c"]) },
    ];
    let categories = vec![
        cat("tech", "Technology", &["rust"]),
        cat("rust", "Rust", &[]),
        cat("news", "News", &[]),
    ];
    let bookmarks = vec![
        bm("https://z.org", "Z", &["t1"]),
        bm("https://a.org", "first a", &[]),
        bm("https://a.org", "second a", &["dup"]),
        bm("https://m.org", "M", &[]),
    ];
    (infos, categories, bookmarks)
}

#[test]
fn export_collects_tags_in_order() {
    let (infos, categories, bookmarks) = sample();
    let data = FileData::from_slices(&infos, &categories, &bookmarks);
    assert_eq!(data.tag, strings(&["a", "b", "c"]));
}

#[test]
fn export_top_categories_sorted_once_each() {
    let (infos, categories, bookmarks) = sample();
    let data = FileData::from_slices(&infos, &categories, &bookmarks);
    let names: Vec<&str> = data.category.iter().map(|c| c.name.as_str()).collect();
    assert_eq!(names, vec!["News", "Technology"]);
    let tech = &data.category[1];
    assert_eq!(tech.info, "about Technology");
    assert_eq!(tech.identifier.require, strings(&["r"]));
    assert_eq!(tech.identifier.included, strings(&["tech"]));
    assert_eq!(tech.subcategory.len(), 1);
    assert_eq!(tech.subcategory[0].name, "Rust");
    assert!(tech.subcategory[0].subcategory.is_empty());
}

#[test]
fn export_bookmarks_sorted_first_of_each_url() {
    let (infos, categories, bookmarks) = sample();
    let ids = vec![1u128, 2, 3, 4];
    let data = FileData::from_slices_with_ids(&infos, &categories, &bookmarks, &ids);
    let got: Vec<(&str, &str, u128)> =
        data.bookmark.iter().map(|b| (b.url.as_str(), b.info.as_str(), b.uuid)).collect();
    assert_eq!(
        got,
        vec![("https://a.org", "first a", 2), ("https://m.org", "M", 4), ("https://z.org", "Z", 1)]
    );
    assert_eq!(data.bookmark[2].tag, strings(&["t1"]));
}

#[test]
fn export_gives_version_four_uuids() {
    let (infos, categories, bookmarks) = sample();
    let data = FileData::from_slices(&infos, &categories, &bookmarks);
    assert_eq!(data.bookmark.len(), 3);
    for b in &data.bookmark {
        assert_eq!((b.uuid >> 76) & 0xf, 4);
        assert_eq!((b.uuid >> 62) & 0x3, 2);
    }
    assert_ne!(data.bookmark[0].uuid, data.bookmark[1].uuid);
}

#[test]
fn export_later_category_with_same_id_wins() {
    let infos = vec![Info { categories: strings(&["x"]), tags: Vec::new() }];
    let categories = vec![cat("x", "Old", &[]), cat("x", "New", &[])];
    let data = FileData::from_slices(&infos, &categories, &Vec::new());
    assert_eq!(data.category.len(), 1);
    assert_eq!(data.category[0].name, "New");
}

#[test]
fn try_export_refuses_missing_category() {
    let infos = vec![Info { categories: strings(&["tech", "ghost"]), tags: Vec::new() }];
    let categories = vec![cat("tech", "Technology", &[])];
    match FileData::try_from_slices(&infos, &categories, &Vec::new()) {
        Err(ExportError::UnresolvedCategory(id)) => assert_eq!(id, "ghost"),
        Ok(_) => panic!("a missing category was exported"),
    }
}

#[test]
fn try_export_refuses_cycle() {
    let infos = vec![Info { categories: strings(&["a"]), tags: Vec::new() }];
    let categories = vec![cat("a", "A", &["b"]), cat("b", "B", &["a"])];
    assert!(matches!(
        FileData::try_from_slices(&infos, &categories, &Vec::new()),
        Err(ExportError::UnresolvedCategory(_))
    ));
}

#[test]
fn try_export_accepts_resolving_categories() {
    let (infos, categories, bookmarks) = sample();
    let data = FileData::try_from_slices(&infos, &categories, &bookmarks).expect("all resolve");
    assert_eq!(data.category.len(), 2);
    assert_eq!(data.bookmark.len(), 3);
}

#[test]
fn resolves_within_depth() {
    let (_, categories, _) = sample();
    assert!(category_resolves_within(&categories, &String::from("tech"), 2));
    assert!(!category_resolves_within(&categories, &String::from("tech"), 1));
    assert!(!category_resolves_within(&categories, &String::from("nothing"), 5));
    assert!(!category_resolves_within(&categories, &String::from("rust"), 0));
}

#[test]
fn export_command_names() {
    assert_eq!(Export.name(), "export");
    assert_eq!(Export.map_name(), "import");
    let subs = Export.subcommands();
    assert_eq!(subs, vec![("xml", "export to an xml file"), ("mp", "export to message pack binary")]);
}
