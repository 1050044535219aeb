use bookmarks::app_state::Msg;
use bookmarks::category_tree::{categories_header_text, category_row, category_tree, CategoryStyle};
use bookmarks::records::{Category, Info};

fn strings(v: &[&str]) -> Vec<String> {
    v.iter().map(|s| String::from(*s)).collect()
}

fn cat(id: &str, subs: &[&str]) -> Category {
    Category {
        id: id.into(),
        name: id.to_uppercase(),
        description: String::new(),
        require: Vec::new(),
        whole: Vec::new(),
        included: Vec::new(),
        subcategories: strings(subs),
    }
}

#[test]
fn tree_lists_parents_before_children() {
    let categories = vec![cat("a", &["b", "c"]), cat("b", &["d"]), cat("c", &[]), cat("d", &[])];
    let infos = vec![Info { categories: strings(&["a"]), tags: Vec::new() }];
    let tree = category_tree(&categories, &infos);
    assert_eq!(tree, vec![vec![0], vec![0, 1], vec![0, 1, 3], vec![0, 2]]);
}

#[test]
fn tree_reads_infos_last_first() {
    let categories = vec![cat("a", &[]), cat("b", &[]), cat("c", &[])];
    let infos = vec![
        Info { categories: strings(&["a", "b"]), tags: Vec::new() },
        Info { categories: strings(&["c"]), tags: Vec::new() },
    ];
    assert_eq!(category_tree(&categories, &infos), vec![vec![2], vec![0], vec![1]]);
}

#[test]
fn tree_skips_unknown_ids_and_cuts_cycles() {
    let categories = vec![cat("a", &["a", "missing"])];
    let infos = vec![Info { categories: strings(&["missing", "a"]), tags: Vec::new() }];
    let tree = category_tree(&categories, &infos);
    assert_eq!(tree.len(), 12);
    for (k, path) in tree.iter().enumerate() {
        assert_eq!(path.len(), k + 1);
        assert!(path.iter().all(|&i| i == 0));
    }
}

#[test]
fn rows_indent_and_cycle_styles() {
    let cats: Vec<Category> = (0..8).map(|i| cat(&format!("c{i}"), &[])).collect();
    let r = category_row(&cats, &vec![4], false);
    assert_eq!((r.index, r.indent, r.style, r.label.as_str()), (4, 0, CategoryStyle::Primary, "C4"));
    assert!(r.edit.is_none());
    assert!(matches!(r.apply, Msg::ApplyCategory(ref v) if *v == vec![4]));
    let r = category_row(&cats, &vec![4, 1], true);
    assert_eq!((r.index, r.indent, r.style), (1, 24, CategoryStyle::Positive));
    assert!(matches!(r.edit, Some(Msg::EditCategory(1))));
    assert!(matches!(r.apply, Msg::ApplyCategory(ref v) if *v == vec![4, 1]));
    let r = category_row(&cats, &vec![4, 1, 7], false);
    assert_eq!((r.index, r.indent, r.style), (7, 48, CategoryStyle::Destructive));
}

#[test]
fn categories_header() {
    assert_eq!(categories_header_text(0), "Categories (0): ");
    assert_eq!(categories_header_text(17), "Categories (17): ");
}
