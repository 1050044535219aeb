use bookmarks::text_order::{first_occurrences, sorted_order, text_before};

fn strings(v: &[&str]) -> Vec<String> {
    v.iter().map(|s| String::from(*s)).collect()
}

#[test]
fn text_before_is_byte_order() {
    assert!(text_before(&String::from("a"), &String::from("b")));
    assert!(!text_before(&String::from("b"), &String::from("a")));
    assert!(!text_before(&String::from("a"), &String::from("a")));
    assert!(text_before(&String::from("ab"), &String::from("abc")));
    assert!(text_before(&String::from("Z"), &String::from("a")));
    assert!(text_before(&String::from("z"), &String::from("é")));
}

#[test]
fn first_occurrences_of_keys() {
    let keys = strings(&["b", "a", "b", "c", "a"]);
    assert_eq!(first_occurrences(&keys), vec![0, 1, 3]);
}

#[test]
fn sorted_order_of_distinct_keys() {
    let keys = strings(&["b", "a", "b", "c", "a"]);
    let first = first_occurrences(&keys);
    assert_eq!(sorted_order(&keys, &first), vec![1, 0, 3]);
}
