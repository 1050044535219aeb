use bookmarks::startup::startup_script;

#[test]
fn startup_script_loads_then_exits() {
    let paths = vec![String::from("a.txt"), String::from("dir/b.txt")];
    assert_eq!(startup_script(&paths, true), Some(String::from("load a.txt\nload dir/b.txt\nexit")));
    assert_eq!(startup_script(&paths, false), Some(String::from("load a.txt\nload dir/b.txt")));
}

#[test]
fn startup_script_empty_is_none() {
    assert_eq!(startup_script(&Vec::new(), false), None);
    assert_eq!(startup_script(&Vec::new(), true), Some(String::from("exit")));
}
