use bookmarks::command::{args_are_empty, expect_one_argument, CommandErr};

#[test]
fn args_are_empty_accepts_no_arguments() {
    let args: Vec<String> = Vec::new();
    assert!(args_are_empty(&args).is_ok());
}

#[test]
fn args_are_empty_refuses_arguments() {
    let args = vec![String::from("extra")];
    match args_are_empty(&args) {
        Err(CommandErr::Usage(msg)) => {
            assert_eq!(msg, "command that takes no arguments called with arguments")
        }
        other => panic!("unexpected result {other:?}"),
    }
}

#[test]
fn command_err_messages() {
    assert_eq!(CommandErr::Lookup.message(), "command lookup failed");
    assert_eq!(
        CommandErr::Execution(String::from("disk full")).message(),
        "command execution failed: disk full"
    );
    assert_eq!(
        CommandErr::Usage(String::from("give a path")).message(),
        "incorrect usage: give a path"
    );
}

#[test]
fn command_err_from_string_is_execution() {
    let err: CommandErr = CommandErr::from(String::from("boom"));
    assert!(matches!(err, CommandErr::Execution(ref m) if m == "boom"));
}

#[test]
fn expect_one_argument_checks_count() {
    let one = vec![String::from("file.xml")];
    assert!(expect_one_argument(&one, "export xml should be given a file path").is_ok());
    let none: Vec<String> = Vec::new();
    match expect_one_argument(&none, "export xml should be given a file path") {
        Err(CommandErr::Usage(m)) => assert_eq!(m, "export xml should be given a file path"),
        other => panic!("unexpected {other:?}"),
    }
    let two = vec![String::from("a"), String::from("b")];
    assert!(expect_one_argument(&two, "x").is_err());
}
