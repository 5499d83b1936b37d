use shell_core::command::ShellCommand;
use shell_core::resolver::{find_exec_function, handle_exec_function, SearchDir, SearchPath};

fn words(ws: &[&str]) -> Vec<String> {
    ws.iter().map(|w| w.to_string()).collect()
}

#[test]
fn classification_recognizes_every_builtin() {
    assert!(ShellCommand::from_str("exit") == ShellCommand::Exit);
    assert!(ShellCommand::from_str("echo") == ShellCommand::Echo);
    assert!(ShellCommand::from_str("type") == ShellCommand::Type);
    assert!(ShellCommand::from_str("pwd") == ShellCommand::Pwd);
    assert!(ShellCommand::from_str("cd") == ShellCommand::Cd);
    assert!(ShellCommand::from_str("ls") == ShellCommand::Unknown);
    assert!(ShellCommand::from_str("") == ShellCommand::Unknown);
    assert!(ShellCommand::from_str("Echo") == ShellCommand::Unknown);
}

#[test]
fn buffering_builtins_are_echo_pwd_type() {
    assert!(ShellCommand::Echo.is_buffering());
    assert!(ShellCommand::Pwd.is_buffering());
    assert!(ShellCommand::Type.is_buffering());
    assert!(!ShellCommand::Cd.is_buffering());
    assert!(!ShellCommand::Exit.is_buffering());
    assert!(!ShellCommand::Unknown.is_buffering());
}

#[test]
fn resolution_walks_directories_in_order() {
    let search = SearchPath {
        dirs: vec![
            SearchDir { path: "/usr/bin".to_string(), execs: words(&["cat"]) },
            SearchDir { path: "/bin".to_string(), execs: words(&["cat", "ls"]) },
        ],
    };
    assert_eq!(handle_exec_function("cat", &search).unwrap(), "/usr/bin/cat");
    assert_eq!(handle_exec_function("ls", &search).unwrap(), "/bin/ls");
    assert!(handle_exec_function("absent", &search).is_none());
}

#[test]
fn resolution_of_an_empty_path_finds_nothing() {
    let search = SearchPath { dirs: Vec::new() };
    assert!(handle_exec_function("cat", &search).is_none());
}

#[test]
fn finding_returns_the_bare_name() {
    let search = SearchPath {
        dirs: vec![SearchDir { path: "/bin".to_string(), execs: words(&["ls"]) }],
    };
    assert_eq!(find_exec_function("ls", &search).unwrap(), "ls");
    assert!(find_exec_function("absent", &search).is_none());
}
