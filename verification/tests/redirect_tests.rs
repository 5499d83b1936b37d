use shell_core::redirect::{handle_args, RedirectKind};

fn words(ws: &[&str]) -> Vec<String> {
    ws.iter().map(|w| w.to_string()).collect()
}

#[test]
fn plain_words_all_go_to_argv() {
    let (argv, redirs, errs) = handle_args(words(&["echo", "hello", "world"]));
    assert_eq!(argv, vec!["echo", "hello", "world"]);
    assert_eq!(redirs.len(), 0);
    assert_eq!(errs, 0);
}

#[test]
fn stdout_redirect_consumes_target() {
    let (argv, redirs, errs) = handle_args(words(&["echo", "hi", ">", "f"]));
    assert_eq!(argv, vec!["echo", "hi"]);
    assert_eq!(redirs.len(), 1);
    assert!(redirs[0].kind == RedirectKind::Stdout);
    assert_eq!(redirs[0].target, "f");
    assert!(!redirs[0].append);
    assert_eq!(errs, 0);
}

#[test]
fn explicit_one_prefix_is_stdout() {
    let (_, redirs, _) = handle_args(words(&["a", "1>", "f"]));
    assert!(redirs[0].kind == RedirectKind::Stdout);
    assert!(!redirs[0].append);
}

#[test]
fn double_arrow_appends() {
    let (_, redirs, _) = handle_args(words(&["a", ">>", "f"]));
    assert!(redirs[0].kind == RedirectKind::Stdout);
    assert!(redirs[0].append);
    let (_, redirs, _) = handle_args(words(&["a", "1>>", "f"]));
    assert!(redirs[0].kind == RedirectKind::Stdout);
    assert!(redirs[0].append);
}

#[test]
fn two_prefix_is_stderr() {
    let (_, redirs, _) = handle_args(words(&["a", "2>", "e"]));
    assert!(redirs[0].kind == RedirectKind::Stderr);
    assert!(!redirs[0].append);
    let (_, redirs, _) = handle_args(words(&["a", "2>>", "e"]));
    assert!(redirs[0].kind == RedirectKind::Stderr);
    assert!(redirs[0].append);
}

#[test]
fn left_arrow_is_stdin() {
    let (argv, redirs, errs) = handle_args(words(&["cat", "<", "in.txt"]));
    assert_eq!(argv, vec!["cat"]);
    assert!(redirs[0].kind == RedirectKind::Stdin);
    assert_eq!(redirs[0].target, "in.txt");
    assert!(!redirs[0].append);
    assert_eq!(errs, 0);
}

#[test]
fn operator_without_target_is_counted_and_skipped() {
    let (argv, redirs, errs) = handle_args(words(&["echo", ">"]));
    assert_eq!(argv, vec!["echo"]);
    assert_eq!(redirs.len(), 0);
    assert_eq!(errs, 1);
}

#[test]
fn operator_lookalike_word_is_an_argument() {
    let (argv, redirs, errs) = handle_args(words(&["echo", ">x", "3>"]));
    assert_eq!(argv, vec!["echo", ">x", "3>"]);
    assert_eq!(redirs.len(), 0);
    assert_eq!(errs, 0);
}

#[test]
fn several_redirects_collect_in_order() {
    let (argv, redirs, errs) = handle_args(words(&["cmd", ">", "a", "2>", "b", "x"]));
    assert_eq!(argv, vec!["cmd", "x"]);
    assert_eq!(redirs.len(), 2);
    assert!(redirs[0].kind == RedirectKind::Stdout);
    assert_eq!(redirs[0].target, "a");
    assert!(redirs[1].kind == RedirectKind::Stderr);
    assert_eq!(redirs[1].target, "b");
    assert_eq!(errs, 0);
}
