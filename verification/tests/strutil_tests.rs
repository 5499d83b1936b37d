use shell_core::strutil::{join_words, sort_words, str_concat, str_eq, str_le, str_starts_with};

fn words(ws: &[&str]) -> Vec<String> {
    ws.iter().map(|w| w.to_string()).collect()
}

#[test]
fn equality_is_by_characters() {
    assert!(str_eq("exit", "exit"));
    assert!(!str_eq("exit", "exi"));
    assert!(!str_eq("exit", "exit "));
    assert!(str_eq("", ""));
}

#[test]
fn prefixes_are_recognized() {
    assert!(str_starts_with("echo ", "ec"));
    assert!(str_starts_with("echo ", ""));
    assert!(str_starts_with("echo ", "echo "));
    assert!(!str_starts_with("ec", "echo"));
    assert!(!str_starts_with("pwd", "ec"));
}

#[test]
fn joining_puts_the_separator_between_words() {
    assert_eq!(join_words(&words(&["a", "b", "c"]), " "), "a b c");
    assert_eq!(join_words(&words(&["a"]), " "), "a");
    assert_eq!(join_words(&words(&[]), " "), "");
}

#[test]
fn concatenation_appends() {
    assert_eq!(str_concat("foo", ": command not found"), "foo: command not found");
}

#[test]
fn ordering_is_lexicographic() {
    assert!(str_le("cat", "grep"));
    assert!(!str_le("grep", "cat"));
    assert!(str_le("grep", "groups"));
    assert!(str_le("", "a"));
    assert!(str_le("abc", "abc"));
    assert!(!str_le("abcd", "abc"));
}

#[test]
fn sorting_orders_and_keeps_every_word() {
    assert_eq!(
        sort_words(&words(&["grep", "cat", "groups", "awk"])),
        words(&["awk", "cat", "grep", "groups"])
    );
    assert_eq!(sort_words(&words(&[])), Vec::<String>::new());
    assert_eq!(sort_words(&words(&["b", "a", "b"])), words(&["a", "b", "b"]));
}
