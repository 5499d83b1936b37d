use shell_core::completion::AutoCompiler;
use shell_core::resolver::{SearchDir, SearchPath};

fn words(ws: &[&str]) -> Vec<String> {
    ws.iter().map(|w| w.to_string()).collect()
}

#[test]
fn the_completer_offers_the_builtin_words() {
    let ac = AutoCompiler::new();
    assert_eq!(ac.commands, vec!["echo ", "pwd ", "cd ", "type ", "exit "]);
}

#[test]
fn builtin_candidates_replace_with_their_own_word() {
    let ac = AutoCompiler::new();
    let matches = ac.complete("ec", &Vec::new());
    assert_eq!(matches.len(), 1);
    assert_eq!(matches[0].display, "echo ");
    assert_eq!(matches[0].replacement, "echo ");
}

#[test]
fn path_candidates_gain_a_trailing_space() {
    let ac = AutoCompiler::new();
    let matches = ac.complete("gr", &words(&["grep", "cat", "groups"]));
    assert_eq!(matches.len(), 2);
    assert_eq!(matches[0].display, "grep");
    assert_eq!(matches[0].replacement, "grep ");
    assert_eq!(matches[1].display, "groups");
    assert_eq!(matches[1].replacement, "groups ");
}

#[test]
fn builtins_come_before_path_commands() {
    let ac = AutoCompiler::new();
    let matches = ac.complete("e", &words(&["env"]));
    let displays: Vec<&str> = matches.iter().map(|p| p.display.as_str()).collect();
    assert_eq!(displays, vec!["echo ", "exit ", "env"]);
}

#[test]
fn an_empty_prefix_matches_everything() {
    let ac = AutoCompiler::new();
    let matches = ac.complete("", &words(&["cat"]));
    assert_eq!(matches.len(), 6);
}

#[test]
fn path_commands_come_directory_by_directory() {
    let ac = AutoCompiler::new();
    let search = SearchPath {
        dirs: vec![
            SearchDir { path: "/usr/bin".to_string(), execs: words(&["b", "a"]) },
            SearchDir { path: "/bin".to_string(), execs: words(&["c"]) },
        ],
    };
    assert_eq!(ac.get_path_commands(&search), vec!["b", "a", "c"]);
}
