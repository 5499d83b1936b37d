use shell_core::builtins::handle_builtin;
use shell_core::command::ShellCommand;
use shell_core::pipeline::{
    build_pipeline, needs_newline_before_append, prepare_external, split_pipeline, split_program,
    stage_input_file, stage_output_route, OutputRoute, PipelineStage,
};
use shell_core::redirect::{Redirect, RedirectKind};
use shell_core::resolver::{SearchDir, SearchPath};

fn words(ws: &[&str]) -> Vec<String> {
    ws.iter().map(|w| w.to_string()).collect()
}

#[test]
fn splitting_cuts_at_bars() {
    assert_eq!(split_pipeline("echo hi | cat"), vec!["echo hi ", " cat"]);
}

#[test]
fn splitting_without_bars_keeps_the_line_whole() {
    assert_eq!(split_pipeline("echo hi"), vec!["echo hi"]);
}

#[test]
fn quoted_bars_do_not_split() {
    assert_eq!(split_pipeline("echo 'a|b'"), vec!["echo 'a|b'"]);
    assert_eq!(split_pipeline("echo \"a|b\""), vec!["echo \"a|b\""]);
    assert_eq!(split_pipeline("echo a\\|b"), vec!["echo a\\|b"]);
}

#[test]
fn a_pipeline_has_one_stage_per_segment() {
    let stages = build_pipeline("echo hi | cat");
    assert_eq!(stages.len(), 2);
    assert_eq!(stages[0].argv, vec!["echo", "hi"]);
    assert_eq!(stages[1].argv, vec!["cat"]);
    assert_eq!(stages[0].redirects.len(), 0);
    assert_eq!(stages[1].redirects.len(), 0);
}

#[test]
fn stages_extract_their_own_redirections() {
    let stages = build_pipeline("cat < in.txt | sort > out.txt");
    assert_eq!(stages.len(), 2);
    assert_eq!(stages[0].argv, vec!["cat"]);
    assert!(stages[0].redirects[0].kind == RedirectKind::Stdin);
    assert_eq!(stages[0].redirects[0].target, "in.txt");
    assert_eq!(stages[1].argv, vec!["sort"]);
    assert!(stages[1].redirects[0].kind == RedirectKind::Stdout);
    assert_eq!(stages[1].redirects[0].target, "out.txt");
}

#[test]
fn echo_feeds_the_next_stage_through_a_buffer() {
    let stages = build_pipeline("echo hi | cat");
    let (program, args) = split_program(&stages[0].argv).unwrap();
    assert_eq!(program, "echo");
    let cmd = ShellCommand::from_str(&program);
    assert!(cmd.is_buffering());
    let mut buffer = String::new();
    let search = SearchPath { dirs: Vec::new() };
    handle_builtin(cmd, &args, "/", "/home/u", &search, &mut buffer);
    assert_eq!(buffer, "hi\n");
    let (next_program, next_args) = split_program(&stages[1].argv).unwrap();
    assert_eq!(next_program, "cat");
    assert!(next_args.is_empty());
    assert!(!ShellCommand::from_str(&next_program).is_buffering());
}

#[test]
fn empty_segments_yield_stages_without_words() {
    let stages = build_pipeline("echo hi |");
    assert_eq!(stages.len(), 2);
    assert!(split_program(&stages[1].argv).is_none());
}

#[test]
fn unresolved_externals_get_the_not_found_diagnostic() {
    let search = SearchPath { dirs: Vec::new() };
    let r = prepare_external("nonexistent_cmd_xyz", words(&["a"]), &Vec::new(), &search);
    assert_eq!(r.err().unwrap(), "nonexistent_cmd_xyz: command not found");
}

#[test]
fn resolved_externals_keep_name_arguments_and_last_redirects() {
    let search = SearchPath {
        dirs: vec![SearchDir { path: "/bin".to_string(), execs: words(&["wc"]) }],
    };
    let redirs = vec![
        Redirect { kind: RedirectKind::Stdout, target: "a".to_string(), append: false },
        Redirect { kind: RedirectKind::Stdout, target: "b".to_string(), append: true },
        Redirect { kind: RedirectKind::Stdin, target: "in".to_string(), append: false },
    ];
    let sp = prepare_external("wc", words(&["-l"]), &redirs, &search).ok().unwrap();
    assert_eq!(sp.program, "wc");
    assert_eq!(sp.args, vec!["-l"]);
    let out = sp.stdout_redirect.unwrap();
    assert_eq!(out.target, "b");
    assert!(out.append);
    assert!(sp.stderr_redirect.is_none());
    assert_eq!(sp.stdin_redirect.unwrap().target, "in");
}

#[test]
fn output_routes_prefer_the_last_declared_redirect() {
    let stage = PipelineStage {
        argv: words(&["cmd"]),
        redirects: vec![
            Redirect { kind: RedirectKind::Stdout, target: "a".to_string(), append: false },
            Redirect { kind: RedirectKind::Stdout, target: "b".to_string(), append: true },
        ],
        syntax_errors: 0,
    };
    match stage_output_route(&stage, true) {
        OutputRoute::File(r) => {
            assert_eq!(r.target, "b");
            assert!(r.append);
        }
        _ => panic!("a declared stdout redirect wins"),
    }
    assert!(matches!(stage_output_route(&stage, false), OutputRoute::File(_)));
}

#[test]
fn output_routes_fall_back_to_terminal_or_buffer() {
    let stage = PipelineStage { argv: words(&["cmd"]), redirects: Vec::new(), syntax_errors: 0 };
    assert!(matches!(stage_output_route(&stage, true), OutputRoute::Terminal));
    assert!(matches!(stage_output_route(&stage, false), OutputRoute::NextStage));
}

#[test]
fn only_the_first_stage_reads_an_input_file() {
    let stage = PipelineStage {
        argv: words(&["cat"]),
        redirects: vec![Redirect {
            kind: RedirectKind::Stdin,
            target: "in.txt".to_string(),
            append: false,
        }],
        syntax_errors: 0,
    };
    assert_eq!(stage_input_file(&stage, true).unwrap(), "in.txt");
    assert!(stage_input_file(&stage, false).is_none());
    let bare = PipelineStage { argv: words(&["cat"]), redirects: Vec::new(), syntax_errors: 0 };
    assert!(stage_input_file(&bare, true).is_none());
}

#[test]
fn appended_output_needs_a_newline_only_after_unterminated_text() {
    assert!(!needs_newline_before_append(""));
    assert!(!needs_newline_before_append("one\n"));
    assert!(needs_newline_before_append("one"));
}
