use vstd::prelude::*;
use crate::command::{spec_classify, ShellCommand};
use crate::redirect::{Redirect, RedirectKind, SpecRedirect};
use crate::resolver::{handle_exec_function, spec_resolve, SearchPath, SpecSearchDir};
use crate::strutil::{join_words, spec_join};

verus! {

/// What `echo` emits: its arguments joined by single spaces, then a newline.
pub open spec fn echo_line(args: Seq<Seq<char>>) -> Seq<char> {
    spec_join(args, " "@) + "\n"@
}

/// Write `echo`'s output for these arguments to the sink.
pub fn handle_echo_cap(args: &Vec<String>, writer: &mut String)
    ensures
        final(writer)@ == old(writer)@ + echo_line(args.deep_view()),
{
    let line = join_words(args, " ");
    writer.append(line.as_str());
    writer.append("\n");
    proof {
        assert(old(writer)@ + line@ + "\n"@ =~= old(writer)@ + (line@ + "\n"@));
    }
}

/// Write `pwd`'s output, the working directory and a newline, to the sink.
pub fn handle_pwd_cap(cwd: &str, writer: &mut String)
    ensures
        final(writer)@ == old(writer)@ + cwd@ + "\n"@,
{
    writer.append(cwd);
    writer.append("\n");
}

/// What `type name` reports: a builtin name is a shell builtin; any other
/// name is the full path it resolves to on the search path, or not found.
pub open spec fn type_line(name: Seq<char>, dirs: Seq<SpecSearchDir>) -> Seq<char> {
    if spec_classify(name) != ShellCommand::Unknown {
        name + " is a shell builtin\n"@
    } else {
        match spec_resolve(name, dirs) {
            Some(p) => name + " is "@ + p + "\n"@,
            None => name + " not found\n"@,
        }
    }
}

/// Write `type`'s report on its first argument to the sink; with no argument
/// it writes nothing.
pub fn handle_type_with_writer(args: &Vec<String>, search: &SearchPath, writer: &mut String)
    ensures
        args.len() == 0 ==> final(writer)@ == old(writer)@,
        args.len() > 0 ==> final(writer)@ == old(writer)@ + type_line(
            args.deep_view()[0],
            search@,
        ),
{
    if args.is_empty() {
        return ;
    }
    let cmd = &args[0];
    proof {
        assert(args.deep_view()[0] == args@[0]@);
    }
    let parsed = ShellCommand::from_str(cmd.as_str());
    if parsed != ShellCommand::Unknown {
        writer.append(cmd.as_str());
        writer.append(" is a shell builtin\n");
        proof {
            assert(old(writer)@ + cmd@ + " is a shell builtin\n"@ =~= old(writer)@ + (cmd@
                + " is a shell builtin\n"@));
        }
    } else {
        match handle_exec_function(cmd.as_str(), search) {
            Some(path) => {
                writer.append(cmd.as_str());
                writer.append(" is ");
                writer.append(path.as_str());
                writer.append("\n");
                proof {
                    assert(old(writer)@ + cmd@ + " is "@ + path@ + "\n"@ =~= old(writer)@ + (cmd@
                        + " is "@ + path@ + "\n"@));
                }
            },
            None => {
                writer.append(cmd.as_str());
                writer.append(" not found\n");
                proof {
                    assert(old(writer)@ + cmd@ + " not found\n"@ =~= old(writer)@ + (cmd@
                        + " not found\n"@));
                }
            },
        }
    }
}

/// A leading `~` stands for the home directory; everything else is kept.
pub open spec fn spec_expand_tilde(path: Seq<char>, home: Seq<char>) -> Seq<char> {
    if path.len() > 0 && path[0] == '~' {
        home + path.drop_first()
    } else {
        path
    }
}

/// Expand a leading `~` in `path` to `home`.
pub fn expand_tilde(path: &str, home: &str) -> (r: String)
    ensures
        r@ == spec_expand_tilde(path@, home@),
{
    let n = path.unicode_len();
    if n > 0 && path.get_char(0) == '~' {
        let mut r = home.to_owned();
        let rest = path.substring_char(1, n);
        r.append(rest);
        proof {
            assert(path@.subrange(1, n as int) =~= path@.drop_first());
        }
        r
    } else {
        path.to_owned()
    }
}

/// The diagnostic `cd` reports when the directory cannot be entered.
pub open spec fn spec_cd_error(path: Seq<char>) -> Seq<char> {
    "cd: "@ + path + ": No such file or directory"@
}

/// Build `cd`'s diagnostic for a directory that cannot be entered.
pub fn cd_error_message(path: &str) -> (r: String)
    ensures
        r@ == spec_cd_error(path@),
{
    let mut r = String::new();
    r.append("cd: ");
    r.append(path);
    r.append(": No such file or directory");
    proof {
        assert(Seq::<char>::empty() + "cd: "@ =~= "cd: "@);
        assert("cd: "@ + path@ + ": No such file or directory"@ =~= ("cd: "@ + path@)
            + ": No such file or directory"@);
    }
    r
}

/// What a builtin asks of its surroundings beyond writing to its sink:
/// nothing, a change of the working directory, or ending the interpreter.
#[derive(Clone, Debug)]
pub enum BuiltinEffect {
    Done,
    ChangeDir(String),
    Exit,
}

/// Run one builtin against the given context, writing its output to the
/// sink. `echo`, `pwd` and `type` only write; `cd` asks for a change to the
/// expanded directory and `exit` asks to end the interpreter, neither
/// touching the sink; an `Unknown` command does nothing here.
pub fn handle_builtin(
    command: ShellCommand,
    args: &Vec<String>,
    cwd: &str,
    home: &str,
    search: &SearchPath,
    writer: &mut String,
) -> (eff: BuiltinEffect)
    requires
        command == ShellCommand::Cd ==> args.len() >= 1,
    ensures
        command == ShellCommand::Echo ==> final(writer)@ == old(writer)@ + echo_line(
            args.deep_view(),
        ) && eff is Done,
        command == ShellCommand::Pwd ==> final(writer)@ == old(writer)@ + cwd@ + "\n"@
            && eff is Done,
        command == ShellCommand::Type && args.len() == 0 ==> final(writer)@ == old(writer)@
            && eff is Done,
        command == ShellCommand::Type && args.len() > 0 ==> final(writer)@ == old(writer)@
            + type_line(args.deep_view()[0], search@) && eff is Done,
        command == ShellCommand::Cd ==> final(writer)@ == old(writer)@ && (eff matches
            BuiltinEffect::ChangeDir(t) && t@ == spec_expand_tilde(args.deep_view()[0], home@)),
        command == ShellCommand::Exit ==> final(writer)@ == old(writer)@ && eff is Exit,
        command == ShellCommand::Unknown ==> final(writer)@ == old(writer)@ && eff is Done,
{
    match command {
        ShellCommand::Echo => {
            handle_echo_cap(args, writer);
            BuiltinEffect::Done
        },
        ShellCommand::Pwd => {
            handle_pwd_cap(cwd, writer);
            BuiltinEffect::Done
        },
        ShellCommand::Type => {
            handle_type_with_writer(args, search, writer);
            BuiltinEffect::Done
        },
        ShellCommand::Cd => {
            proof {
                assert(args.deep_view()[0] == args@[0]@);
            }
            BuiltinEffect::ChangeDir(expand_tilde(args[0].as_str(), home))
        },
        ShellCommand::Exit => BuiltinEffect::Exit,
        ShellCommand::Unknown => BuiltinEffect::Done,
    }
}

/// One write the surroundings must perform: text for the terminal, or text
/// for a file, truncating or appending.
#[derive(Clone, Debug)]
pub enum OutAction {
    Terminal(String),
    WriteFile { target: String, append: bool, content: String },
}

/// The mathematical shape of an `OutAction`.
pub enum SpecOutAction {
    Terminal(Seq<char>),
    WriteFile { target: Seq<char>, append: bool, content: Seq<char> },
}

impl View for OutAction {
    type V = SpecOutAction;

    open spec fn view(&self) -> SpecOutAction {
        match self {
            OutAction::Terminal(s) => SpecOutAction::Terminal(s@),
            OutAction::WriteFile { target, append, content } => (SpecOutAction::WriteFile {
                target: target@,
                append: *append,
                content: content@,
            }),
        }
    }
}

impl DeepView for OutAction {
    type V = SpecOutAction;

    open spec fn deep_view(&self) -> SpecOutAction {
        self@
    }
}

/// The writes a standalone `echo` performs. Its line goes to the terminal
/// unless a stdout redirection exists, in which case the line goes to that
/// file instead, truncated or appended, and the terminal stays quiet. A
/// stderr redirection makes `echo` touch that file first with nothing in it,
/// since `echo` writes nothing to its error stream. For each kind the last
/// redirection wins.
pub open spec fn spec_echo_actions(args: Seq<Seq<char>>, redirs: Seq<SpecRedirect>) -> Seq<
    SpecOutAction,
> {
    let line = echo_line(args);
    let touch: Seq<SpecOutAction> = match last_redirect(redirs, RedirectKind::Stderr) {
        Some(r) => seq![
            SpecOutAction::WriteFile { target: r.target, append: r.append, content: Seq::empty() },
        ],
        None => seq![],
    };
    let out = match last_redirect(redirs, RedirectKind::Stdout) {
        Some(r) => SpecOutAction::WriteFile { target: r.target, append: r.append, content: line },
        None => SpecOutAction::Terminal(line),
    };
    touch.push(out)
}

/// Turn one standalone `echo` into the writes to perform: exactly
/// `spec_echo_actions`.
pub fn handle_echo(args: &Vec<String>, redirs: &Vec<Redirect>) -> (acts: Vec<OutAction>)
    ensures
        acts.deep_view() == spec_echo_actions(args.deep_view(), redirs.deep_view()),
{
    let mut content = join_words(args, " ");
    content.append("\n");
    let mut acts: Vec<OutAction> = Vec::new();
    match find_last_redirect(redirs, RedirectKind::Stderr) {
        Some(r) => {
            acts.push(
                OutAction::WriteFile { target: r.target, append: r.append, content: String::new() },
            );
        },
        None => {},
    }
    match find_last_redirect(redirs, RedirectKind::Stdout) {
        Some(r) => {
            acts.push(OutAction::WriteFile { target: r.target, append: r.append, content });
        },
        None => {
            acts.push(OutAction::Terminal(content));
        },
    }
    proof {
        assert(acts.deep_view() =~= spec_echo_actions(args.deep_view(), redirs.deep_view()));
    }
    acts
}

/// The last redirection of the given kind, if any: later redirections of one
/// kind win over earlier ones.
pub open spec fn last_redirect(rs: Seq<SpecRedirect>, kind: RedirectKind) -> Option<SpecRedirect>
    decreases rs.len(),
{
    if rs.len() == 0 {
        None
    } else if rs.last().kind == kind {
        Some(rs.last())
    } else {
        last_redirect(rs.drop_last(), kind)
    }
}

/// Find the last redirection of the given kind.
pub fn find_last_redirect(redirs: &Vec<Redirect>, kind: RedirectKind) -> (r: Option<Redirect>)
    ensures
        r is Some <==> last_redirect(redirs.deep_view(), kind) is Some,
        r matches Some(q) ==> q@ == last_redirect(redirs.deep_view(), kind).unwrap(),
{
    let n = redirs.len();
    let mut i: usize = n;
    proof {
        assert(redirs.deep_view().subrange(0, n as int) =~= redirs.deep_view());
    }
    while i > 0
        invariant
            i <= n,
            n == redirs.len(),
            last_redirect(redirs.deep_view(), kind) == last_redirect(
                redirs.deep_view().subrange(0, i as int),
                kind,
            ),
        decreases i,
    {
        let ghost pre = redirs.deep_view().subrange(0, i as int);
        proof {
            assert(pre.last() == redirs.deep_view()[i as int - 1]);
            assert(pre.drop_last() =~= redirs.deep_view().subrange(0, i as int - 1));
        }
        i = i - 1;
        let r = &redirs[i];
        if r.kind == kind {
            return Some(Redirect { kind: r.kind, target: r.target.clone(), append: r.append });
        }
    }
    proof {
        assert(redirs.deep_view().subrange(0, 0) =~= Seq::<SpecRedirect>::empty());
    }
    None
}

} // verus!
