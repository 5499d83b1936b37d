use vstd::prelude::*;
use crate::redirect::{handle_args, spec_extract, Redirect, RedirectKind, SpecRedirect};
use crate::builtins::{find_last_redirect, last_redirect};
use crate::resolver::{find_exec_function, spec_resolve, SearchPath};
use crate::tokenizer::{parse, spec_tokenize};
use crate::strutil::{chars_to_string, str_concat};

verus! {

/// Splitting one raw line into pipeline segments at every `|` that stands
/// outside quotes and is not escaped. The quoting state walks exactly as in
/// the tokenizer, but every character, quotes included, stays in its
/// segment: each segment is tokenized on its own afterwards. The split
/// always yields one segment more than there are splitting bars.
pub open spec fn spec_split_rec(
    s: Seq<char>,
    in_s: bool,
    in_d: bool,
    cur: Seq<char>,
    acc: Seq<Seq<char>>,
) -> Seq<Seq<char>>
    decreases s.len(),
{
    if s.len() == 0 {
        acc.push(cur)
    } else {
        let c = s[0];
        let rest = s.drop_first();
        if in_s {
            if c == '\'' {
                spec_split_rec(rest, false, in_d, cur.push(c), acc)
            } else {
                spec_split_rec(rest, true, in_d, cur.push(c), acc)
            }
        } else if in_d {
            if c == '"' {
                spec_split_rec(rest, in_s, false, cur.push(c), acc)
            } else if c == '\\' {
                if rest.len() == 0 {
                    spec_split_rec(rest, in_s, true, cur.push(c), acc)
                } else {
                    spec_split_rec(rest.drop_first(), in_s, true, cur.push(c).push(rest[0]), acc)
                }
            } else {
                spec_split_rec(rest, in_s, true, cur.push(c), acc)
            }
        } else {
            if c == '|' {
                spec_split_rec(rest, false, false, Seq::empty(), acc.push(cur))
            } else if c == '\'' {
                spec_split_rec(rest, true, false, cur.push(c), acc)
            } else if c == '"' {
                spec_split_rec(rest, false, true, cur.push(c), acc)
            } else if c == '\\' {
                if rest.len() == 0 {
                    spec_split_rec(rest, false, false, cur.push(c), acc)
                } else {
                    spec_split_rec(rest.drop_first(), false, false, cur.push(c).push(rest[0]), acc)
                }
            } else {
                spec_split_rec(rest, false, false, cur.push(c), acc)
            }
        }
    }
}

/// The pipeline segments of one raw line.
pub open spec fn spec_split(s: Seq<char>) -> Seq<Seq<char>> {
    spec_split_rec(s, false, false, Seq::empty(), Seq::empty())
}

/// Split a raw line at every unquoted, unescaped `|`, keeping all
/// characters: exactly `spec_split`.
pub fn split_pipeline(input: &str) -> (segs: Vec<String>)
    ensures
        segs.deep_view() == spec_split(input@),
{
    let n = input.unicode_len();
    let mut i: usize = 0;
    let mut in_single = false;
    let mut in_double = false;
    let mut current: Vec<char> = Vec::new();
    let mut segs: Vec<String> = Vec::new();
    proof {
        assert(input@.subrange(0, n as int) =~= input@);
        assert(segs.deep_view() =~= Seq::<Seq<char>>::empty());
    }
    while i < n
        invariant
            i <= n,
            n == input@.len(),
            !(in_single && in_double),
            spec_split(input@) == spec_split_rec(
                input@.subrange(i as int, n as int),
                in_single,
                in_double,
                current@,
                segs.deep_view(),
            ),
        decreases n - i,
    {
        let ghost rest = input@.subrange(i as int, n as int);
        proof {
            assert(rest[0] == input@[i as int]);
            assert(rest.drop_first() =~= input@.subrange(i as int + 1, n as int));
        }
        let c = input.get_char(i);
        if in_single {
            if c == '\'' {
                in_single = false;
            }
            current.push(c);
            i = i + 1;
        } else if in_double {
            if c == '"' {
                in_double = false;
                current.push(c);
                i = i + 1;
            } else if c == '\\' {
                if i + 1 == n {
                    current.push(c);
                    i = i + 1;
                } else {
                    proof {
                        assert(rest.drop_first().drop_first() =~= input@.subrange(
                            i as int + 2,
                            n as int,
                        ));
                        assert(rest.drop_first()[0] == input@[i as int + 1]);
                    }
                    let c2 = input.get_char(i + 1);
                    current.push(c);
                    current.push(c2);
                    i = i + 2;
                }
            } else {
                current.push(c);
                i = i + 1;
            }
        } else {
            if c == '|' {
                let ghost old_segs = segs.deep_view();
                let seg = chars_to_string(&current);
                segs.push(seg);
                current = Vec::new();
                proof {
                    assert(segs.deep_view() =~= old_segs.push(seg@));
                }
                i = i + 1;
            } else if c == '\'' {
                in_single = true;
                current.push(c);
                i = i + 1;
            } else if c == '"' {
                in_double = true;
                current.push(c);
                i = i + 1;
            } else if c == '\\' {
                if i + 1 == n {
                    current.push(c);
                    i = i + 1;
                } else {
                    proof {
                        assert(rest.drop_first().drop_first() =~= input@.subrange(
                            i as int + 2,
                            n as int,
                        ));
                        assert(rest.drop_first()[0] == input@[i as int + 1]);
                    }
                    let c2 = input.get_char(i + 1);
                    current.push(c);
                    current.push(c2);
                    i = i + 2;
                }
            } else {
                current.push(c);
                i = i + 1;
            }
        }
    }
    proof {
        assert(input@.subrange(n as int, n as int) =~= Seq::<char>::empty());
    }
    let ghost old_segs = segs.deep_view();
    let seg = chars_to_string(&current);
    segs.push(seg);
    proof {
        assert(segs.deep_view() =~= old_segs.push(seg@));
    }
    segs
}

/// One stage of a pipeline: its arguments, its redirections, and how many
/// redirection operators arrived without a target.
pub struct PipelineStage {
    pub argv: Vec<String>,
    pub redirects: Vec<Redirect>,
    pub syntax_errors: usize,
}

/// The mathematical shape of a `PipelineStage`.
pub struct SpecStage {
    pub argv: Seq<Seq<char>>,
    pub redirects: Seq<SpecRedirect>,
    pub syntax_errors: nat,
}

impl View for PipelineStage {
    type V = SpecStage;

    open spec fn view(&self) -> SpecStage {
        SpecStage {
            argv: self.argv.deep_view(),
            redirects: self.redirects.deep_view(),
            syntax_errors: self.syntax_errors as nat,
        }
    }
}

impl DeepView for PipelineStage {
    type V = SpecStage;

    open spec fn deep_view(&self) -> SpecStage {
        self@
    }
}

/// The stage one segment denotes: its words, split into arguments and
/// redirections.
pub open spec fn spec_stage(seg: Seq<char>) -> SpecStage {
    let e = spec_extract(spec_tokenize(seg));
    SpecStage { argv: e.0, redirects: e.1, syntax_errors: e.2 }
}

/// Tokenize one segment and separate its words into arguments and
/// redirections.
pub fn build_stage(segment: &str) -> (st: PipelineStage)
    ensures
        st@ == spec_stage(segment@),
{
    let toks = parse(segment);
    let parts = handle_args(toks);
    PipelineStage { argv: parts.0, redirects: parts.1, syntax_errors: parts.2 }
}

/// The stages of one raw line: quote state never crosses a `|`, so each
/// segment is tokenized independently.
pub open spec fn spec_pipeline(s: Seq<char>) -> Seq<SpecStage> {
    spec_split(s).map_values(|seg: Seq<char>| spec_stage(seg))
}

/// Split a raw line into its pipeline stages: exactly `spec_pipeline`.
pub fn build_pipeline(input: &str) -> (stages: Vec<PipelineStage>)
    ensures
        stages.deep_view() == spec_pipeline(input@),
        stages.len() >= 1,
{
    let segs = split_pipeline(input);
    let n = segs.len();
    let mut stages: Vec<PipelineStage> = Vec::new();
    let mut i: usize = 0;
    proof {
        assert(stages.deep_view() =~= spec_split(input@).subrange(0, 0).map_values(
            |seg: Seq<char>| spec_stage(seg),
        ));
    }
    while i < n
        invariant
            i <= n,
            n == segs.len(),
            segs.deep_view() == spec_split(input@),
            stages.len() == i,
            stages.deep_view() == spec_split(input@).subrange(i as int - i as int, i as int)
                .map_values(|seg: Seq<char>| spec_stage(seg)),
        decreases n - i,
    {
        let ghost old_stages = stages.deep_view();
        let st = build_stage(segs[i].as_str());
        stages.push(st);
        proof {
            assert(stages.deep_view() =~= old_stages.push(st@));
            assert(stages.deep_view() =~= spec_split(input@).subrange(0, i as int + 1).map_values(
                |seg: Seq<char>| spec_stage(seg),
            ));
        }
        i = i + 1;
    }
    proof {
        assert(spec_split(input@).subrange(0, n as int) =~= spec_split(input@));
        assert(spec_split(input@).len() >= 1) by {
            lemma_split_nonempty(input@);
        }
    }
    stages
}

/// A split has at least one segment: the final segment is always delivered.
pub proof fn lemma_split_nonempty(s: Seq<char>)
    ensures
        spec_split(s).len() >= 1,
{
    lemma_split_rec_grows(s, false, false, Seq::empty(), Seq::empty());
}

proof fn lemma_split_rec_grows(
    s: Seq<char>,
    in_s: bool,
    in_d: bool,
    cur: Seq<char>,
    acc: Seq<Seq<char>>,
)
    ensures
        spec_split_rec(s, in_s, in_d, cur, acc).len() > acc.len(),
    decreases s.len(),
{
    if s.len() == 0 {
    } else {
        let c = s[0];
        let rest = s.drop_first();
        if in_s {
            if c == '\'' {
                lemma_split_rec_grows(rest, false, in_d, cur.push(c), acc);
            } else {
                lemma_split_rec_grows(rest, true, in_d, cur.push(c), acc);
            }
        } else if in_d {
            if c == '"' {
                lemma_split_rec_grows(rest, in_s, false, cur.push(c), acc);
            } else if c == '\\' {
                if rest.len() == 0 {
                    lemma_split_rec_grows(rest, in_s, true, cur.push(c), acc);
                } else {
                    lemma_split_rec_grows(
                        rest.drop_first(),
                        in_s,
                        true,
                        cur.push(c).push(rest[0]),
                        acc,
                    );
                }
            } else {
                lemma_split_rec_grows(rest, in_s, true, cur.push(c), acc);
            }
        } else {
            if c == '|' {
                lemma_split_rec_grows(rest, false, false, Seq::empty(), acc.push(cur));
            } else if c == '\'' {
                lemma_split_rec_grows(rest, true, false, cur.push(c), acc);
            } else if c == '"' {
                lemma_split_rec_grows(rest, false, true, cur.push(c), acc);
            } else if c == '\\' {
                if rest.len() == 0 {
                    lemma_split_rec_grows(rest, false, false, cur.push(c), acc);
                } else {
                    lemma_split_rec_grows(
                        rest.drop_first(),
                        false,
                        false,
                        cur.push(c).push(rest[0]),
                        acc,
                    );
                }
            } else {
                lemma_split_rec_grows(rest, false, false, cur.push(c), acc);
            }
        }
    }
}

/// Everything the surroundings need to launch one external command: the
/// program as it is spawned, its arguments, and the winning redirection of
/// each kind.
pub struct SpawnSpec {
    pub program: String,
    pub args: Vec<String>,
    pub stdout_redirect: Option<Redirect>,
    pub stderr_redirect: Option<Redirect>,
    pub stdin_redirect: Option<Redirect>,
}

/// An executable `Option<Redirect>` agrees with a ghost one.
pub open spec fn opt_redirect_matches(o: Option<Redirect>, s: Option<SpecRedirect>) -> bool {
    match o {
        Some(q) => s is Some && q@ == s.unwrap(),
        None => s is None,
    }
}

/// Decide how one external command runs: not on the search path gives the
/// not-found diagnostic; otherwise the command is spawned under its own
/// name with its arguments, and for each stream the last redirection wins.
pub fn prepare_external(
    command: &str,
    args: Vec<String>,
    redirs: &Vec<Redirect>,
    search: &SearchPath,
) -> (r: Result<SpawnSpec, String>)
    ensures
        r is Err <==> spec_resolve(command@, search@) is None,
        r matches Err(m) ==> m@ == command@ + ": command not found"@,
        r matches Ok(sp) ==> {
            &&& sp.program@ == command@
            &&& sp.args.deep_view() == args.deep_view()
            &&& opt_redirect_matches(
                sp.stdout_redirect,
                last_redirect(redirs.deep_view(), RedirectKind::Stdout),
            )
            &&& opt_redirect_matches(
                sp.stderr_redirect,
                last_redirect(redirs.deep_view(), RedirectKind::Stderr),
            )
            &&& opt_redirect_matches(
                sp.stdin_redirect,
                last_redirect(redirs.deep_view(), RedirectKind::Stdin),
            )
        },
{
    match find_exec_function(command, search) {
        Some(program) => {
            let stdout_redirect = find_last_redirect(redirs, RedirectKind::Stdout);
            let stderr_redirect = find_last_redirect(redirs, RedirectKind::Stderr);
            let stdin_redirect = find_last_redirect(redirs, RedirectKind::Stdin);
            Ok(SpawnSpec { program, args, stdout_redirect, stderr_redirect, stdin_redirect })
        },
        None => Err(str_concat(command, ": command not found")),
    }
}

/// Where one stage's output belongs: a declared stdout redirection wins,
/// the last stage otherwise reaches the terminal, and any other stage feeds
/// the next one.
pub enum OutputRoute {
    File(Redirect),
    Terminal,
    NextStage,
}

/// Decide where a stage's output goes: to the target of its last stdout
/// redirection if it declares one, to the terminal if it is the last stage,
/// and otherwise into the buffer handed to the stage after it.
pub fn stage_output_route(stage: &PipelineStage, is_last: bool) -> (r: OutputRoute)
    ensures
        (last_redirect(stage@.redirects, RedirectKind::Stdout) matches Some(q) ==> (r matches
            OutputRoute::File(f) && f@ == q)),
        last_redirect(stage@.redirects, RedirectKind::Stdout) is None ==> (if is_last {
            r is Terminal
        } else {
            r is NextStage
        }),
{
    match find_last_redirect(&stage.redirects, RedirectKind::Stdout) {
        Some(q) => OutputRoute::File(q),
        None => {
            if is_last {
                OutputRoute::Terminal
            } else {
                OutputRoute::NextStage
            }
        },
    }
}

/// Decide which file, if any, supplies a stage's input: only the first
/// stage may read a file, named by its last stdin redirection; every later
/// stage is fed by the stage before it.
pub fn stage_input_file(stage: &PipelineStage, is_first: bool) -> (r: Option<String>)
    ensures
        r is Some <==> is_first && last_redirect(stage@.redirects, RedirectKind::Stdin) is Some,
        r matches Some(t) ==> t@ == last_redirect(
            stage@.redirects,
            RedirectKind::Stdin,
        ).unwrap().target,
{
    if is_first {
        match find_last_redirect(&stage.redirects, RedirectKind::Stdin) {
            Some(q) => Some(q.target),
            None => None,
        }
    } else {
        None
    }
}

/// Whether appended output needs a separating newline first: the file holds
/// something and does not already end in one.
pub fn needs_newline_before_append(content: &str) -> (r: bool)
    ensures
        r == (content@.len() > 0 && content@.last() != '\n'),
{
    let n = content.unicode_len();
    if n == 0 {
        false
    } else {
        content.get_char(n - 1) != '\n'
    }
}

/// Split a stage's words into the program name and the remaining arguments.
pub fn split_program(argv: &Vec<String>) -> (r: Option<(String, Vec<String>)>)
    ensures
        r is None <==> argv.len() == 0,
        r matches Some(p) ==> p.0@ == argv.deep_view()[0] && p.1.deep_view()
            == argv.deep_view().drop_first(),
{
    if argv.len() == 0 {
        return None;
    }
    let program = argv[0].clone();
    let mut rest: Vec<String> = Vec::new();
    let mut i: usize = 1;
    proof {
        assert(rest.deep_view() =~= argv.deep_view().subrange(1, 1));
    }
    while i < argv.len()
        invariant
            1 <= i <= argv.len(),
            rest.deep_view() == argv.deep_view().subrange(1, i as int),
        decreases argv.len() - i,
    {
        let ghost old_rest = rest.deep_view();
        let w = argv[i].clone();
        rest.push(w);
        proof {
            assert(rest.deep_view() =~= old_rest.push(argv.deep_view()[i as int]));
            assert(rest.deep_view() =~= argv.deep_view().subrange(1, i as int + 1));
        }
        i = i + 1;
    }
    proof {
        assert(argv.deep_view().subrange(1, argv.deep_view().len() as int)
            =~= argv.deep_view().drop_first());
    }
    Some((program, rest))
}

} // verus!
