use vstd::prelude::*;
use crate::strutil::str_eq;

verus! {

/// Which stream a redirection routes.
#[derive(Clone, Copy, Debug, PartialEq, Eq, Structural)]
pub enum RedirectKind {
    Stdout,
    Stderr,
    Stdin,
}

/// One redirection: route `kind` to or from the file `target`, appending
/// instead of truncating when `append` holds.
#[derive(Clone, Debug)]
pub struct Redirect {
    pub kind: RedirectKind,
    pub target: String,
    pub append: bool,
}

/// The mathematical shape of a `Redirect`.
pub struct SpecRedirect {
    pub kind: RedirectKind,
    pub target: Seq<char>,
    pub append: bool,
}

impl View for Redirect {
    type V = SpecRedirect;

    open spec fn view(&self) -> SpecRedirect {
        SpecRedirect { kind: self.kind, target: self.target@, append: self.append }
    }
}

impl DeepView for Redirect {
    type V = SpecRedirect;

    open spec fn deep_view(&self) -> SpecRedirect {
        self@
    }
}

/// The exact-match redirection operators: `>`/`1>`/`>>`/`1>>` for stdout
/// (append when the operator ends in `>>`), `2>`/`2>>` for stderr, `<` for
/// stdin. Any other word is not an operator.
pub open spec fn redirect_op(t: Seq<char>) -> Option<(RedirectKind, bool)> {
    if t == ">"@ || t == "1>"@ {
        Some((RedirectKind::Stdout, false))
    } else if t == ">>"@ || t == "1>>"@ {
        Some((RedirectKind::Stdout, true))
    } else if t == "2>"@ {
        Some((RedirectKind::Stderr, false))
    } else if t == "2>>"@ {
        Some((RedirectKind::Stderr, true))
    } else if t == "<"@ {
        Some((RedirectKind::Stdin, false))
    } else {
        None
    }
}

/// Decide whether one word is a redirection operator.
pub fn redirect_op_of(t: &str) -> (r: Option<(RedirectKind, bool)>)
    ensures
        r == redirect_op(t@),
{
    if str_eq(t, ">") || str_eq(t, "1>") {
        Some((RedirectKind::Stdout, false))
    } else if str_eq(t, ">>") || str_eq(t, "1>>") {
        Some((RedirectKind::Stdout, true))
    } else if str_eq(t, "2>") {
        Some((RedirectKind::Stderr, false))
    } else if str_eq(t, "2>>") {
        Some((RedirectKind::Stderr, true))
    } else if str_eq(t, "<") {
        Some((RedirectKind::Stdin, false))
    } else {
        None
    }
}

/// Left-to-right separation of one stage's words into arguments and
/// redirections. An operator consumes the following word as its target; an
/// operator with no following word counts one syntax diagnostic and is
/// skipped; every other word joins `argv` in order.
pub open spec fn spec_extract_rec(
    toks: Seq<Seq<char>>,
    argv: Seq<Seq<char>>,
    redirs: Seq<SpecRedirect>,
    errs: nat,
) -> (Seq<Seq<char>>, Seq<SpecRedirect>, nat)
    decreases toks.len(),
{
    if toks.len() == 0 {
        (argv, redirs, errs)
    } else {
        match redirect_op(toks[0]) {
            Some(op) => {
                if toks.len() >= 2 {
                    spec_extract_rec(
                        toks.subrange(2, toks.len() as int),
                        argv,
                        redirs.push(SpecRedirect { kind: op.0, target: toks[1], append: op.1 }),
                        errs,
                    )
                } else {
                    spec_extract_rec(toks.drop_first(), argv, redirs, errs + 1)
                }
            },
            None => spec_extract_rec(toks.drop_first(), argv.push(toks[0]), redirs, errs),
        }
    }
}

/// `spec_extract_rec` started from nothing collected.
pub open spec fn spec_extract(toks: Seq<Seq<char>>) -> (Seq<Seq<char>>, Seq<SpecRedirect>, nat) {
    spec_extract_rec(toks, Seq::empty(), Seq::empty(), 0)
}

/// Split one stage's words into `(argv, redirections, syntax diagnostics)`,
/// exactly as `spec_extract` describes.
pub fn handle_args(args: Vec<String>) -> (r: (Vec<String>, Vec<Redirect>, usize))
    ensures
        r.0.deep_view() == spec_extract(args.deep_view()).0,
        r.1.deep_view() == spec_extract(args.deep_view()).1,
        r.2 as nat == spec_extract(args.deep_view()).2,
{
    let n = args.len();
    let mut i: usize = 0;
    let mut argv: Vec<String> = Vec::new();
    let mut redirs: Vec<Redirect> = Vec::new();
    let mut errs: usize = 0;
    proof {
        assert(args.deep_view().subrange(0, n as int) =~= args.deep_view());
        assert(argv.deep_view() =~= Seq::<Seq<char>>::empty());
        assert(redirs.deep_view() =~= Seq::<SpecRedirect>::empty());
    }
    while i < n
        invariant
            i <= n,
            errs <= i,
            n == args.len(),
            spec_extract(args.deep_view()) == spec_extract_rec(
                args.deep_view().subrange(i as int, n as int),
                argv.deep_view(),
                redirs.deep_view(),
                errs as nat,
            ),
        decreases n - i,
    {
        let ghost rest = args.deep_view().subrange(i as int, n as int);
        proof {
            assert(rest[0] == args.deep_view()[i as int]);
            assert(rest.drop_first() =~= args.deep_view().subrange(i as int + 1, n as int));
        }
        match redirect_op_of(args[i].as_str()) {
            Some(op) => {
                if i + 1 < n {
                    proof {
                        assert(rest[1] == args.deep_view()[i as int + 1]);
                        assert(rest.subrange(2, rest.len() as int) =~= args.deep_view().subrange(
                            i as int + 2,
                            n as int,
                        ));
                    }
                    let ghost old_redirs = redirs.deep_view();
                    let target = args[i + 1].clone();
                    let red = Redirect { kind: op.0, target, append: op.1 };
                    redirs.push(red);
                    proof {
                        assert(redirs.deep_view() =~= old_redirs.push(red@));
                    }
                    i = i + 2;
                } else {
                    errs = errs + 1;
                    i = i + 1;
                }
            },
            None => {
                let ghost old_argv = argv.deep_view();
                let word = args[i].clone();
                argv.push(word);
                proof {
                    assert(argv.deep_view() =~= old_argv.push(args.deep_view()[i as int]));
                }
                i = i + 1;
            },
        }
    }
    proof {
        assert(args.deep_view().subrange(n as int, n as int) =~= Seq::<Seq<char>>::empty());
    }
    (argv, redirs, errs)
}

} // verus!
