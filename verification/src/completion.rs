use vstd::prelude::*;
use crate::resolver::{SearchPath, SpecSearchDir};
use crate::strutil::{str_concat, str_starts_with};

verus! {

/// One completion candidate: what is shown, and what replaces the typed
/// prefix when it is chosen.
#[derive(Clone, Debug)]
pub struct CompletionPair {
    pub display: String,
    pub replacement: String,
}

/// The mathematical shape of a `CompletionPair`.
pub struct SpecPair {
    pub display: Seq<char>,
    pub replacement: Seq<char>,
}

impl View for CompletionPair {
    type V = SpecPair;

    open spec fn view(&self) -> SpecPair {
        SpecPair { display: self.display@, replacement: self.replacement@ }
    }
}

impl DeepView for CompletionPair {
    type V = SpecPair;

    open spec fn deep_view(&self) -> SpecPair {
        self@
    }
}

/// The builtin names offered for completion, each already carrying the
/// space that follows a completed command.
pub open spec fn builtin_command_words() -> Seq<Seq<char>> {
    seq!["echo "@, "pwd "@, "cd "@, "type "@, "exit "@]
}

/// The candidates drawn from `cands` for a typed prefix: one pair per
/// candidate that starts with the prefix, in order, displaying the
/// candidate and replacing the prefix by the candidate followed by `trail`.
pub open spec fn spec_matches(cands: Seq<Seq<char>>, prefix: Seq<char>, trail: Seq<char>) -> Seq<
    SpecPair,
>
    decreases cands.len(),
{
    if cands.len() == 0 {
        Seq::empty()
    } else {
        let tail = spec_matches(cands.drop_first(), prefix, trail);
        if prefix.is_prefix_of(cands[0]) {
            seq![SpecPair { display: cands[0], replacement: cands[0] + trail }] + tail
        } else {
            tail
        }
    }
}

/// One more candidate at the back adds at most one pair at the back.
pub proof fn lemma_matches_push(cands: Seq<Seq<char>>, prefix: Seq<char>, trail: Seq<char>, c: Seq<
    char,
>)
    ensures
        prefix.is_prefix_of(c) ==> spec_matches(cands.push(c), prefix, trail) == spec_matches(
            cands,
            prefix,
            trail,
        ).push(SpecPair { display: c, replacement: c + trail }),
        !prefix.is_prefix_of(c) ==> spec_matches(cands.push(c), prefix, trail) == spec_matches(
            cands,
            prefix,
            trail,
        ),
    decreases cands.len(),
{
    let cs = cands.push(c);
    let p = SpecPair { display: c, replacement: c + trail };
    if cands.len() == 0 {
        assert(cs.drop_first() =~= Seq::<Seq<char>>::empty());
        assert(cs[0] == c);
        assert(spec_matches(Seq::<Seq<char>>::empty(), prefix, trail) =~= Seq::<
            SpecPair,
        >::empty());
        assert(spec_matches(cands, prefix, trail) =~= Seq::<SpecPair>::empty());
        if prefix.is_prefix_of(c) {
            assert(spec_matches(cs, prefix, trail) =~= seq![p] + Seq::<SpecPair>::empty());
            assert(seq![p] + Seq::<SpecPair>::empty() =~= spec_matches(cands, prefix, trail).push(
                p,
            ));
        } else {
            assert(spec_matches(cs, prefix, trail) =~= Seq::<SpecPair>::empty());
        }
    } else {
        lemma_matches_push(cands.drop_first(), prefix, trail, c);
        assert(cs.drop_first() =~= cands.drop_first().push(c));
        assert(cs[0] == cands[0]);
        let tail_old = spec_matches(cands.drop_first(), prefix, trail);
        if prefix.is_prefix_of(c) {
            assert(spec_matches(cs.drop_first(), prefix, trail) == tail_old.push(p));
            if prefix.is_prefix_of(cands[0]) {
                let head = seq![SpecPair { display: cands[0], replacement: cands[0] + trail }];
                assert(spec_matches(cs, prefix, trail) == head + tail_old.push(p));
                assert(spec_matches(cands, prefix, trail) == head + tail_old);
                assert(head + tail_old.push(p) =~= (head + tail_old).push(p));
            } else {
                assert(spec_matches(cs, prefix, trail) == tail_old.push(p));
                assert(spec_matches(cands, prefix, trail) == tail_old);
            }
        } else {
            assert(spec_matches(cs.drop_first(), prefix, trail) == tail_old);
            if prefix.is_prefix_of(cands[0]) {
                assert(spec_matches(cs, prefix, trail) == seq![
                    SpecPair { display: cands[0], replacement: cands[0] + trail },
                ] + tail_old);
            } else {
                assert(spec_matches(cs, prefix, trail) == tail_old);
            }
        }
    }
}

/// All completion candidates for a typed prefix: the builtin words first,
/// then the commands of the search path, each of the latter completed with
/// a trailing space.
pub open spec fn spec_complete(
    builtins: Seq<Seq<char>>,
    prefix: Seq<char>,
    path_cmds: Seq<Seq<char>>,
) -> Seq<SpecPair> {
    spec_matches(builtins, prefix, Seq::empty()) + spec_matches(path_cmds, prefix, " "@)
}

/// The completion helper: it owns the builtin words and matches typed
/// prefixes against them and against the commands on the search path.
pub struct AutoCompiler {
    pub commands: Vec<String>,
}

/// Every executable name the search path offers, directory by directory in
/// search order.
pub open spec fn spec_path_commands(dirs: Seq<SpecSearchDir>) -> Seq<Seq<char>>
    decreases dirs.len(),
{
    if dirs.len() == 0 {
        Seq::empty()
    } else {
        dirs[0].execs + spec_path_commands(dirs.drop_first())
    }
}

impl AutoCompiler {
    /// A completer offering exactly the builtin words.
    pub fn new() -> (r: AutoCompiler)
        ensures
            r.commands.deep_view() == builtin_command_words(),
    {
        let mut commands: Vec<String> = Vec::new();
        commands.push("echo ".to_owned());
        commands.push("pwd ".to_owned());
        commands.push("cd ".to_owned());
        commands.push("type ".to_owned());
        commands.push("exit ".to_owned());
        proof {
            assert(commands.deep_view() =~= builtin_command_words());
        }
        AutoCompiler { commands }
    }

    /// Gather every command name the search path offers, in search order.
    pub fn get_path_commands(&self, search: &SearchPath) -> (cmds: Vec<String>)
        ensures
            cmds.deep_view() == spec_path_commands(search@),
    {
        let mut cmds: Vec<String> = Vec::new();
        let n = search.dirs.len();
        let mut i: usize = 0;
        proof {
            assert(search@.subrange(0, n as int) =~= search@);
            assert(cmds.deep_view() =~= Seq::<Seq<char>>::empty());
            assert(Seq::<Seq<char>>::empty() + spec_path_commands(search@) =~= spec_path_commands(
                search@,
            ));
        }
        while i < n
            invariant
                i <= n,
                n == search.dirs.len(),
                spec_path_commands(search@) == cmds.deep_view() + spec_path_commands(
                    search@.subrange(i as int, n as int),
                ),
            decreases n - i,
        {
            let ghost rest = search@.subrange(i as int, n as int);
            proof {
                assert(rest[0] == search@[i as int]);
                assert(rest.drop_first() =~= search@.subrange(i as int + 1, n as int));
            }
            let dir = &search.dirs[i];
            let m = dir.execs.len();
            let mut j: usize = 0;
            let ghost before = cmds.deep_view();
            proof {
                assert(before + search@[i as int].execs.subrange(0, 0) =~= before);
            }
            while j < m
                invariant
                    j <= m,
                    i < n,
                    n == search.dirs.len(),
                    m == search.dirs[i as int].execs.len(),
                    search@[i as int] == search.dirs[i as int]@,
                    cmds.deep_view() == before + search@[i as int].execs.subrange(0, j as int),
                decreases m - j,
            {
                let ghost old_cmds = cmds.deep_view();
                let w = search.dirs[i].execs[j].clone();
                cmds.push(w);
                proof {
                    assert(cmds.deep_view() =~= old_cmds.push(
                        search@[i as int].execs[j as int],
                    ));
                    assert(old_cmds.push(search@[i as int].execs[j as int]) =~= before
                        + search@[i as int].execs.subrange(0, j as int + 1));
                }
                j = j + 1;
            }
            proof {
                assert(search@[i as int].execs.subrange(0, m as int) =~= search@[
                    i as int
                ].execs);
                assert((before + search@[i as int].execs) + spec_path_commands(
                    rest.drop_first(),
                ) =~= before + (search@[i as int].execs + spec_path_commands(
                    rest.drop_first(),
                )));
            }
            i = i + 1;
        }
        proof {
            assert(search@.subrange(n as int, n as int) =~= Seq::<SpecSearchDir>::empty());
            assert(cmds.deep_view() + Seq::<Seq<char>>::empty() =~= cmds.deep_view());
        }
        cmds
    }

    /// The candidates for a typed prefix, the builtin words first and the
    /// search-path commands after them: exactly `spec_complete`.
    pub fn complete(&self, prefix: &str, path_cmds: &Vec<String>) -> (matches: Vec<CompletionPair>)
        ensures
            matches.deep_view() == spec_complete(
                self.commands.deep_view(),
                prefix@,
                path_cmds.deep_view(),
            ),
    {
        let mut matches: Vec<CompletionPair> = Vec::new();
        let n = self.commands.len();
        let mut i: usize = 0;
        proof {
            assert(self.commands.deep_view().subrange(0, 0) =~= Seq::<Seq<char>>::empty());
            assert(matches.deep_view() =~= Seq::<SpecPair>::empty());
        }
        while i < n
            invariant
                i <= n,
                n == self.commands.len(),
                matches.deep_view() == spec_matches(
                    self.commands.deep_view().subrange(0, i as int),
                    prefix@,
                    Seq::empty(),
                ),
            decreases n - i,
        {
            proof {
                let pre = self.commands.deep_view().subrange(0, i as int);
                let w = self.commands.deep_view()[i as int];
                lemma_matches_push(pre, prefix@, Seq::empty(), w);
                assert(pre.push(w) =~= self.commands.deep_view().subrange(0, i as int + 1));
                assert(w + Seq::<char>::empty() =~= w);
            }
            let cmd = &self.commands[i];
            if str_starts_with(cmd.as_str(), prefix) {
                let ghost old_matches = matches.deep_view();
                let pair = CompletionPair { display: cmd.clone(), replacement: cmd.clone() };
                matches.push(pair);
                proof {
                    assert(matches.deep_view() =~= old_matches.push(pair@));
                }
            }
            i = i + 1;
        }
        proof {
            assert(self.commands.deep_view().subrange(0, n as int) =~= self.commands.deep_view());
            assert(path_cmds.deep_view().subrange(0, 0) =~= Seq::<Seq<char>>::empty());
            assert(matches.deep_view() + Seq::<SpecPair>::empty() =~= matches.deep_view());
        }
        let ghost from_builtins = matches.deep_view();
        let m = path_cmds.len();
        let mut j: usize = 0;
        while j < m
            invariant
                j <= m,
                m == path_cmds.len(),
                matches.deep_view() == from_builtins + spec_matches(
                    path_cmds.deep_view().subrange(0, j as int),
                    prefix@,
                    " "@,
                ),
            decreases m - j,
        {
            proof {
                let pre = path_cmds.deep_view().subrange(0, j as int);
                let w = path_cmds.deep_view()[j as int];
                lemma_matches_push(pre, prefix@, " "@, w);
                assert(pre.push(w) =~= path_cmds.deep_view().subrange(0, j as int + 1));
            }
            let cmd = &path_cmds[j];
            if str_starts_with(cmd.as_str(), prefix) {
                let ghost old_matches = matches.deep_view();
                let pair = CompletionPair {
                    display: cmd.clone(),
                    replacement: str_concat(cmd.as_str(), " "),
                };
                matches.push(pair);
                proof {
                    assert(matches.deep_view() =~= old_matches.push(pair@));
                    assert(from_builtins + spec_matches(
                        path_cmds.deep_view().subrange(0, j as int),
                        prefix@,
                        " "@,
                    ).push(pair@) =~= (from_builtins + spec_matches(
                        path_cmds.deep_view().subrange(0, j as int),
                        prefix@,
                        " "@,
                    )).push(pair@));
                }
            }
            j = j + 1;
        }
        proof {
            assert(path_cmds.deep_view().subrange(0, m as int) =~= path_cmds.deep_view());
        }
        matches
    }
}

} // verus!
