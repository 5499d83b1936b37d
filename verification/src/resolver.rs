use vstd::prelude::*;
use crate::strutil::str_eq;

verus! {

/// One directory of the search path, as the interpreter sees it: where it
/// lives and which executable file names it offers.
pub struct SearchDir {
    pub path: String,
    pub execs: Vec<String>,
}

/// The mathematical shape of a `SearchDir`.
pub struct SpecSearchDir {
    pub path: Seq<char>,
    pub execs: Seq<Seq<char>>,
}

impl View for SearchDir {
    type V = SpecSearchDir;

    open spec fn view(&self) -> SpecSearchDir {
        SpecSearchDir { path: self.path@, execs: self.execs.deep_view() }
    }
}

impl DeepView for SearchDir {
    type V = SpecSearchDir;

    open spec fn deep_view(&self) -> SpecSearchDir {
        self@
    }
}

/// A snapshot of the colon-separated search path: its directories in order.
/// The surrounding program takes this from the real environment; everything
/// here only reads it.
pub struct SearchPath {
    pub dirs: Vec<SearchDir>,
}

impl View for SearchPath {
    type V = Seq<SpecSearchDir>;

    open spec fn view(&self) -> Seq<SpecSearchDir> {
        self.dirs.deep_view()
    }
}

/// Where a command name resolves: the first directory, in search-path order,
/// that offers the name gives `<dir>/<name>`; no directory gives nothing.
pub open spec fn spec_resolve(name: Seq<char>, dirs: Seq<SpecSearchDir>) -> Option<Seq<char>>
    decreases dirs.len(),
{
    if dirs.len() == 0 {
        None
    } else if dirs[0].execs.contains(name) {
        Some(dirs[0].path + "/"@ + name)
    } else {
        spec_resolve(name, dirs.drop_first())
    }
}

/// Whether a vector of words holds `name`.
fn contains_name(v: &Vec<String>, name: &str) -> (r: bool)
    ensures
        r == v.deep_view().contains(name@),
{
    let mut i: usize = 0;
    while i < v.len()
        invariant
            i <= v.len(),
            forall|j: int| 0 <= j < i ==> v.deep_view()[j] != name@,
        decreases v.len() - i,
    {
        if str_eq(v[i].as_str(), name) {
            proof {
                assert(v.deep_view()[i as int] == name@);
            }
            return true;
        }
        i = i + 1;
    }
    proof {
        assert(forall|j: int| 0 <= j < v.deep_view().len() ==> v.deep_view()[j] != name@);
    }
    false
}

/// Resolve a command name to the full path of the first executable with that
/// name on the search path, walking the directories in order.
pub fn handle_exec_function(name: &str, search: &SearchPath) -> (r: Option<String>)
    ensures
        r is Some <==> spec_resolve(name@, search@) is Some,
        r is Some ==> r.unwrap()@ == spec_resolve(name@, search@).unwrap(),
{
    let n = search.dirs.len();
    let mut i: usize = 0;
    proof {
        assert(search@.subrange(0, n as int) =~= search@);
    }
    while i < n
        invariant
            i <= n,
            n == search.dirs.len(),
            spec_resolve(name@, search@) == spec_resolve(
                name@,
                search@.subrange(i as int, n as int),
            ),
        decreases n - i,
    {
        let ghost rest = search@.subrange(i as int, n as int);
        proof {
            assert(rest[0] == search@[i as int]);
            assert(rest.drop_first() =~= search@.subrange(i as int + 1, n as int));
        }
        let dir = &search.dirs[i];
        if contains_name(&dir.execs, name) {
            let mut full = dir.path.clone();
            full.append("/");
            full.append(name);
            return Some(full);
        }
        i = i + 1;
    }
    proof {
        assert(search@.subrange(n as int, n as int) =~= Seq::<SpecSearchDir>::empty());
    }
    None
}

/// Resolve a command name as `handle_exec_function` does, but hand back the
/// bare name itself when some directory offers it.
pub fn find_exec_function(name: &str, search: &SearchPath) -> (r: Option<String>)
    ensures
        r is Some <==> spec_resolve(name@, search@) is Some,
        r is Some ==> r.unwrap()@ == name@,
{
    match handle_exec_function(name, search) {
        Some(_) => Some(name.to_owned()),
        None => None,
    }
}

} // verus!
