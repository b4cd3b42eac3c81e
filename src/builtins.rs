//! The decisions of the `cd` and `type` builtins. The filesystem checks they
//! need (does a directory exist, is a file executable) are made by the caller
//! and handed in.
use vstd::prelude::*;
use crate::text::{chars_of, push_str, str_equals, string_from_chars, views, lemma_views_push};

verus! {

/// What `cd` does: change to a directory, or report why not and stay.
#[derive(Clone, Debug)]
pub enum CdPlan {
    ChangeTo(String),
    Report(String),
}

pub enum CdStep {
    ChangeTo(Seq<char>),
    Report(Seq<char>),
}

impl View for CdPlan {
    type V = CdStep;

    open spec fn view(&self) -> CdStep {
        match self {
            CdPlan::ChangeTo(s) => CdStep::ChangeTo(s@),
            CdPlan::Report(s) => CdStep::Report(s@),
        }
    }
}

pub open spec fn no_such_directory(target: Seq<char>) -> Seq<char> {
    "cd: "@ + target + ": No such file or directory"@
}

/// What `cd target` does, given the home directory, if known, and whether the
/// target exists.
pub open spec fn cd_spec(target: Seq<char>, home: Option<Seq<char>>, target_exists: bool) -> CdStep {
    if target == "~"@ {
        match home {
            Some(h) => CdStep::ChangeTo(h),
            None => CdStep::Report("cd: HOME not set"@),
        }
    } else if target_exists {
        CdStep::ChangeTo(target)
    } else {
        CdStep::Report(no_such_directory(target))
    }
}

/// `~` goes to the home directory, whatever the current one; a target that
/// does not exist is reported and the directory stays as it is.
pub fn plan_cd(target: &str, home: Option<String>, target_exists: bool) -> (r: CdPlan)
    ensures
        r@ == cd_spec(target@, opt_string_view(home), target_exists),
{
    if str_equals(target, "~") {
        match home {
            Some(h) => CdPlan::ChangeTo(h),
            None => CdPlan::Report(String::from_str("cd: HOME not set")),
        }
    } else if target_exists {
        CdPlan::ChangeTo(String::from_str(target))
    } else {
        let mut out: Vec<char> = Vec::new();
        push_str(&mut out, "cd: ");
        push_str(&mut out, target);
        push_str(&mut out, ": No such file or directory");
        assert(out@ =~= no_such_directory(target@));
        CdPlan::Report(string_from_chars(&out))
    }
}

pub open spec fn opt_string_view(o: Option<String>) -> Option<Seq<char>> {
    match o {
        Some(s) => Some(s@),
        None => None,
    }
}

/// The pieces of `s` between colons, from position `i`, given the finished
/// pieces and the piece under way.
pub open spec fn split_from(s: Seq<char>, i: int, done: Seq<Seq<char>>, cur: Seq<char>) -> Seq<Seq<char>>
    decreases s.len() - i,
{
    if i < 0 || i >= s.len() {
        done.push(cur)
    } else if s[i] == ':' {
        split_from(s, i + 1, done.push(cur), Seq::empty())
    } else {
        split_from(s, i + 1, done, cur.push(s[i]))
    }
}

/// The colon-separated entries of a search path, in order; empty ones kept.
pub open spec fn split_colon(s: Seq<char>) -> Seq<Seq<char>> {
    split_from(s, 0, Seq::empty(), Seq::empty())
}

pub open spec fn join_path(dir: Seq<char>, name: Seq<char>) -> Seq<char> {
    dir + seq!['/'] + name
}

/// The full paths that `type name` tries, in the order of the search path.
pub open spec fn candidate_paths(path_var: Seq<char>, name: Seq<char>) -> Seq<Seq<char>> {
    split_colon(path_var).map_values(|d: Seq<char>| join_path(d, name))
}

fn joined(dir: &Vec<char>, name: &str) -> (r: String)
    ensures
        r@ == join_path(dir@, name@),
{
    let mut out: Vec<char> = dir.clone();
    assert(out@ == dir@);
    out.push('/');
    push_str(&mut out, name);
    string_from_chars(&out)
}

/// The paths at which `type` looks for `name`: each entry of `path_var`
/// followed by `/` and `name`, in order.
pub fn path_candidates(path_var: &str, name: &str) -> (r: Vec<String>)
    ensures
        views(r@) == candidate_paths(path_var@, name@),
{
    let s = chars_of(path_var);
    let n = s.len();
    let ghost f = |d: Seq<char>| join_path(d, name@);
    let ghost done: Seq<Seq<char>> = Seq::empty();
    let mut out: Vec<String> = Vec::new();
    let mut cur: Vec<char> = Vec::new();
    let mut i: usize = 0;
    assert(views(out@) =~= done.map_values(f));
    while i < n
        invariant
            n == s@.len(),
            s@ == path_var@,
            i <= n,
            f == (|d: Seq<char>| join_path(d, name@)),
            split_from(s@, i as int, done, cur@) == split_colon(path_var@),
            views(out@) == done.map_values(f),
        decreases n - i,
    {
        if s[i] == ':' {
            let p = joined(&cur, name);
            proof {
                lemma_views_push(out@, p);
                assert(done.push(cur@).map_values(f) =~= done.map_values(f).push(f(cur@)));
                done = done.push(cur@);
            }
            out.push(p);
            cur = Vec::new();
        } else {
            cur.push(s[i]);
        }
        i = i + 1;
    }
    let p = joined(&cur, name);
    proof {
        lemma_views_push(out@, p);
        assert(done.push(cur@).map_values(f) =~= done.map_values(f).push(f(cur@)));
    }
    out.push(p);
    out
}

/// The first position from `i` on where `flags` holds.
pub open spec fn first_from(flags: Seq<bool>, i: int) -> Option<int>
    decreases flags.len() - i,
{
    if i < 0 || i >= flags.len() {
        None
    } else if flags[i] {
        Some(i)
    } else {
        first_from(flags, i + 1)
    }
}

pub open spec fn first_true(flags: Seq<bool>) -> Option<int> {
    first_from(flags, 0)
}

/// The first position at which `flags` holds: the first match wins.
pub fn first_match(flags: &Vec<bool>) -> (r: Option<usize>)
    ensures
        match r {
            Some(k) => k < flags@.len() && flags@[k as int] && forall|j: int|
                0 <= j < k ==> !#[trigger] flags@[j],
            None => forall|j: int| 0 <= j < flags@.len() ==> !#[trigger] flags@[j],
        },
        r matches Some(k) ==> first_true(flags@) == Some(k as int),
        r is None ==> first_true(flags@) is None,
{
    let n = flags.len();
    let mut i: usize = 0;
    while i < n
        invariant
            n == flags@.len(),
            i <= n,
            forall|j: int| 0 <= j < i ==> !#[trigger] flags@[j],
            first_from(flags@, i as int) == first_true(flags@),
        decreases n - i,
    {
        if flags[i] {
            return Some(i);
        }
        i = i + 1;
    }
    None
}

pub open spec fn type_message(name: Seq<char>, candidates: Seq<Seq<char>>, executable: Seq<bool>) -> Seq<char> {
    match first_true(executable) {
        Some(k) => name + " is "@ + candidates[k],
        None => name + ": not found"@,
    }
}

/// What `type name` prints for a name that is no builtin: the first candidate
/// path that is an executable file, or that the name is not found.
/// `executable[k]` tells whether `candidates[k]` is an executable file.
pub fn type_report(name: &str, candidates: &Vec<String>, executable: &Vec<bool>) -> (r: String)
    requires
        candidates@.len() == executable@.len(),
    ensures
        r@ == type_message(name@, views(candidates@), executable@),
{
    let mut out: Vec<char> = Vec::new();
    push_str(&mut out, name);
    match first_match(executable) {
        Some(k) => {
            push_str(&mut out, " is ");
            push_str(&mut out, candidates[k].as_str());
            assert(out@ =~= type_message(name@, views(candidates@), executable@));
        },
        None => {
            push_str(&mut out, ": not found");
            assert(out@ =~= type_message(name@, views(candidates@), executable@));
        },
    }
    string_from_chars(&out)
}

} // verus!
