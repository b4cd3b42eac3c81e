//! Proposals for completing the word under the cursor: builtin names, and
//! names of files in the working directory (listed by the caller).
use vstd::prelude::*;
use crate::text::{views, lemma_views_push};

verus! {

/// What `str::to_lowercase` makes of a string.
pub uninterp spec fn lower_of(s: Seq<char>) -> Seq<char>;

/// Relies on `str::to_lowercase`: the result depends on the characters alone.
#[verifier::external_body]
fn lowercase(s: &str) -> (r: String)
    ensures
        r@ == lower_of(s@),
{
    s.to_lowercase()
}

pub open spec fn is_prefix(p: Seq<char>, s: Seq<char>) -> bool {
    p.len() <= s.len() && s.subrange(0, p.len() as int) == p
}

/// Where the word that ends at `pos` starts: just after the last space
/// before `pos`, or at the start of the line.
pub open spec fn word_start(line: Seq<char>, pos: int) -> int
    decreases pos,
{
    if pos <= 0 {
        0
    } else if line[pos - 1] == ' ' {
        pos
    } else {
        word_start(line, pos - 1)
    }
}

/// The names offered as builtins.
pub open spec fn builtin_names() -> Seq<Seq<char>> {
    seq!["cd"@, "pwd"@, "echo"@, "exit"@, "type"@, "history"@]
}

/// The `names` whose counterpart in `keys` starts with `word`, in order.
pub open spec fn select(word: Seq<char>, names: Seq<Seq<char>>, keys: Seq<Seq<char>>) -> Seq<Seq<char>>
    decreases names.len(),
{
    if names.len() == 0 {
        Seq::empty()
    } else {
        let rest = select(word, names.drop_last(), keys.subrange(0, names.len() - 1));
        if is_prefix(word, keys[names.len() - 1]) {
            rest.push(names.last())
        } else {
            rest
        }
    }
}

/// The proposals for a lower-cased word: matching builtins, then, for a
/// non-empty word, the files whose lower-cased names start with it.
pub open spec fn proposals(word: Seq<char>, files: Seq<Seq<char>>, files_lower: Seq<Seq<char>>) -> Seq<Seq<char>> {
    select(word, builtin_names(), builtin_names()) + if word.len() > 0 {
        select(word, files, files_lower)
    } else {
        Seq::empty()
    }
}

fn builtin_list() -> (r: Vec<String>)
    ensures
        views(r@) == builtin_names(),
{
    let r = vec![
        String::from_str("cd"),
        String::from_str("pwd"),
        String::from_str("echo"),
        String::from_str("exit"),
        String::from_str("type"),
        String::from_str("history"),
    ];
    assert(views(r@) =~= builtin_names());
    r
}

fn starts_with(s: &str, p: &str) -> (r: bool)
    ensures
        r == is_prefix(p@, s@),
{
    let n = s.unicode_len();
    let m = p.unicode_len();
    if m > n {
        return false;
    }
    let mut i: usize = 0;
    while i < m
        invariant
            n == s@.len(),
            m == p@.len(),
            m <= n,
            i <= m,
            forall|k: int| 0 <= k < i ==> s@[k] == p@[k],
        decreases m - i,
    {
        if s.get_char(i) != p.get_char(i) {
            assert(s@.subrange(0, m as int)[i as int] != p@[i as int]);
            return false;
        }
        i = i + 1;
    }
    assert(s@.subrange(0, m as int) =~= p@);
    true
}

fn append_selected(out: &mut Vec<String>, word: &str, names: &Vec<String>, keys: &Vec<String>)
    requires
        names@.len() == keys@.len(),
    ensures
        views(final(out)@) == views(old(out)@) + select(word@, views(names@), views(keys@)),
{
    let ghost start = views(out@);
    let n = names.len();
    let mut i: usize = 0;
    assert(select(word@, views(names@).subrange(0, 0), views(keys@).subrange(0, 0)) =~= Seq::<Seq<char>>::empty());
    assert(views(out@) =~= start + Seq::<Seq<char>>::empty());
    while i < n
        invariant
            n == names@.len(),
            n == keys@.len(),
            i <= n,
            views(out@) == start + select(
                word@,
                views(names@).subrange(0, i as int),
                views(keys@).subrange(0, i as int),
            ),
        decreases n - i,
    {
        let ghost ns = views(names@).subrange(0, i as int + 1);
        let ghost ks = views(keys@).subrange(0, i as int + 1);
        proof {
            assert(ns.drop_last() =~= views(names@).subrange(0, i as int));
            assert(ks.subrange(0, i as int) =~= views(keys@).subrange(0, i as int));
            assert(ks[i as int] == keys@[i as int]@);
            assert(ns.last() == names@[i as int]@);
        }
        if starts_with(keys[i].as_str(), word) {
            let c = names[i].clone();
            proof {
                lemma_views_push(out@, c);
            }
            out.push(c);
            assert(views(out@) =~= start + select(word@, ns, ks));
        }
        i = i + 1;
    }
    assert(views(names@).subrange(0, n as int) =~= views(names@));
    assert(views(keys@).subrange(0, n as int) =~= views(keys@));
}

/// The proposals for the lower-cased word `word`: builtin names that start
/// with it, then, if it is not empty, those `file_names` whose lower-cased
/// form (`file_keys`, position by position) starts with it.
pub fn select_candidates(word: &str, file_names: &Vec<String>, file_keys: &Vec<String>) -> (r: Vec<String>)
    requires
        file_names@.len() == file_keys@.len(),
    ensures
        views(r@) == proposals(word@, views(file_names@), views(file_keys@)),
{
    let builtins = builtin_list();
    let mut out: Vec<String> = Vec::new();
    assert(views(out@) =~= Seq::<Seq<char>>::empty());
    append_selected(&mut out, word, &builtins, &builtins);
    if word.unicode_len() > 0 {
        append_selected(&mut out, word, file_names, file_keys);
    } else {
        assert(views(out@) =~= views(out@) + Seq::<Seq<char>>::empty());
    }
    out
}

/// Where the word under the cursor at `pos` starts.
pub fn completion_start(line: &str, pos: usize) -> (r: usize)
    requires
        pos <= line@.len(),
    ensures
        r == word_start(line@, pos as int),
{
    let mut i: usize = pos;
    while i > 0
        invariant
            i <= pos <= line@.len(),
            word_start(line@, i as int) == word_start(line@, pos as int),
        decreases i,
    {
        if line.get_char(i - 1) == ' ' {
            return i;
        }
        i = i - 1;
    }
    0
}

/// Completes the word that ends at character position `pos` of `line`: the
/// position where it starts, and the proposals for its lower-cased form
/// among the builtins and `file_names`.
pub fn complete(line: &str, pos: usize, file_names: &Vec<String>) -> (r: (usize, Vec<String>))
    requires
        pos <= line@.len(),
    ensures
        r.0 == word_start(line@, pos as int),
        views(r.1@) == proposals(
            lower_of(line@.subrange(r.0 as int, pos as int)),
            views(file_names@),
            views(file_names@).map_values(|f: Seq<char>| lower_of(f)),
        ),
{
    let start = completion_start(line, pos);
    proof {
        lemma_word_start_bounds(line@, pos as int);
    }
    let word = lowercase(line.substring_char(start, pos));
    let mut keys: Vec<String> = Vec::new();
    let n = file_names.len();
    let mut i: usize = 0;
    while i < n
        invariant
            n == file_names@.len(),
            i <= n,
            views(keys@) == views(file_names@).subrange(0, i as int).map_values(|f: Seq<char>| lower_of(f)),
        decreases n - i,
    {
        let k = lowercase(file_names[i].as_str());
        proof {
            lemma_views_push(keys@, k);
        }
        keys.push(k);
        i = i + 1;
        assert(views(keys@) =~= views(file_names@).subrange(0, i as int).map_values(|f: Seq<char>| lower_of(f)));
    }
    assert(views(file_names@).subrange(0, n as int) =~= views(file_names@));
    let found = select_candidates(word.as_str(), file_names, &keys);
    (start, found)
}

proof fn lemma_word_start_bounds(line: Seq<char>, pos: int)
    requires
        0 <= pos <= line.len(),
    ensures
        0 <= word_start(line, pos) <= pos,
    decreases pos,
{
    if pos > 0 {
        lemma_word_start_bounds(line, pos - 1);
    }
}

} // verus!
