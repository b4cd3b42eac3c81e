//! Facts that relate the parsing stages to one another.
use vstd::prelude::*;
use crate::tokenizer::{scan, tokenize, is_blank};
use crate::escape::{resolve, resolve_from};
use crate::dispatch::{Builtin, Decision, builtin_of, decide_spec};
use crate::builtins::{CdStep, cd_spec, no_such_directory};

verus! {

/// A character that neither the tokenizer nor the escape resolver treats specially.
pub open spec fn plain_char(c: char) -> bool {
    c != '\'' && c != '"' && c != '\\' && !is_blank(c)
}

proof fn lemma_scan_plain(s: Seq<char>, i: int)
    requires
        0 <= i <= s.len(),
        forall|k: int| 0 <= k < s.len() ==> plain_char(#[trigger] s[k]),
    ensures
        s.len() > 0 ==> scan(s, i, Seq::empty(), s.subrange(0, i), None) == seq![s],
    decreases s.len() - i,
{
    if i < s.len() {
        assert(plain_char(s[i]));
        assert(s.subrange(0, i).push(s[i]) =~= s.subrange(0, i + 1));
        lemma_scan_plain(s, i + 1);
    } else {
        assert(s.subrange(0, i) =~= s);
        assert(Seq::<Seq<char>>::empty().push(s) =~= seq![s]);
    }
}

proof fn lemma_resolve_plain(s: Seq<char>, i: int)
    requires
        0 <= i <= s.len(),
        forall|k: int| 0 <= k < s.len() ==> plain_char(#[trigger] s[k]),
    ensures
        resolve_from(s, i) == s.subrange(i, s.len() as int),
    decreases s.len() - i,
{
    if i < s.len() {
        assert(plain_char(s[i]));
        lemma_resolve_plain(s, i + 1);
        assert(seq![s[i]] + s.subrange(i + 1, s.len() as int) =~= s.subrange(i, s.len() as int));
    } else {
        assert(s.subrange(i, s.len() as int) =~= Seq::<char>::empty());
    }
}

/// A non-empty word with no quote, backslash or blank comes out of the
/// tokenizer as that single word, and the escape resolver leaves it as it is.
pub proof fn lemma_plain_word_round_trip(w: Seq<char>)
    requires
        w.len() > 0,
        forall|k: int| 0 <= k < w.len() ==> plain_char(#[trigger] w[k]),
    ensures
        tokenize(w) == seq![w],
        resolve(tokenize(w)[0]) == w,
{
    assert(w.subrange(0, 0) =~= Seq::<char>::empty());
    lemma_scan_plain(w, 0);
    lemma_resolve_plain(w, 0);
    assert(w.subrange(0, w.len() as int) =~= w);
}

/// Only the words `exit 0` end the loop; `exit` with any other arguments
/// prints its usage line instead.
pub proof fn lemma_only_exit_zero_exits(w: Seq<Seq<char>>)
    ensures
        decide_spec(w) == Decision::Exit <==> w == seq!["exit"@, "0"@],
        w.len() > 0 && w[0] == "exit"@ && w != seq!["exit"@, "0"@] ==> decide_spec(w)
            == Decision::Print("Usage: exit 0"@),
{
    reveal_strlit("cd");
    reveal_strlit("pwd");
    reveal_strlit("echo");
    reveal_strlit("exit");
    reveal_strlit("type");
    reveal_strlit("history");
    assert("exit"@.len() != "cd"@.len() && "exit"@.len() != "pwd"@.len());
    assert("exit"@[1] != "echo"@[1]);
    assert(builtin_of("exit"@) == Some(Builtin::Exit));
    if w == seq!["exit"@, "0"@] {
        assert(w.len() == 2 && w[0] == "exit"@ && w[1] == "0"@);
    }
    if w.len() == 2 && w[0] == "exit"@ && w[1] == "0"@ {
        assert(w =~= seq!["exit"@, "0"@]);
    }
}

/// `cd ~` goes to the home directory whatever else holds, and `cd` to a
/// target that does not exist never changes the directory: it reports
/// `cd: <target>: No such file or directory`.
pub proof fn lemma_cd_home_and_missing_target(home: Seq<char>, target: Seq<char>, exists: bool)
    ensures
        cd_spec("~"@, Some(home), exists) == CdStep::ChangeTo(home),
        target != "~"@ ==> cd_spec(target, Some(home), false) == CdStep::Report(no_such_directory(target)),
{
}

} // verus!
