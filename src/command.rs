//! Turns the words of a line into a command: its name, its arguments and its
//! redirections.
use vstd::prelude::*;
use crate::text::{views, lemma_views_push};

verus! {

/// How an output redirection opens its file.
#[derive(Clone, Copy, Debug, PartialEq, Eq, Structural)]
pub enum OutputMode {
    Truncate,
    Append,
}

/// A redirection operator.
#[derive(Clone, Copy, Debug, PartialEq, Eq, Structural)]
pub enum Operator {
    Input,
    Output(OutputMode),
}

/// Why a line could not become a command.
#[derive(Clone, Copy, Debug, PartialEq, Eq, Structural)]
pub enum BuildError {
    /// A redirection operator with no file name after it.
    SyntaxError,
}

/// A command ready to run: redirection operators and their file names are
/// not among `args`.
#[derive(Clone, Debug)]
pub struct CommandModel {
    pub name: String,
    pub args: Vec<String>,
    pub input_redirect: Option<String>,
    pub output_redirect: Option<(String, OutputMode)>,
}

pub struct CommandView {
    pub name: Seq<char>,
    pub args: Seq<Seq<char>>,
    pub input_redirect: Option<Seq<char>>,
    pub output_redirect: Option<(Seq<char>, OutputMode)>,
}

pub open spec fn opt_view(o: Option<String>) -> Option<Seq<char>> {
    match o {
        Some(s) => Some(s@),
        None => None,
    }
}

pub open spec fn out_view(o: Option<(String, OutputMode)>) -> Option<(Seq<char>, OutputMode)> {
    match o {
        Some(p) => Some((p.0@, p.1)),
        None => None,
    }
}

impl View for CommandModel {
    type V = CommandView;

    open spec fn view(&self) -> CommandView {
        CommandView {
            name: self.name@,
            args: views(self.args@),
            input_redirect: opt_view(self.input_redirect),
            output_redirect: out_view(self.output_redirect),
        }
    }
}

/// The operator that a word is, if it is exactly `<`, `>` or `>>`.
pub open spec fn operator_of(w: Seq<char>) -> Option<Operator> {
    if w == seq!['<'] {
        Some(Operator::Input)
    } else if w == seq!['>'] {
        Some(Operator::Output(OutputMode::Truncate))
    } else if w == seq!['>', '>'] {
        Some(Operator::Output(OutputMode::Append))
    } else {
        None
    }
}

/// The command built from the words from position `i` on, given what the
/// earlier words made of it; `None` where an operator ends the line. A later
/// redirection of the same direction replaces an earlier one.
pub open spec fn build_from(w: Seq<Seq<char>>, i: int, m: CommandView) -> Option<CommandView>
    decreases w.len() - i,
{
    if i < 0 || i >= w.len() {
        Some(m)
    } else {
        match operator_of(w[i]) {
            None => build_from(w, i + 1, CommandView { args: m.args.push(w[i]), ..m }),
            Some(op) => if i + 1 >= w.len() {
                None
            } else {
                match op {
                    Operator::Input => build_from(
                        w,
                        i + 2,
                        CommandView { input_redirect: Some(w[i + 1]), ..m },
                    ),
                    Operator::Output(mode) => build_from(
                        w,
                        i + 2,
                        CommandView { output_redirect: Some((w[i + 1], mode)), ..m },
                    ),
                }
            },
        }
    }
}

/// The command that the words make: the first word names it.
pub open spec fn build_spec(w: Seq<Seq<char>>) -> Option<CommandView>
    recommends
        w.len() > 0,
{
    build_from(
        w,
        1,
        CommandView {
            name: w[0],
            args: Seq::empty(),
            input_redirect: None,
            output_redirect: None,
        },
    )
}

/// Which redirection operator `w` is, if any.
pub fn operator(w: &str) -> (r: Option<Operator>)
    ensures
        r == operator_of(w@),
{
    let n = w.unicode_len();
    if n == 1 {
        let c = w.get_char(0);
        if c == '<' {
            assert(w@ =~= seq!['<']);
            Some(Operator::Input)
        } else if c == '>' {
            assert(w@ =~= seq!['>']);
            Some(Operator::Output(OutputMode::Truncate))
        } else {
            assert(w@ != seq!['<'] && w@ != seq!['>'] && w@ != seq!['>', '>'] && w@[0] == c);
            None
        }
    } else if n == 2 && w.get_char(0) == '>' && w.get_char(1) == '>' {
        assert(w@ =~= seq!['>', '>']);
        Some(Operator::Output(OutputMode::Append))
    } else {
        assert(w@.len() != 1);
        assert(n == 2 ==> w@ != seq!['>', '>']) by {
            if n == 2 && w@ == seq!['>', '>'] {
                assert(w@[0] == '>' && w@[1] == '>');
            }
        }
        None
    }
}

/// Builds the command of a line's words. The first word is the command's
/// name; each `<`, `>` or `>>` takes the next word as its file, and the last
/// redirection of each direction wins. An operator with no word after it is
/// a syntax error, and no command is built.
pub fn build_command(words: &Vec<String>) -> (r: Result<CommandModel, BuildError>)
    requires
        words@.len() > 0,
    ensures
        r is Ok <==> build_spec(views(words@)) is Some,
        r is Ok ==> r->Ok_0@ == build_spec(views(words@))->0,
        r is Err ==> r->Err_0 == BuildError::SyntaxError,
        r is Ok ==> forall|k: int|
            0 <= k < r->Ok_0@.args.len() ==> operator_of(#[trigger] r->Ok_0@.args[k]) is None,
{
    let ghost w = views(words@);
    let n = words.len();
    let name = words[0].clone();
    let mut args: Vec<String> = Vec::new();
    let mut input: Option<String> = None;
    let mut output: Option<(String, OutputMode)> = None;
    let mut i: usize = 1;
    assert(views(args@) =~= Seq::<Seq<char>>::empty());
    while i < n
        invariant
            n == words@.len(),
            w == views(words@),
            1 <= i <= n + 1,
            name@ == w[0],
            build_from(
                w,
                i as int,
                CommandView {
                    name: name@,
                    args: views(args@),
                    input_redirect: opt_view(input),
                    output_redirect: out_view(output),
                },
            ) == build_spec(w),
            forall|k: int| 0 <= k < views(args@).len() ==> operator_of(#[trigger] views(args@)[k]) is None,
        decreases n + 1 - i,
    {
        let op = operator(words[i].as_str());
        match op {
            None => {
                let a = words[i].clone();
                proof {
                    lemma_views_push(args@, a);
                }
                args.push(a);
                i = i + 1;
            },
            Some(o) => {
                if i + 1 >= n {
                    return Err(BuildError::SyntaxError);
                }
                let file = words[i + 1].clone();
                match o {
                    Operator::Input => {
                        input = Some(file);
                    },
                    Operator::Output(mode) => {
                        output = Some((file, mode));
                    },
                }
                i = i + 2;
            },
        }
    }
    let m = CommandModel { name, args, input_redirect: input, output_redirect: output };
    assert(m@ == build_spec(w)->0);
    Ok(m)
}

} // verus!
