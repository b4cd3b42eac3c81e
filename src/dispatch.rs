//! What the interpreter does with the words of a line: which builtin runs,
//! what it prints, or which external command is launched.
use vstd::prelude::*;
use crate::text::{str_equals, push_str, string_from_chars, views};
use crate::command::{CommandModel, CommandView, build_command, build_spec};

verus! {

/// The commands that the interpreter runs itself.
#[derive(Clone, Copy, Debug, PartialEq, Eq, Structural)]
pub enum Builtin {
    Cd,
    Pwd,
    Echo,
    Exit,
    Type,
    History,
}

pub open spec fn builtin_of(name: Seq<char>) -> Option<Builtin> {
    if name == "cd"@ {
        Some(Builtin::Cd)
    } else if name == "pwd"@ {
        Some(Builtin::Pwd)
    } else if name == "echo"@ {
        Some(Builtin::Echo)
    } else if name == "exit"@ {
        Some(Builtin::Exit)
    } else if name == "type"@ {
        Some(Builtin::Type)
    } else if name == "history"@ {
        Some(Builtin::History)
    } else {
        None
    }
}

/// The builtin that `name` names, or `None` for an external command.
pub fn lookup_builtin(name: &str) -> (r: Option<Builtin>)
    ensures
        r == builtin_of(name@),
{
    if str_equals(name, "cd") {
        Some(Builtin::Cd)
    } else if str_equals(name, "pwd") {
        Some(Builtin::Pwd)
    } else if str_equals(name, "echo") {
        Some(Builtin::Echo)
    } else if str_equals(name, "exit") {
        Some(Builtin::Exit)
    } else if str_equals(name, "type") {
        Some(Builtin::Type)
    } else if str_equals(name, "history") {
        Some(Builtin::History)
    } else {
        None
    }
}

/// The words joined by single spaces.
pub open spec fn join_space(w: Seq<Seq<char>>) -> Seq<char>
    decreases w.len(),
{
    if w.len() == 0 {
        Seq::empty()
    } else if w.len() == 1 {
        w[0]
    } else {
        join_space(w.drop_last()) + seq![' '] + w.last()
    }
}

pub open spec fn builtin_message(name: Seq<char>) -> Seq<char> {
    name + " is a shell builtin"@
}

/// The next step of the interpreter, in terms of views.
pub enum Decision {
    Nothing,
    Exit,
    Print(Seq<char>),
    Fail(Seq<char>),
    ShowHistory,
    PrintWorkingDirectory,
    ChangeDirectory(Seq<char>),
    LookUp(Seq<char>),
    Run(CommandView),
}

/// The next step of the interpreter.
#[derive(Clone, Debug)]
pub enum Action {
    /// The line held no word.
    Nothing,
    /// Leave the loop.
    Exit,
    /// Print the line on standard output.
    Print(String),
    /// Print the diagnostic on standard error.
    Fail(String),
    /// List the recorded lines.
    ShowHistory,
    /// Print the working directory.
    PrintWorkingDirectory,
    /// Change the working directory to the target (`~` for home).
    ChangeDirectory(String),
    /// Search the executable path for the name.
    LookUp(String),
    /// Launch the external command.
    Run(CommandModel),
}

impl View for Action {
    type V = Decision;

    open spec fn view(&self) -> Decision {
        match self {
            Action::Nothing => Decision::Nothing,
            Action::Exit => Decision::Exit,
            Action::Print(s) => Decision::Print(s@),
            Action::Fail(s) => Decision::Fail(s@),
            Action::ShowHistory => Decision::ShowHistory,
            Action::PrintWorkingDirectory => Decision::PrintWorkingDirectory,
            Action::ChangeDirectory(s) => Decision::ChangeDirectory(s@),
            Action::LookUp(s) => Decision::LookUp(s@),
            Action::Run(m) => Decision::Run(m@),
        }
    }
}

/// What the interpreter does with the words of a line.
pub open spec fn decide_spec(w: Seq<Seq<char>>) -> Decision {
    if w.len() == 0 {
        Decision::Nothing
    } else {
        match builtin_of(w[0]) {
            Some(Builtin::History) => Decision::ShowHistory,
            Some(Builtin::Type) => if w.len() < 2 {
                Decision::Print("type: missing operand"@)
            } else if builtin_of(w[1]) is Some {
                Decision::Print(builtin_message(w[1]))
            } else {
                Decision::LookUp(w[1])
            },
            Some(Builtin::Echo) => Decision::Print(join_space(w.subrange(1, w.len() as int))),
            Some(Builtin::Pwd) => Decision::PrintWorkingDirectory,
            Some(Builtin::Exit) => if w.len() == 2 && w[1] == "0"@ {
                Decision::Exit
            } else {
                Decision::Print("Usage: exit 0"@)
            },
            Some(Builtin::Cd) => if w.len() < 2 {
                Decision::Print("cd: missing operand"@)
            } else {
                Decision::ChangeDirectory(w[1])
            },
            None => match build_spec(w) {
                Some(m) => Decision::Run(m),
                None => Decision::Fail("syntax error near unexpected token `newline`"@),
            },
        }
    }
}

/// The words from position 1 on, joined by single spaces.
pub fn echo_line(words: &Vec<String>) -> (r: String)
    requires
        words@.len() > 0,
    ensures
        r@ == join_space(views(words@).subrange(1, words@.len() as int)),
{
    let ghost w = views(words@);
    let mut out: Vec<char> = Vec::new();
    let n = words.len();
    if n <= 1 {
        assert(w.subrange(1, n as int) =~= Seq::<Seq<char>>::empty());
        return string_from_chars(&out);
    }
    let mut i: usize = 1;
    while i < n
        invariant
            n == words@.len(),
            n >= 2,
            w == views(words@),
            1 <= i <= n,
            out@ == join_space(w.subrange(1, i as int)),
        decreases n - i,
    {
        let ghost before = out@;
        if i > 1 {
            out.push(' ');
        }
        push_str(&mut out, words[i].as_str());
        proof {
            let p = w.subrange(1, i as int + 1);
            assert(p.drop_last() =~= w.subrange(1, i as int));
            assert(p.last() == words@[i as int]@);
            if i == 1 {
                assert(w.subrange(1, 1) =~= Seq::<Seq<char>>::empty());
                assert(out@ =~= p[0]);
            } else {
                assert(out@ =~= join_space(p.drop_last()) + seq![' '] + p.last());
            }
        }
        i = i + 1;
    }
    string_from_chars(&out)
}

/// `name` followed by ` is a shell builtin`.
pub fn builtin_report(name: &str) -> (r: String)
    ensures
        r@ == builtin_message(name@),
{
    let mut out: Vec<char> = Vec::new();
    push_str(&mut out, name);
    push_str(&mut out, " is a shell builtin");
    assert(out@ =~= builtin_message(name@));
    string_from_chars(&out)
}

/// Decides what to do with the words of a line: a builtin's effect, a
/// diagnostic, or the external command to launch. Only `exit 0` ends the
/// loop; `type` reports builtins itself and asks for a path search otherwise.
pub fn decide(words: &Vec<String>) -> (r: Action)
    ensures
        r@ == decide_spec(views(words@)),
{
    let ghost w = views(words@);
    let n = words.len();
    if n == 0 {
        return Action::Nothing;
    }
    match lookup_builtin(words[0].as_str()) {
        Some(Builtin::History) => Action::ShowHistory,
        Some(Builtin::Type) => {
            if n < 2 {
                Action::Print(String::from_str("type: missing operand"))
            } else if lookup_builtin(words[1].as_str()).is_some() {
                Action::Print(builtin_report(words[1].as_str()))
            } else {
                Action::LookUp(words[1].clone())
            }
        },
        Some(Builtin::Echo) => Action::Print(echo_line(words)),
        Some(Builtin::Pwd) => Action::PrintWorkingDirectory,
        Some(Builtin::Exit) => {
            if n == 2 && str_equals(words[1].as_str(), "0") {
                Action::Exit
            } else {
                Action::Print(String::from_str("Usage: exit 0"))
            }
        },
        Some(Builtin::Cd) => {
            if n < 2 {
                Action::Print(String::from_str("cd: missing operand"))
            } else {
                Action::ChangeDirectory(words[1].clone())
            }
        },
        None => match build_command(words) {
            Ok(m) => Action::Run(m),
            Err(_) => Action::Fail(String::from_str("syntax error near unexpected token `newline`")),
        },
    }
}

} // verus!
