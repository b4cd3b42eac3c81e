use rusty_shell::builtins::{first_match, path_candidates, plan_cd, type_report, CdPlan};
use rusty_shell::command::{build_command, operator, BuildError, Operator, OutputMode};
use rusty_shell::completion::{complete, completion_start, select_candidates};
use rusty_shell::dispatch::{decide, echo_line, lookup_builtin, Action, Builtin};
use rusty_shell::escape::unescape_string;
use rusty_shell::tokenizer::parse_single_quotes;

fn words(ws: &[&str]) -> Vec<String> {
    ws.iter().map(|w| w.to_string()).collect()
}

fn resolve_line(line: &str) -> Vec<String> {
    parse_single_quotes(line).iter().map(|w| unescape_string(w)).collect()
}

#[test]
fn plain_word_survives_tokenize_and_resolve() {
    for w in ["hello", "a.txt", "/usr/bin/env", "x-y_z=1"] {
        let toks = parse_single_quotes(w);
        assert_eq!(toks, vec![w.to_string()]);
        assert_eq!(unescape_string(&toks[0]), w);
    }
}

#[test]
fn single_quotes_are_stripped() {
    assert_eq!(parse_single_quotes("echo 'a b' c"), words(&["echo", "a b", "c"]));
}

#[test]
fn double_quotes_escape_preserved_set_only() {
    assert_eq!(parse_single_quotes("echo \"a\\\"b\""), words(&["echo", "a\"b"]));
    assert_eq!(parse_single_quotes("echo \"a\\nb\""), words(&["echo", "a\\nb"]));
    assert_eq!(parse_single_quotes("\"\\$\\`\\\\\""), words(&["$`\\"]));
}

#[test]
fn single_quotes_keep_backslash() {
    assert_eq!(parse_single_quotes("'a\\b' c"), words(&["a\\b", "c"]));
    assert_eq!(parse_single_quotes("'a\\'b"), words(&["a\\b"]));
}

#[test]
fn unquoted_backslash_keeps_next_char() {
    assert_eq!(parse_single_quotes("a\\ b c"), words(&["a b", "c"]));
    assert_eq!(parse_single_quotes("ab\\"), words(&["ab"]));
}

#[test]
fn blanks_collapse_and_no_empty_words() {
    assert_eq!(parse_single_quotes("  a \t\t b  "), words(&["a", "b"]));
    assert!(parse_single_quotes("").is_empty());
    assert!(parse_single_quotes("   ").is_empty());
    assert!(parse_single_quotes("''").is_empty());
}

#[test]
fn other_quote_is_literal_inside_quotes() {
    assert_eq!(parse_single_quotes("\"it's\" 'say \"hi\"'"), words(&["it's", "say \"hi\""]));
}

#[test]
fn unterminated_quote_runs_to_end() {
    assert_eq!(parse_single_quotes("echo 'a b"), words(&["echo", "a b"]));
}

#[test]
fn resolver_maps_named_escapes() {
    assert_eq!(unescape_string("a\\nb"), "a\nb");
    assert_eq!(unescape_string("\\t\\r\\\\\\'\\\""), "\t\r\\'\"");
    assert_eq!(unescape_string("\\x\\q"), "xq");
    assert_eq!(unescape_string("end\\"), "end");
}

#[test]
fn resolver_reads_octal() {
    assert_eq!(unescape_string("\\101"), "A");
    assert_eq!(unescape_string("\\0"), "\0");
    assert_eq!(unescape_string("\\12x"), "\nx");
    assert_eq!(unescape_string("\\1019"), "A9");
    assert_eq!(unescape_string("\\377"), "\u{ff}");
}

#[test]
fn resolver_drops_octal_over_a_byte() {
    assert_eq!(unescape_string("a\\777b"), "ab");
    assert_eq!(unescape_string("\\400"), "");
}

#[test]
fn pipeline_tokenize_then_resolve() {
    assert_eq!(resolve_line("echo 'x\\ny'"), vec!["echo".to_string(), "x\ny".to_string()]);
}

#[test]
fn operator_words() {
    assert_eq!(operator("<"), Some(Operator::Input));
    assert_eq!(operator(">"), Some(Operator::Output(OutputMode::Truncate)));
    assert_eq!(operator(">>"), Some(Operator::Output(OutputMode::Append)));
    assert_eq!(operator(">>>"), None);
    assert_eq!(operator("a"), None);
    assert_eq!(operator(""), None);
}

#[test]
fn redirect_is_extracted() {
    let m = build_command(&words(&["cmd", "arg1", ">", "out.txt"])).unwrap();
    assert_eq!(m.name, "cmd");
    assert_eq!(m.args, words(&["arg1"]));
    assert_eq!(m.input_redirect, None);
    assert_eq!(m.output_redirect, Some(("out.txt".to_string(), OutputMode::Truncate)));
}

#[test]
fn last_redirect_wins() {
    let m = build_command(&words(&["cmd", ">", "a.txt", ">", "b.txt"])).unwrap();
    assert_eq!(m.output_redirect, Some(("b.txt".to_string(), OutputMode::Truncate)));
    assert!(m.args.is_empty());
    let m = build_command(&words(&["cmd", "<", "a", "x", "<", "b", ">>", "log"])).unwrap();
    assert_eq!(m.input_redirect, Some("b".to_string()));
    assert_eq!(m.output_redirect, Some(("log".to_string(), OutputMode::Append)));
    assert_eq!(m.args, words(&["x"]));
}

#[test]
fn dangling_operator_is_syntax_error() {
    assert_eq!(build_command(&words(&["cmd", ">"])).unwrap_err(), BuildError::SyntaxError);
    assert_eq!(build_command(&words(&["cmd", "a", "<"])).unwrap_err(), BuildError::SyntaxError);
    assert_eq!(build_command(&words(&["cmd", ">>"])).unwrap_err(), BuildError::SyntaxError);
    assert!(matches!(decide(&words(&["cmd", ">"])), Action::Fail(_)));
}

#[test]
fn builtin_table() {
    assert_eq!(lookup_builtin("cd"), Some(Builtin::Cd));
    assert_eq!(lookup_builtin("pwd"), Some(Builtin::Pwd));
    assert_eq!(lookup_builtin("echo"), Some(Builtin::Echo));
    assert_eq!(lookup_builtin("exit"), Some(Builtin::Exit));
    assert_eq!(lookup_builtin("type"), Some(Builtin::Type));
    assert_eq!(lookup_builtin("history"), Some(Builtin::History));
    assert_eq!(lookup_builtin("ls"), None);
    assert_eq!(lookup_builtin("Cd"), None);
}

fn printed(a: Action) -> String {
    match a {
        Action::Print(s) => s,
        other => panic!("expected a line to print, got {:?}", other),
    }
}

#[test]
fn only_exit_zero_exits() {
    assert!(matches!(decide(&words(&["exit", "0"])), Action::Exit));
    for w in [vec!["exit", "1"], vec!["exit"], vec!["exit", "abc"], vec!["exit", "0", "1"]] {
        assert_eq!(printed(decide(&words(&w))), "Usage: exit 0");
    }
}

#[test]
fn echo_joins_with_spaces() {
    assert_eq!(printed(decide(&words(&["echo", "a", "b c", "d"]))), "a b c d");
    assert_eq!(printed(decide(&words(&["echo"]))), "");
    assert_eq!(echo_line(&words(&["echo", "x"])), "x");
}

#[test]
fn type_and_cd_operands() {
    assert_eq!(printed(decide(&words(&["type"]))), "type: missing operand");
    assert_eq!(printed(decide(&words(&["type", "echo"]))), "echo is a shell builtin");
    assert_eq!(printed(decide(&words(&["type", "history"]))), "history is a shell builtin");
    assert!(matches!(decide(&words(&["type", "ls"])), Action::LookUp(n) if n == "ls"));
    assert_eq!(printed(decide(&words(&["cd"]))), "cd: missing operand");
    assert!(matches!(decide(&words(&["cd", "/tmp"])), Action::ChangeDirectory(t) if t == "/tmp"));
}

#[test]
fn other_decisions() {
    assert!(matches!(decide(&Vec::new()), Action::Nothing));
    assert!(matches!(decide(&words(&["history"])), Action::ShowHistory));
    assert!(matches!(decide(&words(&["pwd"])), Action::PrintWorkingDirectory));
    match decide(&words(&["ls", "-l", ">>", "out"])) {
        Action::Run(m) => {
            assert_eq!(m.name, "ls");
            assert_eq!(m.args, words(&["-l"]));
            assert_eq!(m.output_redirect, Some(("out".to_string(), OutputMode::Append)));
        }
        other => panic!("expected a command, got {:?}", other),
    }
}

#[test]
fn cd_home_and_missing_directory() {
    assert!(matches!(plan_cd("~", Some("/home/u".to_string()), false), CdPlan::ChangeTo(h) if h == "/home/u"));
    assert!(matches!(plan_cd("~", Some("/home/u".to_string()), true), CdPlan::ChangeTo(h) if h == "/home/u"));
    assert!(matches!(plan_cd("~", None, true), CdPlan::Report(m) if m == "cd: HOME not set"));
    assert!(matches!(plan_cd("/nope", Some("/h".to_string()), false),
        CdPlan::Report(m) if m == "cd: /nope: No such file or directory"));
    assert!(matches!(plan_cd("/tmp", None, true), CdPlan::ChangeTo(t) if t == "/tmp"));
}

#[test]
fn type_search_order_first_match_wins() {
    let c = path_candidates("/a:/b", "tool");
    assert_eq!(c, words(&["/a/tool", "/b/tool"]));
    assert_eq!(type_report("tool", &c, &vec![true, true]), "tool is /a/tool");
    assert_eq!(type_report("tool", &c, &vec![false, true]), "tool is /b/tool");
    assert_eq!(type_report("tool", &c, &vec![false, false]), "tool: not found");
}

#[test]
fn path_splitting_keeps_empty_entries() {
    assert_eq!(path_candidates("", "x"), words(&["/x"]));
    assert_eq!(path_candidates("/a::/c:", "x"), words(&["/a/x", "/x", "/c/x", "/x"]));
    assert_eq!(first_match(&vec![]), None);
    assert_eq!(first_match(&vec![false, true, true]), Some(1));
}

#[test]
fn completion_of_builtins() {
    let (start, c) = complete("ec", 2, &Vec::new());
    assert_eq!(start, 0);
    assert_eq!(c, words(&["echo"]));
    let (_, c) = complete("e", 1, &words(&["every.txt"]));
    assert_eq!(c, words(&["echo", "exit", "every.txt"]));
    let (start, c) = complete("", 0, &words(&["a"]));
    assert_eq!(start, 0);
    assert_eq!(c, words(&["cd", "pwd", "echo", "exit", "type", "history"]));
}

#[test]
fn completion_lowercases_word_and_files() {
    let files = words(&["README.md", "src", "Readme2"]);
    let (start, c) = complete("cat RE", 6, &files);
    assert_eq!(start, 4);
    assert_eq!(c, words(&["README.md", "Readme2"]));
    let (_, c) = complete("cat re", 6, &files);
    assert_eq!(c, words(&["README.md", "Readme2"]));
    assert_eq!(completion_start("a b c", 3), 2);
    let (start, c) = complete("cat ", 4, &files);
    assert_eq!(start, 4);
    assert_eq!(c.len(), 6);
}

#[test]
fn select_candidates_by_keys() {
    let c = select_candidates("s", &words(&["Src", "lib"]), &words(&["src", "lib"]));
    assert_eq!(c, words(&["Src"]));
    let c = select_candidates("", &words(&["Src"]), &words(&["src"]));
    assert_eq!(c.len(), 6);
}
