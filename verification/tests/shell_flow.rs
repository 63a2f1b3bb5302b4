use ansi_term::Color;
use bsh::executable::{BuiltinProgram, InternalProgram, Runner};
use bsh::parser::parse_strict;
use bsh::shell::{external_exit_ops, Request, Shell};
use bsh::sink::SinkOp;
use bsh::store::{Executables, Vars};
use bsh::transform::{Argument, Transformer};

fn written(ops: &[SinkOp]) -> String {
    let mut out = String::new();
    for op in ops {
        if let SinkOp::Write(text) = op {
            out.push_str(text);
        }
    }
    out
}

#[test]
fn structured_args_expand_variables() {
    let mut vars = Vars::new();
    vars.insert("name".to_string(), "there".to_string());

    let cmd = parse_strict("echo \"hi $name\"").unwrap();
    let transformer = Transformer::new(&vars, false);
    let args = transformer.transform(cmd.parameters.unwrap());

    assert_eq!(args, vec![Argument::Text("hi there".to_string())]);
}

#[test]
fn export_twice_keeps_the_last_value() {
    let mut executables = Executables::new();
    let mut globals = Vars::new();
    let runner = Runner::new();

    let first = parse_strict("export k=v1").unwrap();
    let (code, _) = runner.run_builtin(
        BuiltinProgram::Export,
        first.parameters,
        &mut executables,
        &mut globals,
    );
    assert_eq!(0, code);

    let second = parse_strict("export k=v2").unwrap();
    let (code, _) = runner.run_builtin(
        BuiltinProgram::Export,
        second.parameters,
        &mut executables,
        &mut globals,
    );
    assert_eq!(0, code);

    assert_eq!(Some(&"v2".to_string()), globals.get("k"));
}

#[test]
fn export_through_the_shell() {
    let (mut shell, _) = Shell::new();
    shell.input("export k=v1");
    shell.input("\r");
    shell.input("export k=v2");
    shell.input("\r");
    shell.input("echo $k");
    let (ops, req) = shell.input("\r");
    assert!(req.is_none());
    assert!(written(&ops).contains("v2 \r\n"));
}

#[test]
fn unknown_command_is_reported_and_nothing_runs() {
    let (mut shell, _) = Shell::new();
    shell.input("zzz");
    let (ops, req) = shell.input("\r");

    assert!(written(&ops).contains("command not found: zzz"));
    assert!(req.is_none());
    assert!(!shell.is_running());
}

#[test]
fn greeting_and_prompt() {
    let (_, ops) = Shell::new();
    let text = written(&ops);
    assert!(text.contains("Welcome to Blessing Skin Shell!"));
    assert!(text.contains(&Color::Purple.paint("\u{276f} ").to_string()));
}

#[test]
fn dispatch_is_exclusive_while_running() {
    let (mut shell, _) = Shell::new();
    shell.add_external("ext".to_string());

    shell.input("ext one two");
    let (_, req) = shell.input("\r");
    match req {
        Some(Request::External { name, arguments }) => {
            assert_eq!(name, "ext");
            assert_eq!(arguments, vec!["one".to_string(), "two".to_string()]);
        }
        _ => panic!("expected an external dispatch"),
    }
    assert!(shell.is_running());

    let (ops, req) = shell.input("echo hi");
    assert!(ops.is_empty());
    assert!(req.is_none());
    let (ops, req) = shell.input("\r");
    assert!(ops.is_empty());
    assert!(req.is_none());
    assert!(shell.is_running());

    let ops = shell.finish_command();
    assert!(!shell.is_running());
    assert!(written(&ops).contains(&Color::Purple.paint("\u{276f} ").to_string()));
}

#[test]
fn internal_program_dispatches_with_structured_args() {
    let (mut shell, _) = Shell::new();
    shell.input("curl http://example.test/");
    let (_, req) = shell.input("\n");
    match req {
        Some(Request::Internal { program, arguments }) => {
            assert_eq!(program, InternalProgram::Curl);
            assert_eq!(
                arguments,
                vec![Argument::Text("http://example.test/".to_string())]
            );
        }
        _ => panic!("expected an internal dispatch"),
    }
    assert!(shell.is_running());
    shell.finish_command();
    assert!(!shell.is_running());
}

#[test]
fn syntax_error_is_reported_at_submission() {
    let (mut shell, _) = Shell::new();
    shell.input("echo 'oops");
    let (ops, req) = shell.input("\r");
    assert!(req.is_none());
    assert!(!shell.is_running());
    assert!(written(&ops).contains("syntax error at line 1, column 6, unexpected character"));
}

#[test]
fn history_suggestion_is_offered_and_accepted() {
    let (mut shell, _) = Shell::new();
    shell.input("a123");
    shell.input("\r");

    let (ops, _) = shell.input("a");
    assert!(written(&ops).contains(&Color::Fixed(8).paint("123").to_string()));

    // Accepting the suggestion and submitting commits "a123" again,
    // which shows up as an unknown command by that exact name.
    shell.input("\u{1b}[C");
    let (ops, _) = shell.input("\r");
    assert!(written(&ops).contains("command not found: a123"));
}

#[test]
fn history_keys_recall_committed_lines() {
    let (mut shell, _) = Shell::new();
    shell.input("echo one");
    shell.input("\r");
    shell.input("echo two");
    shell.input("\r");

    // Browse up to the oldest entry and submit it again.
    shell.input("\u{1b}[A");
    shell.input("\u{1b}[A");
    let (ops, _) = shell.input("\r");
    assert!(written(&ops).contains("one \r\n"));
}

#[test]
fn quote_keys_insert_matching_pairs() {
    let (mut shell, _) = Shell::new();
    shell.input("echo ");
    shell.input("\"");
    shell.input("hi");
    let (ops, req) = shell.input("\r");
    assert!(req.is_none());
    // The closing quote was already there, so the line parses.
    assert!(written(&ops).contains("hi"));
    assert!(!written(&ops).contains("syntax error"));
}

#[test]
fn clear_skips_the_line_break() {
    let (mut shell, _) = Shell::new();
    shell.input("clear");
    let (ops, req) = shell.input("\r");
    assert!(req.is_none());
    assert!(ops.iter().any(|op| matches!(op, SinkOp::Clear)));
}

#[test]
fn single_keystroke_rerenders_exactly() {
    let (mut shell, _) = Shell::new();
    let (ops, req) = shell.input("e");
    assert!(req.is_none());
    let expected = format!(
        "\u{1b}[1000D\u{1b}[0K{}{}\u{1b}[1000D\u{1b}[3C",
        Color::Purple.paint("\u{276f} "),
        Color::Red.paint("e"),
    );
    assert_eq!(written(&ops), expected);
}

#[test]
fn unknown_command_line_is_exact() {
    let (mut shell, _) = Shell::new();
    shell.input("zzz");
    let (ops, _) = shell.input("\r");
    assert!(written(&ops).contains("bsh: command not found: zzz\r\n"));
}

#[test]
fn external_exit_escapes_are_pinned() {
    assert_eq!(written(&external_exit_ops(false)), "\u{1b}[?25h");
    assert_eq!(written(&external_exit_ops(true)), "\r\n\u{1b}[?25h");
}
