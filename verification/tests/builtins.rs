use bsh::executable::{BuiltinProgram, Runner};
use bsh::programs::{Clear, Curl, Echo, Export, False, True};
use bsh::sink::SinkOp;
use bsh::store::{Executables, Vars};
use bsh::transform::Argument;

fn ops_text(ops: &[SinkOp]) -> String {
    let mut out = String::new();
    for op in ops {
        match op {
            SinkOp::Write(text) => out.push_str(text),
            SinkOp::Clear => out.clear(),
        }
    }
    out
}

#[test]
fn clear_run() {
    let mut executables = Executables::new();
    let mut globals = Vars::new();

    let program = Clear::default();
    let (code, ops) = program.run(&mut executables, &mut globals, vec![]);
    assert_eq!(0, code);
    assert_eq!(ops.len(), 1);
    assert!(matches!(ops[0], SinkOp::Clear));
    assert_eq!("", &ops_text(&ops));
}

#[test]
fn echo_run() {
    let mut executables = Executables::new();
    let mut globals = Vars::new();

    let program = Echo::default();
    let (code, ops) = program.run(&mut executables, &mut globals, vec![]);
    assert_eq!(0, code);
    assert_eq!("\r\n", &ops_text(&ops));

    let arguments = vec![
        Argument::Text("text".to_string()),
        Argument::Switch("switch".to_string(), None),
        Argument::Switch("key".to_string(), Some("value".to_string())),
    ];
    let (code, ops) = program.run(&mut executables, &mut globals, arguments);
    assert_eq!(0, code);
    assert_eq!("text switch key=value \r\n", &ops_text(&ops));
}

#[test]
fn no_arguments() {
    let mut executables = Executables::new();
    let mut globals = Vars::new();

    let program = Export::default();
    let (code, _) = program.run(&mut executables, &mut globals, vec![]);
    assert_eq!(0, code);
}

#[test]
fn pass_a_switch() {
    let mut executables = Executables::new();
    let mut globals = Vars::new();
    let arguments = vec![Argument::Switch("s".to_string(), None)];

    let program = Export::default();
    let (code, ops) = program.run(&mut executables, &mut globals, arguments);
    assert_eq!(1, code);
    assert!(ops_text(&ops).contains("Invalid argument: s"));
}

#[test]
fn missing_name() {
    let mut executables = Executables::new();
    let mut globals = Vars::new();
    let arguments = vec![Argument::Text("".to_string())];

    let program = Export::default();
    let (code, ops) = program.run(&mut executables, &mut globals, arguments);
    assert_eq!(1, code);
    assert!(ops_text(&ops).contains("Missing variable name."));
}

#[test]
fn missing_value() {
    let mut executables = Executables::new();
    let mut globals = Vars::new();
    let arguments = vec![Argument::Text("k".to_string())];

    let program = Export::default();
    let (code, ops) = program.run(&mut executables, &mut globals, arguments);
    assert_eq!(1, code);
    assert!(ops_text(&ops).contains("Missing variable value."));
}

#[test]
fn allow_empty() {
    let mut executables = Executables::new();
    let mut globals = Vars::new();
    let arguments = vec![Argument::Text("k=".to_string())];

    let program = Export::default();
    let (code, _) = program.run(&mut executables, &mut globals, arguments);
    assert_eq!(0, code);
    assert_eq!(Some(&"".to_string()), globals.get("k"));
}

#[test]
fn export_insert() {
    let mut executables = Executables::new();
    let mut globals = Vars::new();
    let arguments = vec![Argument::Text("k=v1".to_string())];

    let program = Export::default();
    let (code, _) = program.run(&mut executables, &mut globals, arguments);
    assert_eq!(0, code);
    assert_eq!(Some(&"v1".to_string()), globals.get("k"));

    let arguments = vec![Argument::Text("k=v2".to_string())];
    let (code, _) = program.run(&mut executables, &mut globals, arguments);
    assert_eq!(0, code);
    assert_eq!(Some(&"v2".to_string()), globals.get("k"));
}

#[test]
fn export_splits_at_first_equals() {
    let mut executables = Executables::new();
    let mut globals = Vars::new();
    let arguments = vec![Argument::Text("k=a=b".to_string())];

    let program = Export::default();
    let (code, _) = program.run(&mut executables, &mut globals, arguments);
    assert_eq!(0, code);
    assert_eq!(Some(&"a=b".to_string()), globals.get("k"));
}

#[test]
fn true_run() {
    let mut executables = Executables::new();
    let mut globals = Vars::new();

    let program = True::default();
    let (code, ops) = program.run(&mut executables, &mut globals, vec![]);
    assert_eq!(0, code);
    assert!(ops.is_empty());
}

#[test]
fn false_run() {
    let mut executables = Executables::new();
    let mut globals = Vars::new();

    let program = False::default();
    let (code, ops) = program.run(&mut executables, &mut globals, vec![]);
    assert_eq!(1, code);
    assert!(ops.is_empty());
}

#[test]
fn run_builtin() {
    let mut executables = Executables::new();
    let mut globals = Vars::new();
    let runner = Runner::new();

    runner.run_builtin(BuiltinProgram::Echo, None, &mut executables, &mut globals);
}

#[test]
fn curl_wants_a_url() {
    let _ = Curl::default();
    assert_eq!(
        Curl::url_of(&vec![Argument::Text("http://example.test/".to_string())]),
        Some("http://example.test/".to_string())
    );
    assert_eq!(Curl::url_of(&vec![]), None);
    assert_eq!(
        Curl::url_of(&vec![Argument::Switch("x".to_string(), None)]),
        None
    );
    assert!(ops_text(&Curl::no_url_ops()).contains("No URL is provided."));
}

#[test]
fn curl_widens_line_feeds() {
    let ops = Curl::response_ops("line one\nline two\n");
    assert_eq!(
        ops_text(&ops),
        "\u{1b}[1000D\u{1b}[0Kline one\r\nline two\r\n\r\n"
    );

    let ops = Curl::failure_ops("it broke");
    assert_eq!(ops_text(&ops), "it broke\r\n");
}
