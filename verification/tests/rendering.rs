use ansi_term::Color;
use bsh::ast::{Command, Identifier, Param, ParamLiteral, Parameter, Parameters, Program, RawText,
    Switch, Template, TemplateBody, TemplateLiteral, TemplatePart, Variable};
use bsh::executable;
use bsh::pos::{Position, Span};
use bsh::render::{command, parameter, parameters, program, switch, template, variable,
    white_space};
use bsh::store::Executables;

#[test]
fn spaces() {
    assert_eq!("  ".to_string(), white_space(2));
}

#[test]
fn render_template_unquoted() {
    let unquoted = Template::Unquoted(TemplateBody {
        parts: vec![TemplatePart::Raw(TemplateLiteral {
            value: "-".to_string(),
            span: Span::default(),
        })],
        span: Span::default(),
    });
    let output = template(&unquoted);
    assert_eq!(output, Color::Fixed(39).paint("-").to_string());

    let unquoted = Template::Unquoted(TemplateBody {
        parts: vec![TemplatePart::Raw(TemplateLiteral {
            value: "text".to_string(),
            span: Span::default(),
        })],
        span: Span::default(),
    });
    let output = template(&unquoted);
    assert_eq!(output, "text".to_string());

    let unquoted = Template::Unquoted(TemplateBody {
        parts: vec![
            TemplatePart::Raw(TemplateLiteral {
                value: "text".to_string(),
                span: Span::default(),
            }),
            TemplatePart::Variable(Variable {
                id: Identifier {
                    name: "var".to_string(),
                    span: Span::default(),
                },
                span: Span::default(),
            }),
        ],
        span: Span::default(),
    });
    let output = template(&unquoted);
    assert_eq!(output, format!("text{}", Color::Fixed(93).paint("$var")));
}

#[test]
fn render_template_single() {
    let single = Template::Single(RawText {
        text: "raw".to_string(),
        span: Span::default(),
    });

    let output = template(&single);
    assert_eq!(output, Color::Yellow.paint("'raw'").to_string())
}

#[test]
fn render_template_double() {
    let double = Template::Double(TemplateBody {
        parts: vec![
            TemplatePart::Raw(TemplateLiteral {
                value: "-".to_string(),
                span: Span::default(),
            }),
            TemplatePart::Variable(Variable {
                id: Identifier {
                    name: "var".to_string(),
                    span: Span::default(),
                },
                span: Span::default(),
            }),
        ],
        span: Span::default(),
    });
    let output = template(&double);

    let content = format!(
        "{}{}",
        Color::Yellow.paint("-"),
        Color::Fixed(93).paint("$var")
    );
    let quote = Color::Yellow.paint("\"");
    assert_eq!(output, format!("{}{}{}", quote, content, quote));
}

#[test]
fn render_variable() {
    let var = Variable {
        id: Identifier {
            name: "v".to_string(),
            span: Span::default(),
        },
        span: Span::default(),
    };

    let output = variable(&var);
    assert_eq!(output, Color::Fixed(93).paint("$v").to_string());
}

#[test]
fn render_switch() {
    let sw = Switch {
        name: Identifier {
            name: "key".to_string(),
            span: Span::default(),
        },
        value: None,
        span: Span::default(),
    };

    let output = switch(&sw);
    assert_eq!(output, Color::Fixed(39).paint("key").to_string());

    let sw = Switch {
        name: Identifier {
            name: "key".to_string(),
            span: Span::default(),
        },
        value: Some(Template::Single(RawText {
            text: "value".to_string(),
            span: Span::default(),
        })),
        span: Span::default(),
    };
    let output = switch(&sw);
    assert_eq!(
        output,
        format!(
            "{}{}{}",
            Color::Fixed(39).paint("key"),
            Color::Fixed(39).paint("="),
            Color::Yellow.paint("'value'")
        )
    );
}

#[test]
fn render_parameter_literal() {
    let param = Parameter {
        param: Param::Literal(ParamLiteral {
            literal: Template::Unquoted(TemplateBody {
                parts: vec![TemplatePart::Raw(TemplateLiteral {
                    value: "text".to_string(),
                    span: Span::default(),
                })],
                span: Span::default(),
            }),
            span: Span::default(),
        }),
        span: Span::default(),
    };

    let output = parameter(&param);
    assert_eq!(output, "text".to_string());
}

#[test]
fn render_parameter_short_switch() {
    let param = Parameter {
        param: Param::ShortSwitch(Switch {
            name: Identifier {
                name: "key".to_string(),
                span: Span::default(),
            },
            value: None,
            span: Span::default(),
        }),
        span: Span::default(),
    };

    let output = parameter(&param);
    assert_eq!(
        output,
        format!(
            "{}{}",
            Color::Fixed(39).paint("-"),
            Color::Fixed(39).paint("key")
        )
    );
}

#[test]
fn render_parameter_long_switch() {
    let param = Parameter {
        param: Param::LongSwitch(Switch {
            name: Identifier {
                name: "key".to_string(),
                span: Span::default(),
            },
            value: None,
            span: Span::default(),
        }),
        span: Span::default(),
    };

    let output = parameter(&param);
    assert_eq!(
        output,
        format!(
            "{}{}",
            Color::Fixed(39).paint("--"),
            Color::Fixed(39).paint("key")
        )
    );
}

fn literal_param(value: &str, start: usize, end: usize) -> Parameter {
    let sp = Span {
        start: Position {
            line: 1,
            column: (start + 1) as u32,
            index: start,
        },
        end: Position {
            line: 1,
            column: (end + 1) as u32,
            index: end,
        },
    };
    Parameter {
        param: Param::Literal(ParamLiteral {
            literal: Template::Unquoted(TemplateBody {
                parts: vec![TemplatePart::Raw(TemplateLiteral {
                    value: value.to_string(),
                    span: sp,
                })],
                span: sp,
            }),
            span: sp,
        }),
        span: sp,
    }
}

#[test]
fn render_parameters() {
    let params = Parameters {
        params: vec![literal_param("ab", 2, 4), literal_param("cd", 6, 8)],
        span: Span::default(),
    };

    let output = parameters(&params, 0);
    assert_eq!(&output, "  ab  cd");
}

#[test]
fn render_program() {
    let mut executables = Executables::new();
    executables.insert(
        "clear".to_string(),
        executable::Program::Builtin(executable::BuiltinProgram::Clear),
    );

    let output = program(
        &Program {
            id: Identifier {
                name: "nope".to_string(),
                span: Span::default(),
            },
            span: Span::default(),
        },
        &executables,
    );
    assert_eq!(Color::Red.paint("nope").to_string(), output);

    let output = program(
        &Program {
            id: Identifier {
                name: "clear".to_string(),
                span: Span::default(),
            },
            span: Span::default(),
        },
        &executables,
    );
    assert_eq!(Color::Green.paint("clear").to_string(), output);
}

fn program_at(name: &str, start: usize, end: usize) -> Program {
    let sp = Span {
        start: Position {
            line: 1,
            column: (start + 1) as u32,
            index: start,
        },
        end: Position {
            line: 1,
            column: (end + 1) as u32,
            index: end,
        },
    };
    Program {
        id: Identifier {
            name: name.to_string(),
            span: sp,
        },
        span: sp,
    }
}

#[test]
fn render_command() {
    let c = Command {
        program: program_at("test", 1, 5),
        parameters: None,
        span: Span {
            start: Position {
                line: 1,
                column: 2,
                index: 1,
            },
            end: Position {
                line: 1,
                column: 6,
                index: 5,
            },
        },
    };
    let output = command(&c, &Executables::new());
    assert_eq!(output, format!(" {}", Color::Red.paint("test")));

    let c = Command {
        program: program_at("test", 1, 5),
        parameters: Some(Parameters {
            params: vec![literal_param("ab", 8, 10), literal_param("cd", 11, 13)],
            span: Span {
                start: Position {
                    line: 1,
                    column: 9,
                    index: 8,
                },
                end: Position {
                    line: 1,
                    column: 14,
                    index: 13,
                },
            },
        }),
        span: Span {
            start: Position {
                line: 1,
                column: 2,
                index: 1,
            },
            end: Position {
                line: 1,
                column: 14,
                index: 13,
            },
        },
    };
    let mut executables = Executables::new();
    executables.insert(
        "test".to_string(),
        executable::Program::Builtin(executable::BuiltinProgram::True),
    );
    let output = command(&c, &executables);
    assert_eq!(output, format!(" {}   ab cd", Color::Green.paint("test")));
}
