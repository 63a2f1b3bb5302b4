use bsh::ast::{Comment, Identifier, Param, Template, TemplateBody, TemplateLiteral, TemplatePart,
    Variable};
use bsh::parser::{parse_command, parse_comment, parse_identifier, parse_interactive,
    parse_strict, parse_template, parse_template_body, parse_template_literal, parse_variable};
use bsh::pos::{Position, Span};

fn pos(line: u32, column: u32, index: usize) -> Position {
    Position { line, column, index }
}

fn span(a: Position, b: Position) -> Span {
    Span { start: a, end: b }
}

#[test]
fn test_parse_identifier() {
    let input = "kumiko_-";
    let result = parse_identifier(input, 0, true);
    let expected = Identifier {
        name: "kumiko_".to_string(),
        span: span(pos(1, 1, 0), pos(1, 8, 7)),
    };
    assert_eq!(result, Some(expected));
    assert_eq!(&input[7..], "-");
}

#[test]
fn tests_parse_identifier() {
    let input = "kumiko_-";
    let result = parse_identifier(input, 0, true).unwrap();
    assert_eq!(result.name, "kumiko_");
    assert_eq!(result.span, span(pos(1, 1, 0), pos(1, 8, 7)));
    assert_eq!(&input[result.span.end.index..], "-");
}

#[test]
fn test_parse_loose_identifier() {
    let input = "kumiko_-?.!";
    let result = parse_identifier(input, 0, false);
    let expected = Identifier {
        name: "kumiko_-?.!".to_string(),
        span: span(pos(1, 1, 0), pos(1, 12, 11)),
    };
    assert_eq!(result, Some(expected));
    assert_eq!(&input[11..], "");
}

#[test]
fn tests_parse_loose_identifier() {
    let input = "kumiko_-?.!";
    let result = parse_identifier(input, 0, false).unwrap();
    assert_eq!(result.name, "kumiko_-?.!");
    assert_eq!(result.span, span(pos(1, 1, 0), pos(1, 12, 11)));
}

#[test]
fn test_parse_variable() {
    let result = parse_variable("$kumiko", 0);
    let expected = Variable {
        id: Identifier {
            name: "kumiko".to_string(),
            span: span(pos(1, 2, 1), pos(1, 8, 7)),
        },
        span: span(pos(1, 1, 0), pos(1, 8, 7)),
    };
    assert_eq!(result, Some(expected));

    assert!(parse_variable("$-", 0).is_none());
}

#[test]
fn tests_parse_variable() {
    let result = parse_variable("$kumiko", 0).unwrap();
    assert_eq!(result.id.name, "kumiko");
    assert_eq!(result.span, span(pos(1, 1, 0), pos(1, 8, 7)));
    assert!(parse_variable("$-", 0).is_none());
}

#[test]
fn parse_template_literal_with_quoted() {
    let input = "abc'def #$";
    let result = parse_template_literal(input, 0, true);
    let expected = TemplateLiteral {
        value: "abc'def #".to_string(),
        span: span(pos(1, 1, 0), pos(1, 10, 9)),
    };
    assert_eq!(result, Some(expected));
    assert_eq!(&input[9..], "$");
}

#[test]
fn parse_template_literal_with_unquoted() {
    let input = "abc ";
    let result = parse_template_literal(input, 0, false);
    let expected = TemplateLiteral {
        value: "abc".to_string(),
        span: span(pos(1, 1, 0), pos(1, 4, 3)),
    };
    assert_eq!(result, Some(expected));
    assert_eq!(&input[3..], " ");
}

#[test]
fn parse_single_dollar() {
    let input = "$$";
    let result = bsh::parser::parse_single_dollar(input, 0);
    let expected = TemplateLiteral {
        value: "$".to_string(),
        span: span(pos(1, 1, 0), pos(1, 2, 1)),
    };
    assert_eq!(result, Some(expected));
    assert_eq!(&input[1..], "$");
}

#[test]
fn parse_template_body_with_quoted() {
    let result = parse_template_body("", 0, true);
    let expected = TemplateBody {
        parts: vec![],
        span: span(pos(1, 1, 0), pos(1, 1, 0)),
    };
    assert_eq!(result, Some(expected));

    let result = parse_template_body("ab$$what", 0, true);
    let expected = TemplateBody {
        parts: vec![
            TemplatePart::Raw(TemplateLiteral {
                value: "ab".to_string(),
                span: span(pos(1, 1, 0), pos(1, 3, 2)),
            }),
            TemplatePart::Raw(TemplateLiteral {
                value: "$".to_string(),
                span: span(pos(1, 3, 2), pos(1, 4, 3)),
            }),
            TemplatePart::Variable(Variable {
                id: Identifier {
                    name: "what".to_string(),
                    span: span(pos(1, 5, 4), pos(1, 9, 8)),
                },
                span: span(pos(1, 4, 3), pos(1, 9, 8)),
            }),
        ],
        span: span(pos(1, 1, 0), pos(1, 9, 8)),
    };
    assert_eq!(result, Some(expected));
}

#[test]
fn parse_template_body_with_unquoted() {
    let result = parse_template_body("", 0, false);
    assert!(result.is_none());
}

#[test]
fn test_parse_comment() {
    let input = "# abc\ndef";
    let result = parse_comment(input, 0);
    let expected = Comment {
        content: " abc".to_string(),
        span: span(pos(1, 2, 1), pos(1, 6, 5)),
    };
    assert_eq!(result, Some(expected));
    assert_eq!(&input[5..], "\ndef");
}

#[test]
fn tests_parse_comment() {
    let input = "# abc\ndef";
    let result = parse_comment(input, 0).unwrap();
    assert_eq!(result.content, " abc");
    assert_eq!(result.span, span(pos(1, 2, 1), pos(1, 6, 5)));
}

#[test]
fn strict_identifier_round_trip() {
    let input = "abc_09?!";
    let result = parse_identifier(input, 0, true).unwrap();
    assert_eq!(result.name, input);
    assert_eq!(result.span.end.index, input.len());
}

#[test]
fn single_quote_round_trip() {
    let text = "raw $text with spaces";
    let quoted = format!("'{}'", text);
    let result = parse_template(&quoted, 0).unwrap();
    match result {
        Template::Single(raw) => assert_eq!(raw.text, text),
        _ => panic!("expected a verbatim template"),
    }
}

#[test]
fn unterminated_quote_fails() {
    assert!(parse_template("'abc", 0).is_none());
    assert!(parse_template("\"abc\nx", 0).is_none());
    assert!(parse_template("\"\"", 0).is_some());
}

#[test]
fn switch_order_short_then_long() {
    let cmd = parse_strict("cmd -x --flag=val").unwrap();
    let params = cmd.parameters.unwrap().params;
    assert_eq!(params.len(), 2);
    match &params[0].param {
        Param::ShortSwitch(sw) => {
            assert_eq!(sw.name.name, "x");
            assert!(sw.value.is_none());
        }
        _ => panic!("expected a short switch"),
    }
    match &params[1].param {
        Param::LongSwitch(sw) => {
            assert_eq!(sw.name.name, "flag");
            match sw.value.as_ref().unwrap() {
                Template::Unquoted(body) => match &body.parts[0] {
                    TemplatePart::Raw(l) => assert_eq!(l.value, "val"),
                    _ => panic!("expected literal text"),
                },
                _ => panic!("expected an unquoted value"),
            }
        }
        _ => panic!("expected a long switch"),
    }
}

#[test]
fn switch_with_empty_value_falls_back_to_literal() {
    let cmd = parse_strict("cmd -x=").unwrap();
    let params = cmd.parameters.unwrap().params;
    assert_eq!(params.len(), 1);
    match &params[0].param {
        Param::Literal(pl) => match &pl.literal {
            Template::Unquoted(body) => match &body.parts[0] {
                TemplatePart::Raw(l) => assert_eq!(l.value, "-x="),
                _ => panic!("expected literal text"),
            },
            _ => panic!("expected an unquoted literal"),
        },
        _ => panic!("expected a bare literal"),
    }
}

#[test]
fn interactive_returns_remainder() {
    let (cmd, rest) = parse_interactive("  echo hi 'oops").unwrap();
    assert_eq!(cmd.program.id.name, "echo");
    assert_eq!(rest, "'oops");

    let (cmd, rest) = parse_interactive("echo hi # a comment").unwrap();
    assert_eq!(cmd.program.id.name, "echo");
    assert_eq!(rest, "");
}

#[test]
fn interactive_rejects_empty_input() {
    let err = parse_interactive("   ").unwrap_err();
    assert_eq!(err.message, "expected a command name");

    let err = parse_interactive("").unwrap_err();
    assert_eq!(err.position.index, 0);
}

#[test]
fn strict_rejects_leftover() {
    let err = parse_strict("echo 'unterminated").unwrap_err();
    assert_eq!(err.message, "unexpected character");
    assert_eq!(err.position.index, 5);
    assert_eq!(err.position.column, 6);

    assert!(parse_strict("echo hi # trailing comment").is_ok());
    assert!(parse_strict("echo hi").is_ok());
}

#[test]
fn command_spans_and_positions() {
    let cmd = parse_command("echo ab", 0).unwrap();
    assert_eq!(cmd.program.span.end.index, 4);
    assert_eq!(cmd.span.end.index, 7);
    let params = cmd.parameters.unwrap();
    assert_eq!(params.params[0].span.start.index, 5);
    assert_eq!(params.params[0].span.end.index, 7);
}

#[test]
fn positions_track_lines_and_columns() {
    let comment = parse_comment("ab\n# c", 3).unwrap();
    assert_eq!(comment.span.start, pos(2, 2, 4));
    assert_eq!(comment.content, " c");
}

#[test]
fn parameters_need_no_space_before_quotes() {
    let cmd = parse_strict("echo'hi'").unwrap();
    assert_eq!(cmd.program.id.name, "echo");
    let params = cmd.parameters.unwrap().params;
    match &params[0].param {
        Param::Literal(pl) => match &pl.literal {
            Template::Single(raw) => assert_eq!(raw.text, "hi"),
            _ => panic!("expected a verbatim literal"),
        },
        _ => panic!("expected a literal"),
    }
}

#[test]
fn comment_can_follow_the_command_directly() {
    let (cmd, rest) = parse_interactive("echo#c").unwrap();
    assert_eq!(cmd.program.id.name, "echo");
    assert!(cmd.parameters.is_none());
    assert_eq!(rest, "");
}

#[test]
fn line_feeds_separate_parameters() {
    let cmd = parse_strict("echo a\nb").unwrap();
    let params = cmd.parameters.unwrap().params;
    assert_eq!(params.len(), 2);
}

#[test]
fn double_dash_parses_as_long_switch() {
    let cmd = parse_strict("cmd --flag").unwrap();
    let params = cmd.parameters.unwrap().params;
    match &params[0].param {
        Param::LongSwitch(sw) => assert_eq!(sw.name.name, "flag"),
        _ => panic!("expected a long switch"),
    }
}

#[test]
fn unicode_whitespace_ends_unquoted_literals() {
    let result = parse_template_literal("a\u{a0}b", 0, false).unwrap();
    assert_eq!(result.value, "a");
    assert_eq!(result.span.end.index, 1);

    // Inside quotes only a line feed (or the delimiters) stops the run.
    let result = parse_template_literal("a\u{a0}b", 0, true).unwrap();
    assert_eq!(result.value, "a\u{a0}b");
}

#[test]
fn unicode_whitespace_separates_parameters() {
    let cmd = parse_strict("echo a\u{2003}b").unwrap();
    assert_eq!(cmd.parameters.unwrap().params.len(), 2);

    let cmd = parse_strict("\u{a0}echo x").unwrap();
    assert_eq!(cmd.program.id.name, "echo");
}

#[test]
fn whitespace_predicate_matches_the_unicode_property() {
    for point in 0..=0x10ffffu32 {
        if let Some(c) = char::from_u32(point) {
            assert_eq!(
                bsh::grammar::is_space(c),
                c.is_whitespace(),
                "disagreement on U+{:04X}",
                point
            );
        }
    }
}
