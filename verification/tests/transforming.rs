use bsh::ast::{Identifier, Param, ParamLiteral, Parameter, Parameters, RawText, Switch, Template,
    TemplateBody, TemplateLiteral, TemplatePart, Variable};
use bsh::pos::Span;
use bsh::store::Vars;
use bsh::transform::{Argument, Transformer};

#[test]
fn transform_raw_text() {
    let variables = Vars::new();
    let transformer = Transformer::new(&variables, false);
    let node = RawText {
        text: "text".to_string(),
        span: Span::default(),
    };
    let result = transformer.raw_text(node);
    assert_eq!(result, "text");
}

#[test]
fn transform_template_literal() {
    let variables = Vars::new();
    let transformer = Transformer::new(&variables, false);
    let node = TemplateLiteral {
        value: "text".to_string(),
        span: Span::default(),
    };
    let result = transformer.template_literal(node);
    assert_eq!(result, "text");
}

#[test]
fn transform_variable() {
    let mut variables = Vars::new();
    variables.insert("kumiko".to_string(), "reina".to_string());
    let transformer = Transformer::new(&variables, false);

    let id_node = Identifier {
        name: "kumiko".to_string(),
        span: Span::default(),
    };
    let var_node = Variable {
        id: id_node,
        span: Span::default(),
    };
    assert_eq!(transformer.variable(var_node), "reina");

    let id_node = Identifier {
        name: "hazuki".to_string(),
        span: Span::default(),
    };
    let var_node = Variable {
        id: id_node,
        span: Span::default(),
    };
    assert_eq!(transformer.variable(var_node), "");
}

#[test]
fn transform_template_body() {
    let mut variables = Vars::new();
    variables.insert("kumiko".to_string(), "reina".to_string());
    let transformer = Transformer::new(&variables, false);

    let id_node = Identifier {
        name: "kumiko".to_string(),
        span: Span::default(),
    };
    let var_node = Variable {
        id: id_node,
        span: Span::default(),
    };
    let literal_node = TemplateLiteral {
        value: "&kumiko".to_string(),
        span: Span::default(),
    };

    let node = TemplateBody {
        parts: vec![
            TemplatePart::Variable(var_node),
            TemplatePart::Raw(literal_node),
        ],
        span: Span::default(),
    };

    assert_eq!(transformer.template_body(node), "reina&kumiko");
}

#[test]
fn transform_template_unquoted() {
    let node = Template::Unquoted(TemplateBody {
        parts: vec![
            TemplatePart::Raw(TemplateLiteral {
                value: "kumiko".to_string(),
                span: Span::default(),
            }),
            TemplatePart::Variable(Variable {
                id: Identifier {
                    name: "nope".to_string(),
                    span: Span::default(),
                },
                span: Span::default(),
            }),
        ],
        span: Span::default(),
    });

    let variables = Vars::new();
    let transformer = Transformer::new(&variables, false);
    assert_eq!(transformer.template(node), "kumiko");
}

#[test]
fn transform_template_single() {
    let node = Template::Single(RawText {
        text: "t".to_string(),
        span: Span::default(),
    });

    let variables = Vars::new();
    let transformer = Transformer::new(&variables, false);
    assert_eq!(transformer.template(node), "t");
}

#[test]
fn transform_template_double() {
    let node = Template::Double(TemplateBody {
        parts: vec![
            TemplatePart::Raw(TemplateLiteral {
                value: "kumiko".to_string(),
                span: Span::default(),
            }),
            TemplatePart::Variable(Variable {
                id: Identifier {
                    name: "var".to_string(),
                    span: Span::default(),
                },
                span: Span::default(),
            }),
        ],
        span: Span::default(),
    });

    let mut variables = Vars::new();
    variables.insert("var".to_string(), "-".to_string());
    let transformer = Transformer::new(&variables, false);
    assert_eq!(transformer.template(node), "kumiko-");
}

#[test]
fn transform_switch_to_pair() {
    let sw = Switch {
        name: Identifier {
            name: "key".to_string(),
            span: Span::default(),
        },
        value: None,
        span: Span::default(),
    };
    let variables = Vars::new();
    let transformer = Transformer::new(&variables, false);

    if let Argument::Switch(key, value) = transformer.switch(sw, true) {
        assert_eq!(key, "key".to_string());
        assert_eq!(value, None);
    } else {
        unreachable!();
    }

    let sw = Switch {
        name: Identifier {
            name: "key".to_string(),
            span: Span::default(),
        },
        value: Some(Template::Single(RawText {
            text: "value".to_string(),
            span: Span::default(),
        })),
        span: Span::default(),
    };
    let variables = Vars::new();
    let transformer = Transformer::new(&variables, false);

    if let Argument::Switch(key, value) = transformer.switch(sw, false) {
        assert_eq!(key, "key".to_string());
        assert_eq!(value, Some("value".to_string()));
    } else {
        unreachable!();
    }
}

#[test]
fn transform_switch_to_text() {
    let sw = Switch {
        name: Identifier {
            name: "key".to_string(),
            span: Span::default(),
        },
        value: None,
        span: Span::default(),
    };
    let variables = Vars::new();
    let transformer = Transformer::new(&variables, true);
    if let Argument::Text(text) = transformer.switch(sw, true) {
        assert_eq!(text, "--key".to_string());
    } else {
        unreachable!();
    }

    let sw = Switch {
        name: Identifier {
            name: "key".to_string(),
            span: Span::default(),
        },
        value: Some(Template::Single(RawText {
            text: "value".to_string(),
            span: Span::default(),
        })),
        span: Span::default(),
    };
    let variables = Vars::new();
    let transformer = Transformer::new(&variables, true);
    if let Argument::Text(text) = transformer.switch(sw, false) {
        assert_eq!(text, "-key=value".to_string());
    } else {
        unreachable!();
    }
}

#[test]
fn transform_parameter() {
    let param = Parameter {
        param: Param::Literal(ParamLiteral {
            literal: Template::Single(RawText {
                text: "t".to_string(),
                span: Span::default(),
            }),
            span: Span::default(),
        }),
        span: Span::default(),
    };
    let variables = Vars::new();
    let transformer = Transformer::new(&variables, true);

    if let Argument::Text(text) = transformer.parameter(param) {
        assert_eq!(text, "t".to_string());
    } else {
        unreachable!();
    }

    let param = Parameter {
        param: Param::LongSwitch(Switch {
            name: Identifier {
                name: "t".to_string(),
                span: Span::default(),
            },
            value: None,
            span: Span::default(),
        }),
        span: Span::default(),
    };
    let variables = Vars::new();
    let transformer = Transformer::new(&variables, true);

    if let Argument::Text(text) = transformer.parameter(param) {
        assert_eq!(text, "--t".to_string());
    } else {
        unreachable!();
    }

    let param = Parameter {
        param: Param::ShortSwitch(Switch {
            name: Identifier {
                name: "t".to_string(),
                span: Span::default(),
            },
            value: None,
            span: Span::default(),
        }),
        span: Span::default(),
    };
    let variables = Vars::new();
    let transformer = Transformer::new(&variables, true);

    if let Argument::Text(text) = transformer.parameter(param) {
        assert_eq!(text, "-t".to_string());
    } else {
        unreachable!();
    }
}

#[test]
fn from_parameters_to_text() {
    let params = Parameters {
        params: vec![
            Parameter {
                param: Param::Literal(ParamLiteral {
                    literal: Template::Single(RawText {
                        text: "1".to_string(),
                        span: Span::default(),
                    }),
                    span: Span::default(),
                }),
                span: Span::default(),
            },
            Parameter {
                param: Param::Literal(ParamLiteral {
                    literal: Template::Single(RawText {
                        text: "2".to_string(),
                        span: Span::default(),
                    }),
                    span: Span::default(),
                }),
                span: Span::default(),
            },
        ],
        span: Span::default(),
    };
    let variables = Vars::new();
    let transformer = Transformer::new(&variables, true);

    let text = transformer.to_texts(transformer.transform(params));
    assert_eq!("12", &text.join(""));
}

#[test]
fn unknown_variable_expands_to_empty() {
    let variables = Vars::new();
    let transformer = Transformer::new(&variables, false);
    let node = Template::Double(TemplateBody {
        parts: vec![TemplatePart::Variable(Variable {
            id: Identifier {
                name: "missing".to_string(),
                span: Span::default(),
            },
            span: Span::default(),
        })],
        span: Span::default(),
    });
    assert_eq!(transformer.template(node), "");
}
