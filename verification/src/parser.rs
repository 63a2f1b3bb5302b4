//! Recursive-descent parser for the command grammar. Each function
//! parses one rule at a character index and is proved against the
//! corresponding predicate in [`crate::grammar`].
use crate::ast::{
    Command, Comment, Identifier, Param, ParamLiteral, Parameter, Parameters, Program, RawText,
    Switch, Template, TemplateBody, TemplateLiteral, TemplatePart, Variable,
};
use crate::grammar::{
    body_ok, command_at, command_end, command_ok, comment_at, comment_end, comment_ok, dollar_at,
    double_at, ident_at, ident_end, ident_ok, ident_pred, interactive_at, interactive_end,
    interactive_ok, lemma_body_end_bounds, lemma_param_end_bounds, lemma_params_finish,
    lemma_params_seq_end, lemma_params_snoc, lemma_part_end, lemma_parts_body_end,
    class_pred, lemma_parts_snoc, lemma_run, lemma_switch_end_bounds, lemma_template_end_bounds,
    lit_pred,
    long_at, param_at, param_end, param_ok, parameter_ok, parameters_ok, params_end,
    params_seq_ok, params_seq_partial, part_at, part_end, part_ok, parts_seq_ok, program_ok,
    run_end, run_len, scan_run, short_at, single_at, single_close, single_ok, switch_at,
    switch_end, switch_ok, template_at, template_end, template_ok, tlit_at, tlit_ok, variable_at,
    variable_ok, ws_end, CharClass,
};
use crate::pos::{pos_at, pos_at_spec, span_at, Position, Span};
use vstd::pervasive::unreached;
use vstd::prelude::*;
use vstd::string::StrSliceExecFns;
use vstd::string::StringExecFns;

verus! {

/// A parse failure: where it happened and what was expected.
#[derive(Clone, Debug, PartialEq, Eq)]
pub struct ParseError {
    pub position: Position,
    pub message: String,
}

/// The copy of `s[i..j]` as an owned string.
fn text_of(s: &str, i: usize, j: usize) -> (t: String)
    requires
        i <= j <= s@.len(),
    ensures
        t@ == s@.subrange(i as int, j as int),
{
    s.substring_char(i, j).to_owned()
}

/// The span covering `s[i..j]`.
fn span_of(s: &str, i: usize, j: usize) -> (sp: Span)
    requires
        i <= j <= s@.len(),
        s@.len() < u32::MAX,
    ensures
        sp == span_at(s@, i as int, j as int),
{
    Span { start: pos_at(s, i), end: pos_at(s, j) }
}

/// Parse an identifier at `i`: the maximal run of strict or loose
/// identifier characters, which must be non-empty.
pub fn parse_identifier(s: &str, i: usize, strict: bool) -> (r: Option<Identifier>)
    requires
        i <= s@.len(),
        s@.len() < u32::MAX,
    ensures
        match r {
            Some(id) => ident_ok(s@, i as int, id, strict),
            None => !ident_at(s@, i as int, strict),
        },
{
    let cls = if strict {
        CharClass::Strict
    } else {
        CharClass::Loose
    };
    let j = scan_run(s, i, cls);
    proof {
        lemma_run(s@, i as int, ident_pred(strict));
    }
    if j == i {
        None
    } else {
        Some(Identifier { name: text_of(s, i, j), span: span_of(s, i, j) })
    }
}

/// Parse a `$name` variable reference at `i`.
pub fn parse_variable(s: &str, i: usize) -> (r: Option<Variable>)
    requires
        i <= s@.len(),
        s@.len() < u32::MAX,
    ensures
        match r {
            Some(v) => variable_ok(s@, i as int, v),
            None => !variable_at(s@, i as int),
        },
{
    if i < s.unicode_len() && s.get_char(i) == '$' {
        match parse_identifier(s, i + 1, true) {
            Some(id) => {
                let j = id.span.end.index;
                proof {
                    lemma_run(s@, i + 1, ident_pred(true));
                }
                Some(Variable { span: span_of(s, i, j), id })
            },
            None => None,
        }
    } else {
        None
    }
}

/// Parse a literal run at `i`, with the character set that `quoted`
/// selects.
pub fn parse_template_literal(s: &str, i: usize, quoted: bool) -> (r: Option<TemplateLiteral>)
    requires
        i <= s@.len(),
        s@.len() < u32::MAX,
    ensures
        match r {
            Some(l) => tlit_ok(s@, i as int, l, quoted),
            None => !tlit_at(s@, i as int, quoted),
        },
{
    let cls = if quoted {
        CharClass::LitQuoted
    } else {
        CharClass::LitUnquoted
    };
    let j = scan_run(s, i, cls);
    proof {
        lemma_run(s@, i as int, lit_pred(quoted));
    }
    if j == i {
        None
    } else {
        Some(TemplateLiteral { value: text_of(s, i, j), span: span_of(s, i, j) })
    }
}

/// Parse a lone `$` at `i` as a one-character literal.
pub fn parse_single_dollar(s: &str, i: usize) -> (r: Option<TemplateLiteral>)
    requires
        i <= s@.len(),
        s@.len() < u32::MAX,
    ensures
        match r {
            Some(l) => {
                &&& dollar_at(s@, i as int)
                &&& l.value@ == seq!['$']
                &&& l.span == span_at(s@, i as int, i + 1)
            },
            None => !dollar_at(s@, i as int),
        },
{
    if i < s.unicode_len() && s.get_char(i) == '$' {
        let value = String::from_str("$");
        proof {
            reveal_strlit("$");
            assert(value@ =~= seq!['$']);
        }
        Some(TemplateLiteral { value, span: span_of(s, i, i + 1) })
    } else {
        None
    }
}

/// Parse one template part at `i`: a literal run, else a variable,
/// else a lone `$`.
pub fn parse_template_part(s: &str, i: usize, quoted: bool) -> (r: Option<TemplatePart>)
    requires
        i <= s@.len(),
        s@.len() < u32::MAX,
    ensures
        match r {
            Some(part) => part_ok(s@, i as int, part, quoted),
            None => !part_at(s@, i as int, quoted),
        },
{
    match parse_template_literal(s, i, quoted) {
        Some(l) => Some(TemplatePart::Raw(l)),
        None => {
            match parse_variable(s, i) {
                Some(v) => Some(TemplatePart::Variable(v)),
                None => {
                    match parse_single_dollar(s, i) {
                        Some(l) => Some(TemplatePart::Raw(l)),
                        None => None,
                    }
                },
            }
        },
    }
}

/// The character index just past an already parsed template part.
fn part_end_index(part: &TemplatePart) -> (e: usize)
    ensures
        e as int == part.end_index(),
{
    match part {
        TemplatePart::Raw(l) => l.span.end.index,
        TemplatePart::Variable(v) => v.span.end.index,
    }
}

/// Parse a template body at `i`: the maximal run of parts, which must
/// be non-empty outside quotes.
pub fn parse_template_body(s: &str, i: usize, quoted: bool) -> (r: Option<TemplateBody>)
    requires
        i <= s@.len(),
        s@.len() < u32::MAX,
    ensures
        match r {
            Some(body) => body_ok(s@, i as int, body, quoted),
            None => !quoted && !part_at(s@, i as int, false),
        },
        quoted ==> r is Some,
{
    let mut parts: Vec<TemplatePart> = Vec::new();
    let mut cur = i;
    loop
        invariant
            i <= cur <= s@.len(),
            s@.len() < u32::MAX,
            parts_seq_ok(s@, i as int, cur as int, parts@, quoted),
        ensures
            i <= cur <= s@.len(),
            parts_seq_ok(s@, i as int, cur as int, parts@, quoted),
            !part_at(s@, cur as int, quoted),
            parts@.len() == 0 ==> cur == i,
        decreases s@.len() - cur,
    {
        match parse_template_part(s, cur, quoted) {
            Some(part) => {
                proof {
                    lemma_part_end(s@, cur as int, quoted);
                    lemma_parts_snoc(s@, i as int, cur as int, parts@, part, quoted);
                }
                let e = part_end_index(&part);
                proof {
                    assert(part.end_index() == part_end(s@, cur as int, quoted)) by {
                        if tlit_at(s@, cur as int, quoted) {
                        } else if variable_at(s@, cur as int) {
                        }
                    }
                }
                parts.push(part);
                cur = e;
            },
            None => {
                break ;
            },
        }
    }
    proof {
        lemma_parts_body_end(s@, i as int, cur as int, parts@, quoted);
    }
    if !quoted && parts.len() == 0 {
        None
    } else {
        Some(TemplateBody { span: span_of(s, i, cur), parts })
    }
}

/// Parse a template at `i`. The first character decides the style:
/// `'` verbatim, `"` interpolated, anything else unquoted.
pub fn parse_template(s: &str, i: usize) -> (r: Option<Template>)
    requires
        i <= s@.len(),
        s@.len() < u32::MAX,
    ensures
        match r {
            Some(t) => template_ok(s@, i as int, t),
            None => !template_at(s@, i as int),
        },
{
    let n = s.unicode_len();
    if i < n && s.get_char(i) == '\'' {
        let close = scan_run(s, i + 1, CharClass::NonQuote);
        proof {
            lemma_run(s@, i + 1, class_pred(CharClass::NonQuote));
        }
        if close < n {
            Some(
                Template::Single(
                    RawText { text: text_of(s, i + 1, close), span: span_of(s, i + 1, close) },
                ),
            )
        } else {
            None
        }
    } else if i < n && s.get_char(i) == '"' {
        match parse_template_body(s, i + 1, true) {
            Some(body) => {
                let e = body.span.end.index;
                proof {
                    lemma_body_end_bounds(s@, i + 1, true);
                }
                if e < n && s.get_char(e) == '"' {
                    Some(Template::Double(body))
                } else {
                    None
                }
            },
            None => unreached(),
        }
    } else {
        match parse_template_body(s, i, false) {
            Some(body) => Some(Template::Unquoted(body)),
            None => None,
        }
    }
}

/// The character index just past an already parsed template.
fn template_end_index(tpl: &Template, Ghost(s): Ghost<Seq<char>>, Ghost(i): Ghost<int>) -> (e:
    usize)
    requires
        template_ok(s, i, *tpl),
        0 <= i <= s.len(),
        s.len() < u32::MAX,
    ensures
        e as int == template_end(s, i),
{
    proof {
        lemma_template_end_bounds(s, i);
        match tpl {
            Template::Single(raw) => {
                lemma_run(s, i + 1, class_pred(CharClass::NonQuote));
            },
            Template::Double(body) => {
                lemma_body_end_bounds(s, i + 1, true);
            },
            Template::Unquoted(body) => {
                lemma_body_end_bounds(s, i, false);
            },
        }
    }
    match tpl {
        Template::Single(raw) => raw.span.end.index + 1,
        Template::Double(body) => body.span.end.index + 1,
        Template::Unquoted(body) => body.span.end.index,
    }
}

/// Parse a switch body at `k` (just past the dashes): a loose name,
/// optionally followed by `=` and a value template.
pub fn parse_switch(s: &str, k: usize) -> (r: Option<Switch>)
    requires
        k <= s@.len(),
        s@.len() < u32::MAX,
    ensures
        match r {
            Some(sw) => switch_ok(s@, k as int, sw),
            None => !switch_at(s@, k as int),
        },
{
    match parse_identifier(s, k, false) {
        None => None,
        Some(name) => {
            let e = name.span.end.index;
            proof {
                lemma_run(s@, k as int, ident_pred(false));
            }
            let n = s.unicode_len();
            if e < n && s.get_char(e) == '=' {
                match parse_template(s, e + 1) {
                    Some(tpl) => {
                        let te = template_end_index(&tpl, Ghost(s@), Ghost(e + 1 as int));
                        proof {
                            assert(run_len(s@, k as int, ident_pred(false)) >= 1);
                            lemma_template_end_bounds(s@, e + 1);
                        }
                        Some(Switch { name, value: Some(tpl), span: span_of(s, k, te) })
                    },
                    None => None,
                }
            } else {
                Some(Switch { name, value: None, span: span_of(s, k, e) })
            }
        },
    }
}

/// Parse one parameter at `i`: a long switch, else a short switch,
/// else a bare template literal.
pub fn parse_param(s: &str, i: usize) -> (r: Option<Param>)
    requires
        i <= s@.len(),
        s@.len() < u32::MAX,
    ensures
        match r {
            Some(p) => param_ok(s@, i as int, p),
            None => !param_at(s@, i as int),
        },
{
    let n = s.unicode_len();
    if i < n && s.get_char(i) == '-' {
        if i + 1 < n && s.get_char(i + 1) == '-' {
            match parse_switch(s, i + 2) {
                Some(sw) => {
                    return Some(Param::LongSwitch(sw));
                },
                None => {},
            }
        }
        match parse_switch(s, i + 1) {
            Some(sw) => {
                return Some(Param::ShortSwitch(sw));
            },
            None => {},
        }
    }
    match parse_template(s, i) {
        Some(tpl) => {
            let te = template_end_index(&tpl, Ghost(s@), Ghost(i as int));
            proof {
                lemma_template_end_bounds(s@, i as int);
            }
            Some(Param::Literal(ParamLiteral { literal: tpl, span: span_of(s, i, te) }))
        },
        None => None,
    }
}

/// The character index just past an already parsed parameter.
fn param_end_index(p: &Param, Ghost(s): Ghost<Seq<char>>, Ghost(i): Ghost<int>) -> (e: usize)
    requires
        param_ok(s, i, *p),
        0 <= i <= s.len(),
        s.len() < u32::MAX,
    ensures
        e as int == param_end(s, i),
{
    proof {
        match p {
            Param::LongSwitch(sw) => lemma_switch_end_bounds(s, i + 2),
            Param::ShortSwitch(sw) => lemma_switch_end_bounds(s, i + 1),
            Param::Literal(pl) => lemma_template_end_bounds(s, i),
        }
    }
    match p {
        Param::LongSwitch(sw) => sw.span.end.index,
        Param::ShortSwitch(sw) => sw.span.end.index,
        Param::Literal(pl) => pl.span.end.index,
    }
}

/// Parse one parameter, with its span, at `i`.
pub fn parse_parameter(s: &str, i: usize) -> (r: Option<Parameter>)
    requires
        i <= s@.len(),
        s@.len() < u32::MAX,
    ensures
        match r {
            Some(pp) => parameter_ok(s@, i as int, pp) && param_at(s@, i as int),
            None => !param_at(s@, i as int),
        },
{
    match parse_param(s, i) {
        None => None,
        Some(param) => {
            let e = param_end_index(&param, Ghost(s@), Ghost(i as int));
            proof {
                lemma_param_end_bounds(s@, i as int);
            }
            Some(Parameter { param, span: span_of(s, i, e) })
        },
    }
}

/// Parse the whitespace-separated parameter list that starts at `i`,
/// greedily, consuming any trailing separator run.
pub fn parse_parameters(s: &str, i: usize) -> (r: Option<Parameters>)
    requires
        i <= s@.len(),
        s@.len() < u32::MAX,
    ensures
        match r {
            Some(node) => parameters_ok(s@, i as int, node),
            None => !param_at(s@, i as int),
        },
{
    match parse_parameter(s, i) {
        None => None,
        Some(first) => {
            proof {
                lemma_param_end_bounds(s@, i as int);
            }
            let mut cur = first.span.end.index;
            let mut params: Vec<Parameter> = Vec::new();
            params.push(first);
            proof {
                assert(params@.len() == 1);
            }
            loop
                invariant
                    i <= cur <= s@.len(),
                    s@.len() < u32::MAX,
                    params_seq_partial(s@, i as int, cur as int, params@),
                ensures
                    i <= cur <= s@.len(),
                    params_seq_partial(s@, i as int, cur as int, params@),
                    ws_end(s@, cur as int) == cur || !param_at(s@, ws_end(s@, cur as int)),
                decreases s@.len() - cur,
            {
                let w = scan_run(s, cur, CharClass::Space);
                if w == cur {
                    break ;
                }
                match parse_parameter(s, w) {
                    Some(p) => {
                        proof {
                            lemma_params_snoc(s@, i as int, cur as int, params@, p);
                            lemma_param_end_bounds(s@, w as int);
                        }
                        cur = p.span.end.index;
                        params.push(p);
                    },
                    None => {
                        break ;
                    },
                }
            }
            let j = scan_run(s, cur, CharClass::Space);
            proof {
                lemma_params_finish(s@, i as int, cur as int, params@);
                lemma_params_seq_end(s@, i as int, j as int, params@);
            }
            Some(Parameters { params, span: span_of(s, i, j) })
        },
    }
}

/// Parse the program name at `i`.
pub fn parse_program(s: &str, i: usize) -> (r: Option<Program>)
    requires
        i <= s@.len(),
        s@.len() < u32::MAX,
    ensures
        match r {
            Some(p) => program_ok(s@, i as int, p),
            None => !command_at(s@, i as int),
        },
{
    match parse_identifier(s, i, false) {
        Some(id) => {
            let span = id.span;
            Some(Program { id, span })
        },
        None => None,
    }
}

/// Parse one command at `i`: the program name, whitespace, and the
/// parameter list if one follows.
pub fn parse_command(s: &str, i: usize) -> (r: Option<Command>)
    requires
        i <= s@.len(),
        s@.len() < u32::MAX,
    ensures
        match r {
            Some(cmd) => command_ok(s@, i as int, cmd),
            None => !command_at(s@, i as int),
        },
{
    match parse_program(s, i) {
        None => None,
        Some(program) => {
            let pe = program.span.end.index;
            proof {
                lemma_run(s@, i as int, ident_pred(false));
            }
            let w = scan_run(s, pe, CharClass::Space);
            match parse_parameters(s, w) {
                Some(ps) => {
                    let j = ps.span.end.index;
                    proof {
                        lemma_params_seq_end(s@, w as int, params_end(s@, w as int), ps.params@);
                    }
                    Some(Command { program, parameters: Some(ps), span: span_of(s, i, j) })
                },
                None => Some(Command { program, parameters: None, span: span_of(s, i, w) }),
            }
        },
    }
}

/// Parse a `#` comment at `i`: everything up to a line feed or the end
/// of the text.
pub fn parse_comment(s: &str, i: usize) -> (r: Option<Comment>)
    requires
        i <= s@.len(),
        s@.len() < u32::MAX,
    ensures
        match r {
            Some(c) => comment_ok(s@, i as int, c),
            None => !comment_at(s@, i as int),
        },
{
    let n = s.unicode_len();
    if i < n && s.get_char(i) == '#' {
        let j = scan_run(s, i + 1, CharClass::NonNewline);
        Some(Comment { content: text_of(s, i + 1, j), span: span_of(s, i + 1, j) })
    } else {
        None
    }
}

/// The index just past what the command at `i` consumed, with bounds.
proof fn lemma_command_end_bounds(s: Seq<char>, i: int, cmd: Command)
    requires
        0 <= i <= s.len(),
        command_ok(s, i, cmd),
    ensures
        i <= command_end(s, i) <= s.len(),
{
    lemma_run(s, i, ident_pred(false));
    let w = ws_end(s, ident_end(s, i, false));
    lemma_run(s, ident_end(s, i, false), class_pred(CharClass::Space));
    if param_at(s, w) {
        match cmd.parameters {
            Some(ps) => {
                lemma_params_seq_end(s, w, params_end(s, w), ps.params@);
            },
            None => {
                assert(false);
            },
        }
    }
}

/// Parse the whole input tolerantly: skip leading whitespace, parse
/// one command and an optional trailing comment, and hand back
/// whatever text was not consumed.
pub fn parse_interactive<'a>(input: &'a str) -> (r: Result<(Command, &'a str), ParseError>)
    requires
        input@.len() < u32::MAX,
    ensures
        match r {
            Ok((cmd, rest)) => {
                &&& interactive_ok(input@, cmd)
                &&& rest@ == input@.subrange(interactive_end(input@), input@.len() as int)
            },
            Err(e) => {
                &&& !interactive_at(input@)
                &&& e.position == pos_at_spec(input@, ws_end(input@, 0))
                &&& e.message@ == "expected a command name"@
            },
        },
{
    let w0 = scan_run(input, 0, CharClass::Space);
    match parse_command(input, w0) {
        Some(cmd) => {
            let je = cmd.span.end.index;
            proof {
                lemma_command_end_bounds(input@, w0 as int, cmd);
            }
            let consumed = match parse_comment(input, je) {
                Some(c) => {
                    proof {
                        lemma_run(input@, je + 1, class_pred(CharClass::NonNewline));
                    }
                    c.span.end.index
                },
                None => je,
            };
            let rest = input.substring_char(consumed, input.unicode_len());
            Ok((cmd, rest))
        },
        None => Err(
            ParseError {
                position: pos_at(input, w0),
                message: String::from_str("expected a command name"),
            },
        ),
    }
}

/// Parse the whole input strictly: as `parse_interactive`, but every
/// character must be consumed; anything left over is a syntax error at
/// the position where the leftover starts.
pub fn parse_strict(input: &str) -> (r: Result<Command, ParseError>)
    requires
        input@.len() < u32::MAX,
    ensures
        r is Ok <==> interactive_at(input@) && interactive_end(input@) == input@.len(),
        match r {
            Ok(cmd) => interactive_ok(input@, cmd),
            Err(e) => {
                if interactive_at(input@) {
                    &&& interactive_end(input@) < input@.len()
                    &&& e.position == pos_at_spec(input@, interactive_end(input@))
                    &&& e.message@ == "unexpected character"@
                } else {
                    &&& e.position == pos_at_spec(input@, ws_end(input@, 0))
                    &&& e.message@ == "expected a command name"@
                }
            },
        },
{
    let w0 = scan_run(input, 0, CharClass::Space);
    match parse_command(input, w0) {
        Some(cmd) => {
            let je = cmd.span.end.index;
            proof {
                lemma_command_end_bounds(input@, w0 as int, cmd);
            }
            let consumed = match parse_comment(input, je) {
                Some(c) => {
                    proof {
                        lemma_run(input@, je + 1, class_pred(CharClass::NonNewline));
                    }
                    c.span.end.index
                },
                None => je,
            };
            if consumed == input.unicode_len() {
                Ok(cmd)
            } else {
                Err(
                    ParseError {
                        position: pos_at(input, consumed),
                        message: String::from_str("unexpected character"),
                    },
                )
            }
        },
        None => Err(
            ParseError {
                position: pos_at(input, w0),
                message: String::from_str("expected a command name"),
            },
        ),
    }
}

} // verus!
