//! Syntax highlighting: recolor a (possibly partial) command AST for
//! display, preserving the original whitespace layout. Purely a
//! function of the AST and the program registry.
use crate::ast::{Command, Param, Parameter, Parameters, Program, Switch, Template, TemplateBody,
    TemplateLiteral, TemplatePart, Variable};
use crate::executable;
use crate::paint::{fixed_params, green_params, paint_fixed, paint_green, paint_red,
    paint_yellow, painted, red_params, yellow_params};
use crate::store::{str_eq, Executables};
use vstd::prelude::*;
use vstd::string::StringExecFns;

verus! {

/// `n` spaces.
pub open spec fn sp(n: int) -> Seq<char> {
    Seq::new(
        if n >= 0 {
            n as nat
        } else {
            0
        },
        |i: int| ' ',
    )
}

/// A variable reference is shown as `$name` in the variable color.
pub open spec fn variable_spec(v: Variable) -> Seq<char> {
    painted(fixed_params(93), seq!['$'] + v.id.name@)
}

/// One part of an unquoted template. A lone `-` as the first part is
/// pre-colored as a switch prefix the user is likely about to type.
pub open spec fn unquoted_part_spec(part: TemplatePart, first: bool) -> Seq<char> {
    match part {
        TemplatePart::Raw(l) => if first && l.value@ == seq!['-'] {
            painted(fixed_params(39), seq!['-'])
        } else {
            l.value@
        },
        TemplatePart::Variable(v) => variable_spec(v),
    }
}

/// The parts of an unquoted template, in order.
pub open spec fn unquoted_parts_spec(parts: Seq<TemplatePart>, first: bool) -> Seq<char>
    decreases parts.len(),
{
    if parts.len() == 0 {
        Seq::empty()
    } else {
        unquoted_part_spec(parts[0], first) + unquoted_parts_spec(parts.drop_first(), false)
    }
}

/// One part of a double-quoted template: literal text is colored as a
/// string, variables keep the variable color.
pub open spec fn double_part_spec(part: TemplatePart) -> Seq<char> {
    match part {
        TemplatePart::Raw(l) => painted(yellow_params(), l.value@),
        TemplatePart::Variable(v) => variable_spec(v),
    }
}

/// The parts of a double-quoted template, in order.
pub open spec fn double_parts_spec(parts: Seq<TemplatePart>) -> Seq<char>
    decreases parts.len(),
{
    if parts.len() == 0 {
        Seq::empty()
    } else {
        double_part_spec(parts[0]) + double_parts_spec(parts.drop_first())
    }
}

/// A rendered template.
pub open spec fn template_spec(tpl: Template) -> Seq<char> {
    match tpl {
        Template::Unquoted(body) => unquoted_parts_spec(body.parts@, true),
        Template::Single(raw) => painted(
            yellow_params(),
            seq!['\''] + raw.text@ + seq!['\''],
        ),
        Template::Double(body) => painted(yellow_params(), seq!['"']) + double_parts_spec(
            body.parts@,
        ) + painted(yellow_params(), seq!['"']),
    }
}

/// A rendered switch body: the name, and `=` plus the value when one
/// is there, in the switch color.
pub open spec fn switch_spec(sw: Switch) -> Seq<char> {
    painted(fixed_params(39), sw.name.name@) + match sw.value {
        Some(tpl) => painted(fixed_params(39), seq!['=']) + template_spec(tpl),
        None => Seq::empty(),
    }
}

/// A rendered parameter: its dashes in the switch color, or the bare
/// template.
pub open spec fn parameter_spec(pp: Parameter) -> Seq<char> {
    match pp.param {
        Param::Literal(l) => template_spec(l.literal),
        Param::LongSwitch(sw) => painted(fixed_params(39), seq!['-', '-']) + switch_spec(sw),
        Param::ShortSwitch(sw) => painted(fixed_params(39), seq!['-']) + switch_spec(sw),
    }
}

/// The rendered parameter list: each gap between spans is re-emitted
/// as literal spaces.
pub open spec fn parameters_spec(params: Seq<Parameter>, pos: int) -> Seq<char>
    decreases params.len(),
{
    if params.len() == 0 {
        Seq::empty()
    } else {
        sp(params[0].span.start.index - pos) + parameter_spec(params[0]) + parameters_spec(
            params.drop_first(),
            params[0].span.end.index as int,
        )
    }
}

/// Gaps never run backwards: every parameter starts at or after the
/// previous position.
pub open spec fn spans_ordered(params: Seq<Parameter>, pos: int) -> bool
    decreases params.len(),
{
    if params.len() == 0 {
        true
    } else {
        &&& pos <= params[0].span.start.index
        &&& params[0].span.start.index <= params[0].span.end.index
        &&& spans_ordered(params.drop_first(), params[0].span.end.index as int)
    }
}

/// The rendered program name: green when the registry knows it, red
/// when it does not.
pub open spec fn program_spec(p: Program, execs: Map<Seq<char>, executable::Program>) -> Seq<
    char,
> {
    if execs.contains_key(p.id.name@) {
        painted(green_params(), p.id.name@)
    } else {
        painted(red_params(), p.id.name@)
    }
}

/// The rendered command: leading spaces, the program name, and the
/// parameters if any.
pub open spec fn command_spec(cmd: Command, execs: Map<Seq<char>, executable::Program>) -> Seq<
    char,
> {
    sp(cmd.span.start.index as int) + program_spec(cmd.program, execs) + match cmd.parameters {
        Some(ps) => parameters_spec(ps.params@, cmd.program.span.end.index as int),
        None => Seq::empty(),
    }
}

/// Parsed parameter lists have ordered spans: rendering them never
/// walks backwards.
pub proof fn lemma_parsed_spans_ordered(
    s: Seq<char>,
    i: int,
    j: int,
    ps: Seq<Parameter>,
    pos: int,
)
    requires
        0 <= pos <= i <= s.len(),
        s.len() <= usize::MAX,
        crate::grammar::params_seq_ok(s, i, j, ps),
    ensures
        spans_ordered(ps, pos),
    decreases ps.len(),
{
    crate::grammar::lemma_param_end_bounds(s, i);
    let m = crate::grammar::param_end(s, i);
    crate::grammar::lemma_run(
        s,
        m,
        crate::grammar::class_pred(crate::grammar::CharClass::Space),
    );
    assert(crate::grammar::parameter_ok(s, i, ps[0]));
    assert(ps[0].span.start.index as int == i);
    assert(ps[0].span.end.index as int == m);
    if ps.len() > 1 {
        lemma_parsed_spans_ordered(s, crate::grammar::ws_end(s, m), j, ps.drop_first(), m);
    } else {
        assert(ps.drop_first() =~= Seq::<Parameter>::empty());
        assert(spans_ordered(ps.drop_first(), m));
    }
}

/// A run of `size` spaces.
pub fn white_space(size: usize) -> (r: String)
    ensures
        r@ == sp(size as int),
{
    let mut out = String::new();
    let mut k: usize = 0;
    while k < size
        invariant
            k <= size,
            out@ =~= sp(k as int),
        decreases size - k,
    {
        let joined = out.concat(" ");
        proof {
            reveal_strlit(" ");
            assert(joined@ =~= sp(k + 1));
        }
        out = joined;
        k = k + 1;
    }
    out
}

/// Render a variable reference.
pub fn variable(node: &Variable) -> (r: String)
    ensures
        r@ == variable_spec(*node),
{
    let dollar_name = String::from_str("$").concat(node.id.name.as_str());
    proof {
        reveal_strlit("$");
        assert(dollar_name@ =~= seq!['$'] + node.id.name@);
    }
    paint_fixed(93, dollar_name.as_str())
}

/// Render a template.
pub fn template(node: &Template) -> (r: String)
    ensures
        r@ == template_spec(*node),
{
    match node {
        Template::Unquoted(body) => {
            let ghost all = body.parts@;
            let mut out = String::new();
            let mut k: usize = 0;
            proof {
                assert(all.skip(0) =~= all);
            }
            while k < body.parts.len()
                invariant
                    k <= all.len(),
                    body.parts@ == all,
                    unquoted_parts_spec(all, true) =~= out@ + unquoted_parts_spec(
                        all.skip(k as int),
                        k == 0,
                    ),
                decreases all.len() - k,
            {
                let piece = match &body.parts[k] {
                    TemplatePart::Raw(literal) => {
                        if k == 0 && str_eq(literal.value.as_str(), "-") {
                            proof {
                                reveal_strlit("-");
                                assert(literal.value@ =~= seq!['-']);
                            }
                            paint_fixed(39, "-")
                        } else {
                            proof {
                                reveal_strlit("-");
                                assert("-"@ =~= seq!['-']);
                            }
                            literal.value.clone()
                        }
                    },
                    TemplatePart::Variable(var) => variable(var),
                };
                proof {
                    assert(all.skip(k as int)[0] == all[k as int]);
                    assert(all.skip(k as int).drop_first() =~= all.skip(k + 1));
                    assert(unquoted_parts_spec(all.skip(k as int), k == 0)
                        == unquoted_part_spec(all[k as int], k == 0) + unquoted_parts_spec(
                        all.skip(k + 1),
                        false,
                    ));
                }
                out = out.concat(piece.as_str());
                k = k + 1;
            }
            proof {
                assert(all.skip(all.len() as int) =~= Seq::<TemplatePart>::empty());
                assert(out@ =~= unquoted_parts_spec(all, true));
            }
            out
        },
        Template::Single(raw) => {
            let quoted = String::from_str("'").concat(raw.text.as_str()).concat("'");
            proof {
                reveal_strlit("'");
                assert(quoted@ =~= seq!['\''] + raw.text@ + seq!['\'']);
            }
            paint_yellow(quoted.as_str())
        },
        Template::Double(body) => {
            let ghost all = body.parts@;
            let quote = paint_yellow("\"");
            proof {
                reveal_strlit("\"");
                assert("\""@ =~= seq!['"']);
            }
            let mut out = quote.clone();
            let mut k: usize = 0;
            proof {
                assert(all.skip(0) =~= all);
            }
            while k < body.parts.len()
                invariant
                    k <= all.len(),
                    body.parts@ == all,
                    painted(yellow_params(), seq!['"']) + double_parts_spec(all) =~= out@
                        + double_parts_spec(all.skip(k as int)),
                decreases all.len() - k,
            {
                let piece = match &body.parts[k] {
                    TemplatePart::Raw(literal) => paint_yellow(literal.value.as_str()),
                    TemplatePart::Variable(var) => variable(var),
                };
                proof {
                    assert(all.skip(k as int)[0] == all[k as int]);
                    assert(all.skip(k as int).drop_first() =~= all.skip(k + 1));
                    assert(double_parts_spec(all.skip(k as int)) == double_part_spec(
                        all[k as int],
                    ) + double_parts_spec(all.skip(k + 1)));
                }
                out = out.concat(piece.as_str());
                k = k + 1;
            }
            proof {
                assert(all.skip(all.len() as int) =~= Seq::<TemplatePart>::empty());
            }
            let closed = out.concat(quote.as_str());
            proof {
                assert(closed@ =~= template_spec(Template::Double(*body)));
            }
            closed
        },
    }
}

/// Render a switch body.
pub fn switch(node: &Switch) -> (r: String)
    ensures
        r@ == switch_spec(*node),
{
    let mut out = paint_fixed(39, node.name.name.as_str());
    match &node.value {
        Some(value) => {
            proof {
                reveal_strlit("=");
                assert("="@ =~= seq!['=']);
            }
            let eq = paint_fixed(39, "=");
            let val = template(value);
            let joined = out.concat(eq.as_str()).concat(val.as_str());
            proof {
                assert(joined@ =~= switch_spec(*node));
            }
            joined
        },
        None => {
            proof {
                assert(out@ =~= switch_spec(*node));
            }
            out
        },
    }
}

/// Render one parameter.
pub fn parameter(node: &Parameter) -> (r: String)
    ensures
        r@ == parameter_spec(*node),
{
    match &node.param {
        Param::Literal(literal) => template(&literal.literal),
        Param::LongSwitch(sw) => {
            proof {
                reveal_strlit("--");
                assert("--"@ =~= seq!['-', '-']);
            }
            let r = paint_fixed(39, "--").concat(switch(sw).as_str());
            proof {
                assert(r@ =~= parameter_spec(*node));
            }
            r
        },
        Param::ShortSwitch(sw) => {
            proof {
                reveal_strlit("-");
                assert("-"@ =~= seq!['-']);
            }
            let r = paint_fixed(39, "-").concat(switch(sw).as_str());
            proof {
                assert(r@ =~= parameter_spec(*node));
            }
            r
        },
    }
}

/// Render a parameter list, re-emitting the gaps between spans as
/// spaces, starting from text position `prefix_idx`.
pub fn parameters(node: &Parameters, prefix_idx: usize) -> (r: String)
    requires
        spans_ordered(node.params@, prefix_idx as int),
    ensures
        r@ == parameters_spec(node.params@, prefix_idx as int),
{
    let ghost all = node.params@;
    let mut out = String::new();
    let mut pos = prefix_idx;
    let mut k: usize = 0;
    proof {
        assert(all.skip(0) =~= all);
    }
    while k < node.params.len()
        invariant
            k <= all.len(),
            node.params@ == all,
            spans_ordered(all.skip(k as int), pos as int),
            parameters_spec(all, prefix_idx as int) =~= out@ + parameters_spec(
                all.skip(k as int),
                pos as int,
            ),
        decreases all.len() - k,
    {
        let pp = &node.params[k];
        proof {
            assert(all.skip(k as int)[0] == all[k as int]);
            assert(all.skip(k as int).drop_first() =~= all.skip(k + 1));
            assert(parameters_spec(all.skip(k as int), pos as int) == sp(
                all[k as int].span.start.index - pos,
            ) + parameter_spec(all[k as int]) + parameters_spec(
                all.skip(k + 1),
                all[k as int].span.end.index as int,
            ));
        }
        let gap = white_space(pp.span.start.index - pos);
        let body = parameter(pp);
        out = out.concat(gap.as_str()).concat(body.as_str());
        pos = pp.span.end.index;
        k = k + 1;
    }
    proof {
        assert(all.skip(all.len() as int) =~= Seq::<Parameter>::empty());
        assert(out@ =~= parameters_spec(all, prefix_idx as int));
    }
    out
}

/// Render the program name: green when registered, red when unknown.
pub fn program(node: &Program, executables: &Executables) -> (r: String)
    ensures
        r@ == program_spec(*node, executables@),
{
    if executables.contains(node.id.name.as_str()) {
        paint_green(node.id.name.as_str())
    } else {
        paint_red(node.id.name.as_str())
    }
}

/// Render a whole command.
pub fn command(node: &Command, executables: &Executables) -> (r: String)
    requires
        match node.parameters {
            Some(ps) => spans_ordered(ps.params@, node.program.span.end.index as int),
            None => true,
        },
    ensures
        r@ == command_spec(*node, executables@),
{
    let lead = white_space(node.span.start.index);
    let name = program(&node.program, executables);
    let mut out = lead.concat(name.as_str());
    match &node.parameters {
        Some(ps) => {
            let tail = parameters(ps, node.program.span.end.index);
            let r = out.concat(tail.as_str());
            proof {
                assert(r@ =~= command_spec(*node, executables@));
            }
            r
        },
        None => {
            proof {
                assert(out@ =~= command_spec(*node, executables@));
            }
            out
        },
    }
}

} // verus!
