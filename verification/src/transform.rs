//! The argument transformer: walks a parsed parameter list, expands
//! variables against the variable store, and materializes either
//! structured switch arguments or flattened text tokens.
use crate::ast::{Param, Parameter, Parameters, RawText, Switch, Template, TemplateBody,
    TemplateLiteral, TemplatePart, Variable};
use crate::store::Vars;
use vstd::prelude::*;
use vstd::string::StringExecFns;

verus! {

/// One materialized argument: plain text, or a switch as a name and
/// an optional value.
#[derive(Clone, Debug, PartialEq, Eq)]
pub enum Argument {
    Text(String),
    Switch(String, Option<String>),
}

/// The mathematical value of an argument.
pub ghost enum ArgV {
    Text(Seq<char>),
    Switch(Seq<char>, Option<Seq<char>>),
}

impl View for Argument {
    type V = ArgV;

    open spec fn view(&self) -> ArgV {
        match self {
            Argument::Text(t) => ArgV::Text(t@),
            Argument::Switch(k, v) => ArgV::Switch(
                k@,
                match v {
                    Some(x) => Some(x@),
                    None => None,
                },
            ),
        }
    }
}

/// The values of a run of arguments.
pub open spec fn args_view(args: Seq<Argument>) -> Seq<ArgV> {
    args.map_values(|a: Argument| a@)
}

/// What a variable reference resolves to: the stored value, or the
/// empty string for an unknown name — resolution never fails.
pub open spec fn var_text(name: Seq<char>, vars: Map<Seq<char>, Seq<char>>) -> Seq<char> {
    if vars.contains_key(name) {
        vars[name]
    } else {
        Seq::empty()
    }
}

/// What one template part expands to.
pub open spec fn part_text(part: TemplatePart, vars: Map<Seq<char>, Seq<char>>) -> Seq<char> {
    match part {
        TemplatePart::Raw(l) => l.value@,
        TemplatePart::Variable(v) => var_text(v.id.name@, vars),
    }
}

/// What a run of template parts expands to: the concatenation.
pub open spec fn parts_text(parts: Seq<TemplatePart>, vars: Map<Seq<char>, Seq<char>>) -> Seq<
    char,
>
    decreases parts.len(),
{
    if parts.len() == 0 {
        Seq::empty()
    } else {
        parts_text(parts.drop_last(), vars) + part_text(parts.last(), vars)
    }
}

/// What a template expands to: single-quoted text verbatim, the
/// others by expanding their parts.
pub open spec fn template_text(tpl: Template, vars: Map<Seq<char>, Seq<char>>) -> Seq<char> {
    match tpl {
        Template::Unquoted(body) => parts_text(body.parts@, vars),
        Template::Single(raw) => raw.text@,
        Template::Double(body) => parts_text(body.parts@, vars),
    }
}

/// A switch as text without its dashes: `name` or `name=value`.
pub open spec fn switch_text(sw: Switch, vars: Map<Seq<char>, Seq<char>>) -> Seq<char> {
    sw.name.name@ + match sw.value {
        Some(tpl) => seq!['='] + template_text(tpl, vars),
        None => Seq::empty(),
    }
}

/// What one switch becomes: flattened to text with its dashes, or a
/// structured name/value pair.
pub open spec fn switch_arg(
    sw: Switch,
    vars: Map<Seq<char>, Seq<char>>,
    text_only: bool,
    long: bool,
) -> ArgV {
    if text_only {
        ArgV::Text(
            (if long {
                seq!['-', '-']
            } else {
                seq!['-']
            }) + switch_text(sw, vars),
        )
    } else {
        ArgV::Switch(
            sw.name.name@,
            match sw.value {
                Some(tpl) => Some(template_text(tpl, vars)),
                None => None,
            },
        )
    }
}

/// What one parameter becomes.
pub open spec fn param_arg(p: Param, vars: Map<Seq<char>, Seq<char>>, text_only: bool) -> ArgV {
    match p {
        Param::Literal(pl) => ArgV::Text(template_text(pl.literal, vars)),
        Param::LongSwitch(sw) => switch_arg(sw, vars, text_only, true),
        Param::ShortSwitch(sw) => switch_arg(sw, vars, text_only, false),
    }
}

/// What a whole parameter list becomes, in order.
pub open spec fn params_args(
    params: Seq<Parameter>,
    vars: Map<Seq<char>, Seq<char>>,
    text_only: bool,
) -> Seq<ArgV> {
    params.map_values(|pp: Parameter| param_arg(pp.param, vars, text_only))
}

/// Walks an AST and materializes arguments against a variable store,
/// in structured or flattened (text-only) mode.
pub struct Transformer<'a> {
    variables: &'a Vars,
    text_only: bool,
}

impl<'a> Transformer<'a> {
    /// The variable store the transformer resolves against.
    pub closed spec fn vars_spec(&self) -> Map<Seq<char>, Seq<char>> {
        self.variables@
    }

    /// Whether switches are flattened to text.
    pub closed spec fn text_only_spec(&self) -> bool {
        self.text_only
    }

    pub fn new(variables: &'a Vars, text_only: bool) -> (t: Transformer<'a>)
        ensures
            t.vars_spec() == variables@,
            t.text_only_spec() == text_only,
    {
        Transformer { variables, text_only }
    }

    /// Materialize every parameter, in order.
    pub fn transform(&self, parameters: Parameters) -> (r: Vec<Argument>)
        ensures
            args_view(r@) == params_args(
                parameters.params@,
                self.vars_spec(),
                self.text_only_spec(),
            ),
    {
        let ghost all = parameters.params@;
        let mut out: Vec<Argument> = Vec::new();
        let mut params = parameters.params;
        let ghost k: int = 0;
        while params.len() > 0
            invariant
                0 <= k <= all.len(),
                params@ == all.skip(k),
                args_view(out@) =~= params_args(
                    all.take(k),
                    self.vars_spec(),
                    self.text_only_spec(),
                ),
            decreases params@.len(),
        {
            let pp = params.remove(0);
            proof {
                assert(pp == all[k]);
                assert(all.skip(k).remove(0) =~= all.skip(k + 1));
            }
            let a = self.parameter(pp);
            let ghost prev = out@;
            let ghost av = a@;
            out.push(a);
            proof {
                k = k + 1;
                let f = |pp2: Parameter| param_arg(pp2.param, self.vars_spec(), self.text_only_spec());
                assert(args_view(prev).len() == prev.len());
                assert(params_args(all.take(k - 1), self.vars_spec(), self.text_only_spec()).len()
                    == k - 1);
                assert(prev.len() == k - 1);
                assert forall|t: int| 0 <= t < k implies args_view(out@)[t] == all.take(k).map_values(f)[t] by {
                    assert(all.take(k)[t] == all[t]);
                    if t < k - 1 {
                        assert(out@[t] == prev[t]);
                        assert(args_view(prev)[t] == all.take(k - 1).map_values(f)[t]);
                        assert(all.take(k - 1)[t] == all[t]);
                    } else {
                        assert(out@[t] == prev.push(a)[k - 1]);
                        assert(out@[t]@ == av);
                    }
                }
                assert(args_view(out@) =~= params_args(
                    all.take(k),
                    self.vars_spec(),
                    self.text_only_spec(),
                ));
            }
        }
        proof {
            assert(all.take(all.len() as int) =~= all);
        }
        out
    }

    /// Render text-only arguments down to their strings.
    pub fn to_texts(&self, arguments: Vec<Argument>) -> (r: Vec<String>)
        requires
            forall|k: int| 0 <= k < arguments@.len() ==> arguments@[k] is Text,
        ensures
            r@.len() == arguments@.len(),
            forall|k: int|
                0 <= k < r@.len() ==> ArgV::Text(r@[k]@) == args_view(arguments@)[k],
    {
        let mut out: Vec<String> = Vec::new();
        let mut k: usize = 0;
        while k < arguments.len()
            invariant
                k <= arguments@.len(),
                out@.len() == k,
                forall|t: int| 0 <= t < arguments@.len() ==> arguments@[t] is Text,
                forall|t: int|
                    0 <= t < k ==> ArgV::Text(out@[t]@) == args_view(arguments@)[t],
            decreases arguments@.len() - k,
        {
            match &arguments[k] {
                Argument::Text(t) => {
                    out.push(t.clone());
                },
                Argument::Switch(_, _) => {
                    proof {
                        assert(false);
                    }
                },
            }
            k = k + 1;
        }
        out
    }

    /// Materialize one parameter.
    pub fn parameter(&self, parameter: Parameter) -> (r: Argument)
        ensures
            r@ == param_arg(parameter.param, self.vars_spec(), self.text_only_spec()),
    {
        match parameter.param {
            Param::Literal(literal) => Argument::Text(self.template(literal.literal)),
            Param::LongSwitch(sw) => self.switch(sw, true),
            Param::ShortSwitch(sw) => self.switch(sw, false),
        }
    }

    /// Materialize one switch, flattened or structured by the
    /// transformer's mode.
    pub fn switch(&self, switch: Switch, long: bool) -> (r: Argument)
        ensures
            r@ == switch_arg(switch, self.vars_spec(), self.text_only_spec(), long),
    {
        if self.text_only {
            let prefix = if long {
                "--"
            } else {
                "-"
            };
            let body = self.switch_to_text(switch);
            let text = String::from_str(prefix).concat(body.as_str());
            proof {
                reveal_strlit("--");
                reveal_strlit("-");
                if long {
                    assert(text@ =~= seq!['-', '-'] + body@);
                } else {
                    assert(text@ =~= seq!['-'] + body@);
                }
            }
            Argument::Text(text)
        } else {
            let pair = self.switch_to_pair(switch);
            Argument::Switch(pair.0, pair.1)
        }
    }

    /// A switch as a structured name/value pair.
    pub fn switch_to_pair(&self, switch: Switch) -> (r: (String, Option<String>))
        ensures
            r.0@ == switch.name.name@,
            match r.1 {
                Some(v) => switch.value is Some && v@ == template_text(
                    switch.value->0,
                    self.vars_spec(),
                ),
                None => switch.value is None,
            },
    {
        let key = switch.name.name;
        let value = match switch.value {
            Some(tpl) => Some(self.template(tpl)),
            None => None,
        };
        (key, value)
    }

    /// A switch as text without its dashes: `name` or `name=value`.
    pub fn switch_to_text(&self, switch: Switch) -> (r: String)
        ensures
            r@ == switch_text(switch, self.vars_spec()),
    {
        match switch.value {
            Some(tpl) => {
                let v = self.template(tpl);
                let r = switch.name.name.concat("=").concat(v.as_str());
                proof {
                    reveal_strlit("=");
                    assert(r@ =~= switch.name.name@ + seq!['='] + v@);
                }
                r
            },
            None => {
                let r = switch.name.name;
                proof {
                    assert(r@ =~= r@ + Seq::<char>::empty());
                }
                r
            },
        }
    }

    /// Expand one template to text.
    pub fn template(&self, template: Template) -> (r: String)
        ensures
            r@ == template_text(template, self.vars_spec()),
    {
        match template {
            Template::Unquoted(body) => self.template_body(body),
            Template::Single(raw) => self.raw_text(raw),
            Template::Double(body) => self.template_body(body),
        }
    }

    /// Single-quoted text passes through verbatim.
    pub fn raw_text(&self, raw_text: RawText) -> (r: String)
        ensures
            r@ == raw_text.text@,
    {
        raw_text.text
    }

    /// Expand a template body: concatenate its parts, resolving
    /// variable references.
    pub fn template_body(&self, body: TemplateBody) -> (r: String)
        ensures
            r@ == parts_text(body.parts@, self.vars_spec()),
    {
        let ghost all = body.parts@;
        let parts = body.parts;
        let mut text = String::new();
        let mut k: usize = 0;
        while k < parts.len()
            invariant
                k <= parts@.len(),
                parts@ == all,
                text@ == parts_text(all.take(k as int), self.vars_spec()),
            decreases parts@.len() - k,
        {
            let piece = match &parts[k] {
                TemplatePart::Raw(raw) => self.template_literal_ref(raw),
                TemplatePart::Variable(var) => self.variable_ref(var),
            };
            let joined = text.concat(piece.as_str());
            proof {
                assert(all.take(k + 1).drop_last() =~= all.take(k as int));
                assert(all.take(k + 1).last() == all[k as int]);
            }
            text = joined;
            k = k + 1;
        }
        proof {
            assert(all.take(all.len() as int) =~= all);
        }
        text
    }

    /// A literal part is copied as it stands.
    pub fn template_literal(&self, literal: TemplateLiteral) -> (r: String)
        ensures
            r@ == literal.value@,
    {
        literal.value
    }

    fn template_literal_ref(&self, literal: &TemplateLiteral) -> (r: String)
        ensures
            r@ == literal.value@,
    {
        literal.value.clone()
    }

    /// Resolve a variable reference: the stored value, or the empty
    /// string when the name is unknown — never an error.
    pub fn variable(&self, variable: Variable) -> (r: String)
        ensures
            r@ == var_text(variable.id.name@, self.vars_spec()),
    {
        self.variable_ref(&variable)
    }

    fn variable_ref(&self, variable: &Variable) -> (r: String)
        ensures
            r@ == var_text(variable.id.name@, self.vars_spec()),
    {
        match self.variables.get(variable.id.name.as_str()) {
            Some(value) => value.clone(),
            None => String::new(),
        }
    }
}

} // verus!
