use crate::pos::Span;
use vstd::prelude::*;

verus! {

/// A command or variable name. Strict identifiers draw from
/// `[A-Za-z0-9_?!]`; loose ones (program and switch names) also allow
/// `-` and `.`.
#[derive(Clone, Debug, PartialEq, Eq)]
pub struct Identifier {
    pub name: String,
    pub span: Span,
}

/// The verbatim text between single quotes.
#[derive(Clone, Debug, PartialEq, Eq)]
pub struct RawText {
    pub text: String,
    pub span: Span,
}

/// A run of plain characters inside a template body.
#[derive(Clone, Debug, PartialEq, Eq)]
pub struct TemplateLiteral {
    pub value: String,
    pub span: Span,
}

/// A `$name` reference.
#[derive(Clone, Debug, PartialEq, Eq)]
pub struct Variable {
    pub id: Identifier,
    pub span: Span,
}

/// One piece of a template body: literal text or a variable reference.
#[derive(Clone, Debug, PartialEq, Eq)]
pub enum TemplatePart {
    Raw(TemplateLiteral),
    Variable(Variable),
}

/// The parts of an unquoted or double-quoted template.
#[derive(Clone, Debug, PartialEq, Eq)]
pub struct TemplateBody {
    pub parts: Vec<TemplatePart>,
    pub span: Span,
}

/// A parsed value: unquoted, single-quoted (verbatim) or double-quoted
/// (interpolated).
#[derive(Clone, Debug, PartialEq, Eq)]
pub enum Template {
    Unquoted(TemplateBody),
    Single(RawText),
    Double(TemplateBody),
}

/// A bare (non-switch) parameter.
#[derive(Clone, Debug, PartialEq, Eq)]
pub struct ParamLiteral {
    pub literal: Template,
    pub span: Span,
}

/// A named flag parameter: `-name`, `--name`, optionally `=value`.
/// Its span starts after the dashes.
#[derive(Clone, Debug, PartialEq, Eq)]
pub struct Switch {
    pub name: Identifier,
    pub value: Option<Template>,
    pub span: Span,
}

/// One parameter: a literal or a short or long switch.
#[derive(Clone, Debug, PartialEq, Eq)]
pub enum Param {
    Literal(ParamLiteral),
    ShortSwitch(Switch),
    LongSwitch(Switch),
}

/// A parameter with its span.
#[derive(Clone, Debug, PartialEq, Eq)]
pub struct Parameter {
    pub param: Param,
    pub span: Span,
}

/// A non-empty parameter list. Its span ends after any trailing
/// separator whitespace that was consumed.
#[derive(Clone, Debug, PartialEq, Eq)]
pub struct Parameters {
    pub params: Vec<Parameter>,
    pub span: Span,
}

/// The command name token.
#[derive(Clone, Debug, PartialEq, Eq)]
pub struct Program {
    pub id: Identifier,
    pub span: Span,
}

/// The parse root: a program name and its optional parameters.
#[derive(Clone, Debug, PartialEq, Eq)]
pub struct Command {
    pub program: Program,
    pub parameters: Option<Parameters>,
    pub span: Span,
}

/// A trailing `#...` comment. Its span starts after the `#`.
#[derive(Clone, Debug, PartialEq, Eq)]
pub struct Comment {
    pub content: String,
    pub span: Span,
}

impl TemplatePart {
    /// The character index just past this part.
    pub open spec fn end_index(self) -> int {
        match self {
            TemplatePart::Raw(l) => l.span.end.index as int,
            TemplatePart::Variable(v) => v.span.end.index as int,
        }
    }
}

impl Parameter {
    /// The character index just past this parameter.
    pub open spec fn end_index(self) -> int {
        self.span.end.index as int
    }
}

} // verus!
