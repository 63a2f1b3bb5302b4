//! The command grammar, stated over sequences of characters.
//!
//! Every rule is described by three spec functions: `*_at` says whether the
//! rule succeeds at a character index, `*_end` gives the index just past the
//! consumed text, and `*_ok` says that a node is the rule's result there.
use crate::ast::{
    Command, Comment, Identifier, Param, ParamLiteral, Parameter, Parameters, Program, RawText,
    Switch, Template, TemplateBody, TemplateLiteral, TemplatePart, Variable,
};
use crate::pos::span_at;
use vstd::prelude::*;

verus! {

/// Characters a strict identifier may contain: ASCII letters, digits,
/// `_`, `?` and `!`.
pub open spec fn strict_char(c: char) -> bool {
    ('a' <= c && c <= 'z') || ('A' <= c && c <= 'Z') || ('0' <= c && c <= '9') || c == '_' || c
        == '?' || c == '!'
}

/// Characters a loose identifier (program or switch name) may contain:
/// the strict set plus `-` and `.`.
pub open spec fn loose_char(c: char) -> bool {
    strict_char(c) || c == '-' || c == '.'
}

/// Parameter-separating whitespace: the Unicode White_Space
/// characters.
pub open spec fn space_char(c: char) -> bool {
    ('\u{9}' <= c && c <= '\u{d}') || c == ' ' || c == '\u{85}' || c == '\u{a0}' || c
        == '\u{1680}' || ('\u{2000}' <= c && c <= '\u{200a}') || c == '\u{2028}' || c
        == '\u{2029}' || c == '\u{202f}' || c == '\u{205f}' || c == '\u{3000}'
}

/// Exec test for `space_char`.
pub fn is_space(c: char) -> (r: bool)
    ensures
        r == space_char(c),
{
    ('\u{9}' <= c && c <= '\u{d}') || c == ' ' || c == '\u{85}' || c == '\u{a0}' || c
        == '\u{1680}' || ('\u{2000}' <= c && c <= '\u{200a}') || c == '\u{2028}' || c
        == '\u{2029}' || c == '\u{202f}' || c == '\u{205f}' || c == '\u{3000}'
}

/// Characters a template literal run may contain. Outside quotes it stops
/// at whitespace, `'` and `#`; everywhere it stops at `$`, `"` and a
/// line feed.
pub open spec fn lit_char(quoted: bool, c: char) -> bool {
    c != '$' && c != '\n' && c != '"' && (quoted || (!space_char(c) && c != '\'' && c != '#'))
}

/// The character classes the scanner knows.
#[derive(Clone, Copy, Debug, PartialEq, Eq, Structural)]
pub enum CharClass {
    Strict,
    Loose,
    LitUnquoted,
    LitQuoted,
    NonQuote,
    NonNewline,
    NonEquals,
    Space,
}

/// The predicate a character class stands for.
pub open spec fn class_pred(cls: CharClass) -> spec_fn(char) -> bool {
    match cls {
        CharClass::Strict => |c: char| strict_char(c),
        CharClass::Loose => |c: char| loose_char(c),
        CharClass::LitUnquoted => |c: char| lit_char(false, c),
        CharClass::LitQuoted => |c: char| lit_char(true, c),
        CharClass::NonQuote => |c: char| c != '\'',
        CharClass::NonNewline => |c: char| c != '\n',
        CharClass::NonEquals => |c: char| c != '=',
        CharClass::Space => |c: char| space_char(c),
    }
}

/// Whether `c` belongs to the class.
pub fn in_class(cls: CharClass, c: char) -> (r: bool)
    ensures
        r == class_pred(cls)(c),
{
    match cls {
        CharClass::Strict => is_strict(c),
        CharClass::Loose => is_strict(c) || c == '-' || c == '.',
        CharClass::LitUnquoted => c != '$' && c != '\n' && c != '"' && !is_space(c) && c
            != '\'' && c != '#',
        CharClass::LitQuoted => c != '$' && c != '\n' && c != '"',
        CharClass::NonQuote => c != '\'',
        CharClass::NonNewline => c != '\n',
        CharClass::NonEquals => c != '=',
        CharClass::Space => is_space(c),
    }
}

fn is_strict(c: char) -> (r: bool)
    ensures
        r == strict_char(c),
{
    ('a' <= c && c <= 'z') || ('A' <= c && c <= 'Z') || ('0' <= c && c <= '9') || c == '_' || c
        == '?' || c == '!'
}

/// How many consecutive characters of `s` from `i` on satisfy `p`.
pub open spec fn run_len(s: Seq<char>, i: int, p: spec_fn(char) -> bool) -> int
    decreases s.len() - i,
{
    if i < 0 || i >= s.len() || !p(s[i]) {
        0
    } else {
        1 + run_len(s, i + 1, p)
    }
}

/// The index just past the run of `p`-characters that starts at `i`.
pub open spec fn run_end(s: Seq<char>, i: int, p: spec_fn(char) -> bool) -> int {
    i + run_len(s, i, p)
}

/// A run stays inside the text, all its characters satisfy `p`, and it is
/// maximal.
pub proof fn lemma_run(s: Seq<char>, i: int, p: spec_fn(char) -> bool)
    requires
        0 <= i <= s.len(),
    ensures
        i <= run_end(s, i, p) <= s.len(),
        forall|k: int| i <= k < run_end(s, i, p) ==> p(s[k]),
        run_end(s, i, p) == s.len() || !p(s[run_end(s, i, p)]),
    decreases s.len() - i,
{
    if i < s.len() && p(s[i]) {
        lemma_run(s, i + 1, p);
    }
}

/// Scan the run of class characters that starts at `i`.
pub fn scan_run(s: &str, i: usize, cls: CharClass) -> (j: usize)
    requires
        i <= s@.len(),
    ensures
        j == run_end(s@, i as int, class_pred(cls)),
        i <= j <= s@.len(),
{
    let ghost p = class_pred(cls);
    let n = s.unicode_len();
    let mut j = i;
    loop
        invariant
            i <= j <= n == s@.len(),
            p == class_pred(cls),
            run_end(s@, i as int, p) == run_end(s@, j as int, p),
        ensures
            i <= j <= s@.len(),
            run_end(s@, i as int, p) == run_end(s@, j as int, p),
            run_len(s@, j as int, p) == 0,
        decreases n - j,
    {
        if j >= n {
            proof {
                assert(run_len(s@, j as int, p) == 0);
            }
            break ;
        }
        let c = s.get_char(j);
        if !in_class(cls, c) {
            proof {
                assert(run_len(s@, j as int, p) == 0);
            }
            break ;
        }
        proof {
            assert(p(s@[j as int]));
            assert(run_len(s@, j as int, p) == 1 + run_len(s@, j + 1, p));
        }
        j = j + 1;
    }
    j
}

// ---- identifiers ----
/// The character class of an identifier: strict or loose.
pub open spec fn ident_pred(strict: bool) -> spec_fn(char) -> bool {
    if strict {
        class_pred(CharClass::Strict)
    } else {
        class_pred(CharClass::Loose)
    }
}

/// An identifier starts at `i`.
pub open spec fn ident_at(s: Seq<char>, i: int, strict: bool) -> bool {
    0 <= i < s.len() && ident_pred(strict)(s[i])
}

/// The index just past the identifier that starts at `i`.
pub open spec fn ident_end(s: Seq<char>, i: int, strict: bool) -> int {
    run_end(s, i, ident_pred(strict))
}

/// `id` is the identifier parsed at `i`: the maximal run of identifier
/// characters, with its span.
pub open spec fn ident_ok(s: Seq<char>, i: int, id: Identifier, strict: bool) -> bool {
    &&& ident_at(s, i, strict)
    &&& id.name@ == s.subrange(i, ident_end(s, i, strict))
    &&& id.span == span_at(s, i, ident_end(s, i, strict))
}

// ---- variables ----
/// A `$` followed by a strict identifier starts at `i`.
pub open spec fn variable_at(s: Seq<char>, i: int) -> bool {
    0 <= i < s.len() && s[i] == '$' && ident_at(s, i + 1, true)
}

pub open spec fn variable_end(s: Seq<char>, i: int) -> int {
    ident_end(s, i + 1, true)
}

/// `v` is the variable reference parsed at `i`.
pub open spec fn variable_ok(s: Seq<char>, i: int, v: Variable) -> bool {
    &&& variable_at(s, i)
    &&& ident_ok(s, i + 1, v.id, true)
    &&& v.span == span_at(s, i, variable_end(s, i))
}

// ---- template literals ----
pub open spec fn lit_pred(quoted: bool) -> spec_fn(char) -> bool {
    if quoted {
        class_pred(CharClass::LitQuoted)
    } else {
        class_pred(CharClass::LitUnquoted)
    }
}

/// A literal run starts at `i`.
pub open spec fn tlit_at(s: Seq<char>, i: int, quoted: bool) -> bool {
    0 <= i < s.len() && lit_char(quoted, s[i])
}

pub open spec fn tlit_end(s: Seq<char>, i: int, quoted: bool) -> int {
    run_end(s, i, lit_pred(quoted))
}

/// `l` is the maximal literal run parsed at `i`.
pub open spec fn tlit_ok(s: Seq<char>, i: int, l: TemplateLiteral, quoted: bool) -> bool {
    &&& tlit_at(s, i, quoted)
    &&& l.value@ == s.subrange(i, tlit_end(s, i, quoted))
    &&& l.span == span_at(s, i, tlit_end(s, i, quoted))
}

// ---- template parts ----
/// A `$` stands at `i` (variable or the literal-dollar fallback).
pub open spec fn dollar_at(s: Seq<char>, i: int) -> bool {
    0 <= i < s.len() && s[i] == '$'
}

/// Some template part starts at `i`.
pub open spec fn part_at(s: Seq<char>, i: int, quoted: bool) -> bool {
    tlit_at(s, i, quoted) || dollar_at(s, i)
}

/// The index just past the template part that starts at `i`: a literal
/// run, a variable, or a lone `$` taken as one literal character.
pub open spec fn part_end(s: Seq<char>, i: int, quoted: bool) -> int {
    if tlit_at(s, i, quoted) {
        tlit_end(s, i, quoted)
    } else if variable_at(s, i) {
        variable_end(s, i)
    } else if dollar_at(s, i) {
        i + 1
    } else {
        i
    }
}

/// `part` is the template part parsed at `i`.
pub open spec fn part_ok(s: Seq<char>, i: int, part: TemplatePart, quoted: bool) -> bool {
    if tlit_at(s, i, quoted) {
        match part {
            TemplatePart::Raw(l) => tlit_ok(s, i, l, quoted),
            _ => false,
        }
    } else if variable_at(s, i) {
        match part {
            TemplatePart::Variable(v) => variable_ok(s, i, v),
            _ => false,
        }
    } else if dollar_at(s, i) {
        match part {
            TemplatePart::Raw(l) => l.value@ == seq!['$'] && l.span == span_at(s, i, i + 1),
            _ => false,
        }
    } else {
        false
    }
}

/// A part consumes at least one character and stays inside the text.
pub proof fn lemma_part_end(s: Seq<char>, i: int, quoted: bool)
    requires
        part_at(s, i, quoted),
    ensures
        i < part_end(s, i, quoted) <= s.len(),
{
    if tlit_at(s, i, quoted) {
        lemma_run(s, i, lit_pred(quoted));
        assert(run_len(s, i, lit_pred(quoted)) >= 1);
    } else if variable_at(s, i) {
        lemma_run(s, i + 1, ident_pred(true));
        assert(run_len(s, i + 1, ident_pred(true)) >= 1);
    }
}

/// `parts` are exactly the template parts that cover `s[i..j]`, one
/// after the other.
pub open spec fn parts_seq_ok(
    s: Seq<char>,
    i: int,
    j: int,
    parts: Seq<TemplatePart>,
    quoted: bool,
) -> bool
    decreases parts.len(),
{
    if parts.len() == 0 {
        i == j
    } else {
        &&& part_at(s, i, quoted)
        &&& part_ok(s, i, parts[0], quoted)
        &&& parts_seq_ok(s, part_end(s, i, quoted), j, parts.drop_first(), quoted)
    }
}

/// Where the greedy run of template parts that starts at `i` ends.
pub open spec fn body_end(s: Seq<char>, i: int, quoted: bool) -> int
    decreases s.len() - i,
{
    if !part_at(s, i, quoted) {
        i
    } else {
        let m = part_end(s, i, quoted);
        if i < m <= s.len() {
            body_end(s, m, quoted)
        } else {
            i
        }
    }
}

/// `body` is the template body parsed at `i`: the maximal part list,
/// which must be non-empty outside quotes.
pub open spec fn body_ok(s: Seq<char>, i: int, body: TemplateBody, quoted: bool) -> bool {
    &&& parts_seq_ok(s, i, body_end(s, i, quoted), body.parts@, quoted)
    &&& body.span == span_at(s, i, body_end(s, i, quoted))
    &&& (quoted || body.parts@.len() > 0)
}

/// Appending one more parsed part extends a part list.
pub proof fn lemma_parts_snoc(
    s: Seq<char>,
    i: int,
    m: int,
    parts: Seq<TemplatePart>,
    p: TemplatePart,
    quoted: bool,
)
    requires
        parts_seq_ok(s, i, m, parts, quoted),
        part_at(s, m, quoted),
        part_ok(s, m, p, quoted),
    ensures
        parts_seq_ok(s, i, part_end(s, m, quoted), parts.push(p), quoted),
    decreases parts.len(),
{
    if parts.len() == 0 {
        assert(i == m);
        assert(parts.push(p)[0] == p);
        assert(parts.push(p).drop_first() =~= Seq::<TemplatePart>::empty());
        assert(parts_seq_ok(
            s,
            part_end(s, m, quoted),
            part_end(s, m, quoted),
            parts.push(p).drop_first(),
            quoted,
        ));
    } else {
        lemma_parts_snoc(s, part_end(s, i, quoted), m, parts.drop_first(), p, quoted);
        assert(parts.push(p)[0] == parts[0]);
        assert(parts.push(p).drop_first() =~= parts.drop_first().push(p));
        assert(parts_seq_ok(
            s,
            part_end(s, i, quoted),
            part_end(s, m, quoted),
            parts.push(p).drop_first(),
            quoted,
        ));
    }
}

/// A parsed part list walks from `i` to `j` without passing
/// `body_end`.
pub proof fn lemma_parts_body_end(
    s: Seq<char>,
    i: int,
    j: int,
    parts: Seq<TemplatePart>,
    quoted: bool,
)
    requires
        0 <= i <= s.len(),
        parts_seq_ok(s, i, j, parts, quoted),
    ensures
        body_end(s, i, quoted) == body_end(s, j, quoted),
        i <= j <= s.len(),
    decreases parts.len(),
{
    if parts.len() > 0 {
        lemma_part_end(s, i, quoted);
        lemma_parts_body_end(s, part_end(s, i, quoted), j, parts.drop_first(), quoted);
    }
}

// ---- templates ----
pub open spec fn single_at(s: Seq<char>, i: int) -> bool {
    0 <= i < s.len() && s[i] == '\''
}

pub open spec fn double_at(s: Seq<char>, i: int) -> bool {
    0 <= i < s.len() && s[i] == '"'
}

/// The index of the character that closes a single-quoted template
/// opened at `i` (equals `s.len()` when it is unterminated).
pub open spec fn single_close(s: Seq<char>, i: int) -> int {
    run_end(s, i + 1, class_pred(CharClass::NonQuote))
}

/// `raw` is the verbatim text of the single-quoted template opened at
/// `i`; its span covers the text between the quotes.
pub open spec fn single_ok(s: Seq<char>, i: int, raw: RawText) -> bool {
    &&& single_at(s, i)
    &&& single_close(s, i) < s.len()
    &&& raw.text@ == s.subrange(i + 1, single_close(s, i))
    &&& raw.span == span_at(s, i + 1, single_close(s, i))
}

/// Whether a whole template starts at `i`: a terminated single- or
/// double-quoted one, or at least one unquoted part.
pub open spec fn template_at(s: Seq<char>, i: int) -> bool {
    if single_at(s, i) {
        single_close(s, i) < s.len()
    } else if double_at(s, i) {
        let e = body_end(s, i + 1, true);
        e < s.len() && s[e] == '"'
    } else {
        part_at(s, i, false)
    }
}

/// The index just past the template that starts at `i`.
pub open spec fn template_end(s: Seq<char>, i: int) -> int {
    if single_at(s, i) {
        single_close(s, i) + 1
    } else if double_at(s, i) {
        body_end(s, i + 1, true) + 1
    } else {
        body_end(s, i, false)
    }
}

/// `tpl` is the template parsed at `i`. Quote styles are decided by the
/// first character; unquoted is the fallback.
pub open spec fn template_ok(s: Seq<char>, i: int, tpl: Template) -> bool {
    match tpl {
        Template::Single(raw) => single_ok(s, i, raw),
        Template::Double(body) => {
            &&& double_at(s, i)
            &&& body_end(s, i + 1, true) < s.len()
            &&& s[body_end(s, i + 1, true)] == '"'
            &&& body_ok(s, i + 1, body, true)
        },
        Template::Unquoted(body) => {
            &&& !single_at(s, i)
            &&& !double_at(s, i)
            &&& 0 <= i <= s.len()
            &&& body_ok(s, i, body, false)
        },
    }
}

// ---- switches ----
/// A switch body (name, optionally `=value`) starts at `k`, which is
/// the index just after the dashes. It fails when an `=` follows the
/// name but no template follows the `=`.
pub open spec fn switch_at(s: Seq<char>, k: int) -> bool {
    &&& ident_at(s, k, false)
    &&& {
        let e = ident_end(s, k, false);
        e < s.len() && s[e] == '=' ==> template_at(s, e + 1)
    }
}

pub open spec fn switch_end(s: Seq<char>, k: int) -> int {
    let e = ident_end(s, k, false);
    if e < s.len() && s[e] == '=' {
        template_end(s, e + 1)
    } else {
        e
    }
}

/// `sw` is the switch body parsed at `k`.
pub open spec fn switch_ok(s: Seq<char>, k: int, sw: Switch) -> bool {
    &&& switch_at(s, k)
    &&& ident_ok(s, k, sw.name, false)
    &&& {
        let e = ident_end(s, k, false);
        if e < s.len() && s[e] == '=' {
            match sw.value {
                Some(tpl) => template_ok(s, e + 1, tpl),
                None => false,
            }
        } else {
            sw.value is None
        }
    }
    &&& sw.span == span_at(s, k, switch_end(s, k))
}

// ---- parameters ----
/// A long switch (`--name`) starts at `i`.
pub open spec fn long_at(s: Seq<char>, i: int) -> bool {
    0 <= i && i + 1 < s.len() && s[i] == '-' && s[i + 1] == '-' && switch_at(s, i + 2)
}

/// A short switch (`-name`) starts at `i`; the long form is tried
/// first.
pub open spec fn short_at(s: Seq<char>, i: int) -> bool {
    0 <= i < s.len() && s[i] == '-' && !long_at(s, i) && switch_at(s, i + 1)
}

/// Some parameter starts at `i`: a switch, or any template as a bare
/// literal.
pub open spec fn param_at(s: Seq<char>, i: int) -> bool {
    long_at(s, i) || short_at(s, i) || template_at(s, i)
}

pub open spec fn param_end(s: Seq<char>, i: int) -> int {
    if long_at(s, i) {
        switch_end(s, i + 2)
    } else if short_at(s, i) {
        switch_end(s, i + 1)
    } else {
        template_end(s, i)
    }
}

/// `p` is the parameter parsed at `i`.
pub open spec fn param_ok(s: Seq<char>, i: int, p: Param) -> bool {
    match p {
        Param::LongSwitch(sw) => long_at(s, i) && switch_ok(s, i + 2, sw),
        Param::ShortSwitch(sw) => short_at(s, i) && switch_ok(s, i + 1, sw),
        Param::Literal(pl) => {
            &&& !long_at(s, i)
            &&& !short_at(s, i)
            &&& template_ok(s, i, pl.literal)
            &&& pl.span == span_at(s, i, template_end(s, i))
        },
    }
}

/// `pp` is the parameter, with its span, parsed at `i`.
pub open spec fn parameter_ok(s: Seq<char>, i: int, pp: Parameter) -> bool {
    &&& param_ok(s, i, pp.param)
    &&& pp.span == span_at(s, i, param_end(s, i))
}

/// The index just past the run of whitespace that starts at `i`.
pub open spec fn ws_end(s: Seq<char>, i: int) -> int {
    run_end(s, i, class_pred(CharClass::Space))
}

/// `ps` are exactly the whitespace-separated parameters that cover
/// `s[i..j]`; `j` lies after any trailing separator consumed.
pub open spec fn params_seq_ok(s: Seq<char>, i: int, j: int, ps: Seq<Parameter>) -> bool
    decreases ps.len(),
{
    if ps.len() == 0 {
        false
    } else {
        &&& param_at(s, i)
        &&& parameter_ok(s, i, ps[0])
        &&& {
            let m = param_end(s, i);
            let w = ws_end(s, m);
            if ps.len() == 1 {
                j == w && (w == m || !param_at(s, w))
            } else {
                w > m && params_seq_ok(s, w, j, ps.drop_first())
            }
        }
    }
}

/// Where the greedy parameter list that starts at `i` ends, counting a
/// trailing whitespace run as consumed.
pub open spec fn params_end(s: Seq<char>, i: int) -> int
    decreases s.len() - i,
{
    if !param_at(s, i) {
        i
    } else {
        let m = param_end(s, i);
        if i < m <= s.len() {
            let w = ws_end(s, m);
            if w > m && w <= s.len() && param_at(s, w) {
                params_end(s, w)
            } else {
                w
            }
        } else {
            i
        }
    }
}

/// `node` is the parameter list parsed at `i`.
pub open spec fn parameters_ok(s: Seq<char>, i: int, node: Parameters) -> bool {
    &&& param_at(s, i)
    &&& params_seq_ok(s, i, params_end(s, i), node.params@)
    &&& node.span == span_at(s, i, params_end(s, i))
}

// ---- programs, commands, comments ----
/// `p` is the program name parsed at `i`.
pub open spec fn program_ok(s: Seq<char>, i: int, p: Program) -> bool {
    &&& ident_ok(s, i, p.id, false)
    &&& p.span == span_at(s, i, ident_end(s, i, false))
}

/// A command starts at `i` exactly when a program name does.
pub open spec fn command_at(s: Seq<char>, i: int) -> bool {
    ident_at(s, i, false)
}

/// The index just past the command that starts at `i`: the program
/// name, whitespace, and the parameter list if one follows.
pub open spec fn command_end(s: Seq<char>, i: int) -> int {
    let w = ws_end(s, ident_end(s, i, false));
    if param_at(s, w) {
        params_end(s, w)
    } else {
        w
    }
}

/// `cmd` is the command parsed at `i`.
pub open spec fn command_ok(s: Seq<char>, i: int, cmd: Command) -> bool {
    &&& command_at(s, i)
    &&& program_ok(s, i, cmd.program)
    &&& {
        let w = ws_end(s, ident_end(s, i, false));
        if param_at(s, w) {
            match cmd.parameters {
                Some(ps) => parameters_ok(s, w, ps),
                None => false,
            }
        } else {
            cmd.parameters is None
        }
    }
    &&& cmd.span == span_at(s, i, command_end(s, i))
}

pub open spec fn comment_at(s: Seq<char>, i: int) -> bool {
    0 <= i < s.len() && s[i] == '#'
}

/// The index just past the comment body (everything up to a line feed
/// or the end of the text).
pub open spec fn comment_end(s: Seq<char>, i: int) -> int {
    run_end(s, i + 1, class_pred(CharClass::NonNewline))
}

/// `c` is the comment parsed at `i`; its span starts after the `#`.
pub open spec fn comment_ok(s: Seq<char>, i: int, c: Comment) -> bool {
    &&& comment_at(s, i)
    &&& c.content@ == s.subrange(i + 1, comment_end(s, i))
    &&& c.span == span_at(s, i + 1, comment_end(s, i))
}

/// Whether the tolerant parse of the whole text succeeds: after leading
/// whitespace a command must start.
pub open spec fn interactive_at(s: Seq<char>) -> bool {
    command_at(s, ws_end(s, 0))
}

/// `cmd` is the command the tolerant parse of `s` yields.
pub open spec fn interactive_ok(s: Seq<char>, cmd: Command) -> bool {
    &&& interactive_at(s)
    &&& command_ok(s, ws_end(s, 0), cmd)
}

/// The program name a line parses to: the loose identifier that
/// follows the leading whitespace.
pub open spec fn command_name(s: Seq<char>) -> Seq<char> {
    s.subrange(ws_end(s, 0), ident_end(s, ws_end(s, 0), false))
}

/// Any command the tolerant parse yields carries exactly that name.
pub proof fn lemma_interactive_name(s: Seq<char>, cmd: Command)
    requires
        interactive_ok(s, cmd),
    ensures
        cmd.program.id.name@ == command_name(s),
{
}

/// The index just past everything the tolerant parse consumes: leading
/// whitespace, the command, and a trailing comment if one follows.
pub open spec fn interactive_end(s: Seq<char>) -> int {
    let je = command_end(s, ws_end(s, 0));
    if comment_at(s, je) {
        comment_end(s, je)
    } else {
        je
    }
}

// ---- bounds ----
/// A template body never escapes the text, and consumes at least one
/// character when a part starts there.
pub proof fn lemma_body_end_bounds(s: Seq<char>, i: int, quoted: bool)
    requires
        0 <= i <= s.len(),
    ensures
        i <= body_end(s, i, quoted) <= s.len(),
        part_at(s, i, quoted) ==> body_end(s, i, quoted) > i,
    decreases s.len() - i,
{
    if part_at(s, i, quoted) {
        lemma_part_end(s, i, quoted);
        lemma_body_end_bounds(s, part_end(s, i, quoted), quoted);
    }
}

/// A template consumes at least one character and stays inside the
/// text.
pub proof fn lemma_template_end_bounds(s: Seq<char>, i: int)
    requires
        template_at(s, i),
    ensures
        i < template_end(s, i) <= s.len(),
{
    if single_at(s, i) {
        lemma_run(s, i + 1, class_pred(CharClass::NonQuote));
    } else if double_at(s, i) {
        lemma_body_end_bounds(s, i + 1, true);
    } else {
        lemma_body_end_bounds(s, i, false);
    }
}

/// A switch body consumes at least one character and stays inside the
/// text.
pub proof fn lemma_switch_end_bounds(s: Seq<char>, k: int)
    requires
        switch_at(s, k),
    ensures
        k < switch_end(s, k) <= s.len(),
{
    lemma_run(s, k, ident_pred(false));
    assert(run_len(s, k, ident_pred(false)) >= 1);
    let e = ident_end(s, k, false);
    if e < s.len() && s[e] == '=' {
        lemma_template_end_bounds(s, e + 1);
    }
}

/// A parameter consumes at least one character and stays inside the
/// text.
pub proof fn lemma_param_end_bounds(s: Seq<char>, i: int)
    requires
        param_at(s, i),
    ensures
        i < param_end(s, i) <= s.len(),
{
    if long_at(s, i) {
        lemma_switch_end_bounds(s, i + 2);
    } else if short_at(s, i) {
        lemma_switch_end_bounds(s, i + 1);
    } else {
        lemma_template_end_bounds(s, i);
    }
}

// ---- building parameter lists ----
/// `ps` are the whitespace-separated parameters that cover `s[i..cur]`
/// so far, where `cur` is the end of the last one (before any trailing
/// whitespace) and the list may still grow.
pub open spec fn params_seq_partial(s: Seq<char>, i: int, cur: int, ps: Seq<Parameter>) -> bool
    decreases ps.len(),
{
    if ps.len() == 0 {
        false
    } else {
        &&& param_at(s, i)
        &&& parameter_ok(s, i, ps[0])
        &&& {
            let m = param_end(s, i);
            if ps.len() == 1 {
                cur == m
            } else {
                let w = ws_end(s, m);
                w > m && params_seq_partial(s, w, cur, ps.drop_first())
            }
        }
    }
}

/// Appending one more parameter, after separating whitespace, extends
/// a partial parameter list.
pub proof fn lemma_params_snoc(s: Seq<char>, i: int, cur: int, ps: Seq<Parameter>, p: Parameter)
    requires
        params_seq_partial(s, i, cur, ps),
        ws_end(s, cur) > cur,
        param_at(s, ws_end(s, cur)),
        parameter_ok(s, ws_end(s, cur), p),
    ensures
        params_seq_partial(s, i, param_end(s, ws_end(s, cur)), ps.push(p)),
    decreases ps.len(),
{
    let w = ws_end(s, cur);
    if ps.len() == 1 {
        assert(ps.push(p)[0] == ps[0]);
        assert(ps.push(p).drop_first() =~= seq![p]);
        assert(params_seq_partial(s, w, param_end(s, w), ps.push(p).drop_first()));
    } else {
        let m = param_end(s, i);
        lemma_params_snoc(s, ws_end(s, m), cur, ps.drop_first(), p);
        assert(ps.push(p)[0] == ps[0]);
        assert(ps.push(p).drop_first() =~= ps.drop_first().push(p));
    }
}

/// A partial list whose continuation cannot go on is a complete
/// parameter list ending after the trailing whitespace run.
pub proof fn lemma_params_finish(s: Seq<char>, i: int, cur: int, ps: Seq<Parameter>)
    requires
        params_seq_partial(s, i, cur, ps),
        ws_end(s, cur) == cur || !param_at(s, ws_end(s, cur)),
    ensures
        params_seq_ok(s, i, ws_end(s, cur), ps),
    decreases ps.len(),
{
    if ps.len() > 1 {
        let m = param_end(s, i);
        lemma_params_finish(s, ws_end(s, m), cur, ps.drop_first());
    }
}

/// A complete parameter list ends exactly at `params_end`.
pub proof fn lemma_params_seq_end(s: Seq<char>, i: int, j: int, ps: Seq<Parameter>)
    requires
        0 <= i <= s.len(),
        params_seq_ok(s, i, j, ps),
    ensures
        j == params_end(s, i),
        i <= j <= s.len(),
    decreases ps.len(),
{
    lemma_param_end_bounds(s, i);
    let m = param_end(s, i);
    lemma_run(s, m, class_pred(CharClass::Space));
    if ps.len() > 1 {
        lemma_params_seq_end(s, ws_end(s, m), j, ps.drop_first());
    }
}

} // verus!
