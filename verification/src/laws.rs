//! Statements that hold of the library as a whole, proved once and
//! for all inputs.
use crate::ast::{Identifier, Template};
use crate::grammar::{class_pred, ident_end, ident_ok, ident_pred, lemma_run, run_len, single_close,
    strict_char, template_at, template_ok, CharClass};
use crate::transform::template_text;
use vstd::prelude::*;

verus! {

/// Parsing a strict identifier is lossless: for any non-empty text
/// made only of strict identifier characters, the identifier parsed
/// at its start is the whole text — the name equals the input
/// exactly, and the end position's index equals the input's length.
pub proof fn lemma_strict_identifier_round_trip(s: Seq<char>, id: Identifier)
    requires
        0 < s.len() < u32::MAX,
        forall|k: int| 0 <= k < s.len() ==> strict_char(#[trigger] s[k]),
        ident_ok(s, 0, id, true),
    ensures
        id.name@ == s,
        id.span.start.index == 0,
        id.span.end.index == s.len(),
{
    lemma_run(s, 0, ident_pred(true));
    let e = ident_end(s, 0, true);
    assert(e == s.len()) by {
        if e < s.len() {
            assert(!ident_pred(true)(s[e]));
            assert(strict_char(s[e]));
        }
    }
    assert(id.name@ =~= s);
}

/// Every non-empty strict text does start an identifier, so the
/// parse in the law above always succeeds.
pub proof fn lemma_strict_identifier_parses(s: Seq<char>)
    requires
        0 < s.len(),
        forall|k: int| 0 <= k < s.len() ==> strict_char(#[trigger] s[k]),
    ensures
        crate::grammar::ident_at(s, 0, true),
{
    assert(strict_char(s[0]));
}

/// Quoting round trip: for any text without a single quote, parsing
/// `'` + text + `'` yields a verbatim template holding exactly that
/// text, and expanding it performs no interpolation whatever the
/// variable store holds — even when the text contains `$`.
pub proof fn lemma_single_quote_round_trip(text: Seq<char>, s: Seq<char>, tpl: Template)
    requires
        forall|k: int| 0 <= k < text.len() ==> #[trigger] text[k] != '\'',
        s == seq!['\''] + text + seq!['\''],
        template_ok(s, 0, tpl),
    ensures
        tpl matches Template::Single(raw) && raw.text@ == text,
        forall|vars: Map<Seq<char>, Seq<char>>| template_text(tpl, vars) == text,
{
    assert(s[0] == '\'');
    assert(s[s.len() - 1] == '\'');
    lemma_run(s, 1, class_pred(CharClass::NonQuote));
    let e = single_close(s, 0);
    assert(e == s.len() - 1) by {
        if e < s.len() - 1 {
            assert(s[e] == '\'');
            assert(s[e] == text[e - 1]);
        }
        if e == s.len() {
            assert(class_pred(CharClass::NonQuote)(s[s.len() - 1]));
        }
    }
    match tpl {
        Template::Single(raw) => {
            assert(raw.text@ =~= text);
        },
        Template::Double(_) => {
            assert(false);
        },
        Template::Unquoted(_) => {
            assert(false);
        },
    }
}

/// And such a quoted text always parses: the template at its start
/// is there, because the closing quote is.
pub proof fn lemma_single_quote_parses(text: Seq<char>, s: Seq<char>)
    requires
        forall|k: int| 0 <= k < text.len() ==> #[trigger] text[k] != '\'',
        s == seq!['\''] + text + seq!['\''],
    ensures
        template_at(s, 0),
{
    lemma_run(s, 1, class_pred(CharClass::NonQuote));
    let e = single_close(s, 0);
    assert(e < s.len()) by {
        if e == s.len() {
            assert(class_pred(CharClass::NonQuote)(s[s.len() - 1]));
        }
    }
}

} // verus!
