//! ANSI coloring, done by the `ansi_term` crate behind exact
//! contracts, and decimal rendering of numbers for escape sequences.
use vstd::prelude::*;
use vstd::string::StringExecFns;

verus! {

/// An SGR escape sequence: `ESC [ <params> m`.
pub open spec fn sgr_seq(params: Seq<char>) -> Seq<char> {
    seq!['\u{1b}', '['] + params + seq!['m']
}

/// Text wrapped in a color prefix and the reset suffix, as
/// `ansi_term` prints a foreground-only style.
pub open spec fn painted(params: Seq<char>, text: Seq<char>) -> Seq<char> {
    sgr_seq(params) + text + sgr_seq(seq!['0'])
}

pub open spec fn red_params() -> Seq<char> {
    seq!['3', '1']
}

pub open spec fn green_params() -> Seq<char> {
    seq!['3', '2']
}

pub open spec fn yellow_params() -> Seq<char> {
    seq!['3', '3']
}

pub open spec fn blue_params() -> Seq<char> {
    seq!['3', '4']
}

pub open spec fn purple_params() -> Seq<char> {
    seq!['3', '5']
}

/// The character for one decimal digit.
pub open spec fn digit_char(d: int) -> char {
    if d == 0 {
        '0'
    } else if d == 1 {
        '1'
    } else if d == 2 {
        '2'
    } else if d == 3 {
        '3'
    } else if d == 4 {
        '4'
    } else if d == 5 {
        '5'
    } else if d == 6 {
        '6'
    } else if d == 7 {
        '7'
    } else if d == 8 {
        '8'
    } else {
        '9'
    }
}

/// The decimal digits of a non-negative number, most significant
/// first, as `{}` formatting prints it.
pub open spec fn dec_chars(n: int) -> Seq<char>
    decreases n,
{
    if n < 0 {
        Seq::empty()
    } else if n < 10 {
        seq![digit_char(n)]
    } else {
        dec_chars(n / 10).push(digit_char(n % 10))
    }
}

/// The parameters of an 8-bit foreground color: `38;5;<code>`.
pub open spec fn fixed_params(code: int) -> Seq<char> {
    seq!['3', '8', ';', '5', ';'] + dec_chars(code)
}

/// One decimal digit as a string.
fn digit_str(d: usize) -> (r: String)
    requires
        d < 10,
    ensures
        r@ == seq![digit_char(d as int)],
{
    let s: &str = if d == 0 {
        "0"
    } else if d == 1 {
        "1"
    } else if d == 2 {
        "2"
    } else if d == 3 {
        "3"
    } else if d == 4 {
        "4"
    } else if d == 5 {
        "5"
    } else if d == 6 {
        "6"
    } else if d == 7 {
        "7"
    } else if d == 8 {
        "8"
    } else {
        "9"
    };
    proof {
        reveal_strlit("0");
        reveal_strlit("1");
        reveal_strlit("2");
        reveal_strlit("3");
        reveal_strlit("4");
        reveal_strlit("5");
        reveal_strlit("6");
        reveal_strlit("7");
        reveal_strlit("8");
        reveal_strlit("9");
        assert(s@ =~= seq![digit_char(d as int)]);
    }
    String::from_str(s)
}

/// A non-negative number in decimal.
pub fn dec_of(n: usize) -> (r: String)
    ensures
        r@ == dec_chars(n as int),
    decreases n,
{
    if n < 10 {
        digit_str(n)
    } else {
        let high = dec_of(n / 10);
        let low = digit_str(n % 10);
        let r = high.concat(low.as_str());
        proof {
            assert(r@ =~= dec_chars(n as int / 10).push(digit_char(n as int % 10)));
        }
        r
    }
}

/// Relies on `ansi_term::Color::paint` and the `Display` of the
/// painted string: a foreground-only style prints `ESC[31m`, the
/// text, then `ESC[0m`.
#[verifier::external_body]
pub fn paint_red(text: &str) -> (r: String)
    ensures
        r@ == painted(red_params(), text@),
{
    ansi_term::Color::Red.paint(text).to_string()
}

/// Relies on `ansi_term::Color::paint`: green is SGR code 32.
#[verifier::external_body]
pub fn paint_green(text: &str) -> (r: String)
    ensures
        r@ == painted(green_params(), text@),
{
    ansi_term::Color::Green.paint(text).to_string()
}

/// Relies on `ansi_term::Color::paint`: yellow is SGR code 33.
#[verifier::external_body]
pub fn paint_yellow(text: &str) -> (r: String)
    ensures
        r@ == painted(yellow_params(), text@),
{
    ansi_term::Color::Yellow.paint(text).to_string()
}

/// Relies on `ansi_term::Color::paint`: blue is SGR code 34.
#[verifier::external_body]
pub fn paint_blue(text: &str) -> (r: String)
    ensures
        r@ == painted(blue_params(), text@),
{
    ansi_term::Color::Blue.paint(text).to_string()
}

/// Relies on `ansi_term::Color::paint`: purple is SGR code 35.
#[verifier::external_body]
pub fn paint_purple(text: &str) -> (r: String)
    ensures
        r@ == painted(purple_params(), text@),
{
    ansi_term::Color::Purple.paint(text).to_string()
}

/// Relies on `ansi_term::Color::paint` with `Color::Fixed`: an 8-bit
/// color prints the parameters `38;5;` followed by the code in
/// decimal.
#[verifier::external_body]
pub fn paint_fixed(code: u8, text: &str) -> (r: String)
    ensures
        r@ == painted(fixed_params(code as int), text@),
{
    ansi_term::Color::Fixed(code).paint(text).to_string()
}

} // verus!
