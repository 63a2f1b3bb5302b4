//! Status symbols: a colored marker glyph in front of a message.
use crate::paint::{blue_params, green_params, paint_blue, paint_green, paint_red, paint_yellow,
    painted, red_params, yellow_params};
use vstd::prelude::*;
use vstd::string::StringExecFns;

verus! {

pub struct Symbol;

impl Symbol {
    /// A green check mark in front of the message.
    pub fn success(message: String) -> (r: String)
        ensures
            r@ == painted(green_params(), "\u{2714}"@) + " "@ + message@,
    {
        let mark = paint_green("\u{2714}");
        mark.concat(" ").concat(message.as_str())
    }

    /// A blue information sign in front of the message.
    pub fn info(message: String) -> (r: String)
        ensures
            r@ == painted(blue_params(), "\u{2139}"@) + " "@ + message@,
    {
        let mark = paint_blue("\u{2139}");
        mark.concat(" ").concat(message.as_str())
    }

    /// A yellow warning sign in front of the message.
    pub fn warning(message: String) -> (r: String)
        ensures
            r@ == painted(yellow_params(), "\u{26a0}"@) + " "@ + message@,
    {
        let mark = paint_yellow("\u{26a0}");
        mark.concat(" ").concat(message.as_str())
    }

    /// A red cross in front of the message.
    pub fn error(message: String) -> (r: String)
        ensures
            r@ == painted(red_params(), "\u{2716}"@) + " "@ + message@,
    {
        let mark = paint_red("\u{2716}");
        mark.concat(" ").concat(message.as_str())
    }
}

} // verus!
