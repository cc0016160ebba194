//! Terminal styling of text through the `colored` crate. Whether colors are
//! applied depends on the environment, so each result is stated for both cases.

use colored::Colorize;
use vstd::prelude::*;

use crate::matcher::contains;

verus! {

/// The escape sequence that ends every ANSI style.
pub open spec fn reset_seq() -> Seq<char> {
    seq!['\x1b', '[', '0', 'm']
}

/// `plain` wrapped in the ANSI foreground style with the numeric `code`.
pub open spec fn ansi_styled(plain: Seq<char>, code: Seq<char>) -> Seq<char> {
    seq!['\x1b', '['] + code + seq!['m'] + plain + reset_seq()
}

/// `out` is what styling may make of `plain`: the text itself when coloring is
/// off, or the text wrapped in the style when it is on (for text that holds no
/// reset sequence of its own).
pub open spec fn painted_as(plain: Seq<char>, code: Seq<char>, out: Seq<char>) -> bool {
    !contains(plain, reset_seq()) ==> (out == plain || out == ansi_styled(plain, code))
}

pub open spec fn red_code() -> Seq<char> {
    seq!['3', '1']
}

pub open spec fn green_code() -> Seq<char> {
    seq!['3', '2']
}

pub open spec fn blue_code() -> Seq<char> {
    seq!['3', '4']
}

/// Relies on colored's `Colorize::green` and `Display for ColoredString`: the
/// text unchanged when coloring is off, else `ESC[32m`, the text, `ESC[0m`.
#[verifier::external_body]
pub(crate) fn paint_green(s: &str) -> (r: String)
    ensures
        painted_as(s@, green_code(), r@),
{
    s.green().to_string()
}

/// Relies on colored's `Colorize::red` and `Display for ColoredString`: the
/// text unchanged when coloring is off, else `ESC[31m`, the text, `ESC[0m`.
#[verifier::external_body]
pub(crate) fn paint_red(s: &str) -> (r: String)
    ensures
        painted_as(s@, red_code(), r@),
{
    s.red().to_string()
}

/// Relies on colored's `Colorize::blue` and `Display for ColoredString`: the
/// text unchanged when coloring is off, else `ESC[34m`, the text, `ESC[0m`.
#[verifier::external_body]
pub(crate) fn paint_blue(s: &str) -> (r: String)
    ensures
        painted_as(s@, blue_code(), r@),
{
    s.blue().to_string()
}

} // verus!
