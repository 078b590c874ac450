//! Terminal styling of short texts through the `colored` crate.
//!
//! Whether `colored` emits escape sequences depends on the process's
//! environment (`CLICOLOR`, `CLICOLOR_FORCE`, `NO_COLOR`, whether standard
//! output is a terminal, and any override set at run time), so what a styled
//! text looks like is stated as one of two outcomes: the text unchanged, or
//! the text between the style's escape sequence and the reset sequence.

use colored::Colorize;
use vstd::prelude::*;

verus! {

/// The escape sequence that resets all styling.
pub open spec fn sgr_reset() -> Seq<char> {
    seq!['\u{1b}', '[', '0', 'm']
}

/// The escape sequence that selects the style with parameter `code`.
pub open spec fn sgr(code: Seq<char>) -> Seq<char> {
    seq!['\u{1b}', '['] + code + seq!['m']
}

/// `s` with `style` inserted after every reset sequence in it, so that a
/// reset inside the text does not end the outer style early.
pub open spec fn restyle_resets(s: Seq<char>, style: Seq<char>) -> Seq<char>
    decreases s.len(),
{
    if s.len() == 0 {
        Seq::empty()
    } else if s.len() >= 4 && s.take(4) == sgr_reset() {
        sgr_reset() + style + restyle_resets(s.skip(4), style)
    } else {
        seq![s[0]] + restyle_resets(s.drop_first(), style)
    }
}

/// `text` rendered in the style with parameter `code` when styling is on.
pub open spec fn ansi_styled(code: Seq<char>, text: Seq<char>) -> Seq<char> {
    sgr(code) + restyle_resets(text, sgr(code)) + sgr_reset()
}

/// Whether `out` is one of the two renderings of `text` in the style with
/// parameter `code`: plain, or styled.
pub open spec fn is_styled(code: Seq<char>, text: Seq<char>, out: Seq<char>) -> bool {
    out == text || out == ansi_styled(code, text)
}

/// The style parameter of yellow text.
pub open spec fn yellow_code() -> Seq<char> {
    seq!['3', '3']
}

/// The style parameter of bold text.
pub open spec fn bold_code() -> Seq<char> {
    seq!['1']
}

/// The style parameter of cyan text.
pub open spec fn cyan_code() -> Seq<char> {
    seq!['3', '6']
}

/// The style parameter of blue text.
pub open spec fn blue_code() -> Seq<char> {
    seq!['3', '4']
}

/// The style parameter of green text.
pub open spec fn green_code() -> Seq<char> {
    seq!['3', '2']
}

/// `colored::Colorize::yellow`, displayed: `text` plain, or in yellow.
#[verifier::external_body]
pub(crate) fn yellow(text: &str) -> (r: String)
    ensures
        is_styled(yellow_code(), text@, r@),
{
    text.yellow().to_string()
}

/// `colored::Colorize::bold`, displayed: `text` plain, or in bold.
#[verifier::external_body]
pub(crate) fn bold(text: &str) -> (r: String)
    ensures
        is_styled(bold_code(), text@, r@),
{
    text.bold().to_string()
}

/// `colored::Colorize::cyan`, displayed: `text` plain, or in cyan.
#[verifier::external_body]
pub(crate) fn cyan(text: &str) -> (r: String)
    ensures
        is_styled(cyan_code(), text@, r@),
{
    text.cyan().to_string()
}

/// `colored::Colorize::blue`, displayed: `text` plain, or in blue.
#[verifier::external_body]
pub(crate) fn blue(text: &str) -> (r: String)
    ensures
        is_styled(blue_code(), text@, r@),
{
    text.blue().to_string()
}

/// `colored::Colorize::green`, displayed: `text` plain, or in green.
#[verifier::external_body]
pub(crate) fn green(text: &str) -> (r: String)
    ensures
        is_styled(green_code(), text@, r@),
{
    text.green().to_string()
}

} // verus!
