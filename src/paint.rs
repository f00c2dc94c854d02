use vstd::prelude::*;

use colored::Colorize;

verus! {

/// A text style of the terminal output.
#[derive(Debug, Clone, Copy, PartialEq, Eq, Structural)]
pub enum Paint {
    White,
    Magenta,
    Cyan,
    Reversed,
    Red,
    Yellow,
    /// Bright white on a black background.
    Highlight,
    Bold,
}

/// What `colored` writes for the text in white while colouring is on.
pub uninterp spec fn white_form(t: Seq<char>) -> Seq<char>;

/// What `colored` writes for the text in magenta while colouring is on.
pub uninterp spec fn magenta_form(t: Seq<char>) -> Seq<char>;

/// What `colored` writes for the text in cyan while colouring is on.
pub uninterp spec fn cyan_form(t: Seq<char>) -> Seq<char>;

/// What `colored` writes for the text with foreground and background swapped while colouring is on.
pub uninterp spec fn reversed_form(t: Seq<char>) -> Seq<char>;

/// What `colored` writes for the text in red while colouring is on.
pub uninterp spec fn red_form(t: Seq<char>) -> Seq<char>;

/// What `colored` writes for the text in yellow while colouring is on.
pub uninterp spec fn yellow_form(t: Seq<char>) -> Seq<char>;

/// What `colored` writes for the text in bold while colouring is on.
pub uninterp spec fn bold_form(t: Seq<char>) -> Seq<char>;

/// What `colored` writes for the text in bright white on black while colouring is on.
pub uninterp spec fn highlight_form(t: Seq<char>) -> Seq<char>;

/// Relies on `colored::Colorize::white` and its `Display`: the text unchanged while
/// colouring is off, else the text in white with its escape sequences.
#[verifier::external_body]
fn white_text(t: &str) -> (r: String)
    ensures
        r@ == t@ || r@ == white_form(t@),
{
    t.white().to_string()
}

/// Relies on `colored::Colorize::magenta` and its `Display`: the text unchanged while
/// colouring is off, else the text in magenta with its escape sequences.
#[verifier::external_body]
fn magenta_text(t: &str) -> (r: String)
    ensures
        r@ == t@ || r@ == magenta_form(t@),
{
    t.magenta().to_string()
}

/// Relies on `colored::Colorize::cyan` and its `Display`: the text unchanged while
/// colouring is off, else the text in cyan with its escape sequences.
#[verifier::external_body]
fn cyan_text(t: &str) -> (r: String)
    ensures
        r@ == t@ || r@ == cyan_form(t@),
{
    t.cyan().to_string()
}

/// Relies on `colored::Colorize::reversed` and its `Display`: the text unchanged while
/// colouring is off, else the text with foreground and background swapped with its escape sequences.
#[verifier::external_body]
fn reversed_text(t: &str) -> (r: String)
    ensures
        r@ == t@ || r@ == reversed_form(t@),
{
    t.reversed().to_string()
}

/// Relies on `colored::Colorize::red` and its `Display`: the text unchanged while
/// colouring is off, else the text in red with its escape sequences.
#[verifier::external_body]
fn red_text(t: &str) -> (r: String)
    ensures
        r@ == t@ || r@ == red_form(t@),
{
    t.red().to_string()
}

/// Relies on `colored::Colorize::yellow` and its `Display`: the text unchanged while
/// colouring is off, else the text in yellow with its escape sequences.
#[verifier::external_body]
fn yellow_text(t: &str) -> (r: String)
    ensures
        r@ == t@ || r@ == yellow_form(t@),
{
    t.yellow().to_string()
}

/// Relies on `colored::Colorize::bold` and its `Display`: the text unchanged while
/// colouring is off, else the text in bold with its escape sequences.
#[verifier::external_body]
fn bold_text(t: &str) -> (r: String)
    ensures
        r@ == t@ || r@ == bold_form(t@),
{
    t.bold().to_string()
}

/// Relies on `colored::Colorize::bright_white` and `on_black` and their `Display`: the
/// text unchanged while colouring is off, else in bright white on black.
#[verifier::external_body]
fn highlight_text(t: &str) -> (r: String)
    ensures
        r@ == t@ || r@ == highlight_form(t@),
{
    t.bright_white().on_black().to_string()
}

/// The text in a style, as `colored` writes it while colouring is on.
pub open spec fn painted(p: Paint, t: Seq<char>) -> Seq<char> {
    match p {
        Paint::White => white_form(t),
        Paint::Magenta => magenta_form(t),
        Paint::Cyan => cyan_form(t),
        Paint::Reversed => reversed_form(t),
        Paint::Red => red_form(t),
        Paint::Yellow => yellow_form(t),
        Paint::Highlight => highlight_form(t),
        Paint::Bold => bold_form(t),
    }
}

/// Whether `r` is what the text `t` in style `p` may look like: with colouring
/// asked for, `t` painted or left plain (the terminal switch of `colored` decides);
/// without, `t` itself.
pub open spec fn looks(p: Paint, t: Seq<char>, color: bool, r: Seq<char>) -> bool {
    if color {
        r == t || r == painted(p, t)
    } else {
        r == t
    }
}

/// The text in a style; plain text when `color` is false.
pub fn paint(t: &str, p: Paint, color: bool) -> (r: String)
    ensures
        looks(p, t@, color, r@),
        !color ==> r@ == t@,
{
    if !color {
        return t.to_owned();
    }
    match p {
        Paint::White => white_text(t),
        Paint::Magenta => magenta_text(t),
        Paint::Cyan => cyan_text(t),
        Paint::Reversed => reversed_text(t),
        Paint::Red => red_text(t),
        Paint::Yellow => yellow_text(t),
        Paint::Highlight => highlight_text(t),
        Paint::Bold => bold_text(t),
    }
}

} // verus!
