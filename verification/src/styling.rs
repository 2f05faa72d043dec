//! The text styling module: twelve stateless transforms, each applied to
//! every argument of a call, with the results concatenated in order.
//!
//! The transforms themselves come from the `colored` crate, which may be
//! globally disabled (then each input passes through unchanged) and which
//! re-styles inner reset sequences; the contracts state exactly that.
use vstd::prelude::*;

use crate::text;

use colored::Colorize;

verus! {

/// The reset sequence that ends every styled span.
pub open spec fn reset_seq() -> Seq<char> {
    "\u{1b}[0m"@
}

/// `s` wrapped in the escape sequence selected by `code`.
pub open spec fn wrapped(code: Seq<char>, s: Seq<char>) -> Seq<char> {
    "\u{1b}["@ + code + "m"@ + s + reset_seq()
}

/// The twelve transforms of the styling module.
#[derive(Clone, Copy, PartialEq, Eq, Structural, Debug)]
pub enum StyleKind {
    Red,
    Green,
    Yellow,
    Blue,
    Magenta,
    Cyan,
    White,
    Black,
    Bold,
    Italic,
    Underline,
    Reverse,
}

/// The escape code each transform selects.
pub open spec fn style_code(k: StyleKind) -> Seq<char> {
    match k {
        StyleKind::Red => "31"@,
        StyleKind::Green => "32"@,
        StyleKind::Yellow => "33"@,
        StyleKind::Blue => "34"@,
        StyleKind::Magenta => "35"@,
        StyleKind::Cyan => "36"@,
        StyleKind::White => "37"@,
        StyleKind::Black => "30"@,
        StyleKind::Bold => "1"@,
        StyleKind::Italic => "3"@,
        StyleKind::Underline => "4"@,
        StyleKind::Reverse => "7"@,
    }
}

/// What one transform may yield for one input: the input unchanged when
/// styling is globally disabled; otherwise the wrapped input; an input
/// that itself holds a reset sequence is re-styled inside and is not
/// pinned down further here.
pub open spec fn piece_ok(k: StyleKind, arg: Seq<char>, piece: Seq<char>) -> bool {
    ||| piece == arg
    ||| piece == wrapped(style_code(k), arg)
    ||| text::contains_sub(arg, reset_seq())
}

/// Relies on colored::Colorize::red: the output is the input unchanged
/// when colorizing is off, else the input wrapped in the red sequence
/// (inner resets excepted).
#[verifier::external_body]
fn paint_red(s: &str) -> (r: String)
    ensures
        piece_ok(StyleKind::Red, s@, r@),
{
    s.red().to_string()
}

/// Relies on colored::Colorize::green, as for the red transform.
#[verifier::external_body]
fn paint_green(s: &str) -> (r: String)
    ensures
        piece_ok(StyleKind::Green, s@, r@),
{
    s.green().to_string()
}

/// Relies on colored::Colorize::yellow, as for the red transform.
#[verifier::external_body]
fn paint_yellow(s: &str) -> (r: String)
    ensures
        piece_ok(StyleKind::Yellow, s@, r@),
{
    s.yellow().to_string()
}

/// Relies on colored::Colorize::blue, as for the red transform.
#[verifier::external_body]
fn paint_blue(s: &str) -> (r: String)
    ensures
        piece_ok(StyleKind::Blue, s@, r@),
{
    s.blue().to_string()
}

/// Relies on colored::Colorize::magenta, as for the red transform.
#[verifier::external_body]
fn paint_magenta(s: &str) -> (r: String)
    ensures
        piece_ok(StyleKind::Magenta, s@, r@),
{
    s.magenta().to_string()
}

/// Relies on colored::Colorize::cyan, as for the red transform.
#[verifier::external_body]
fn paint_cyan(s: &str) -> (r: String)
    ensures
        piece_ok(StyleKind::Cyan, s@, r@),
{
    s.cyan().to_string()
}

/// Relies on colored::Colorize::white, as for the red transform.
#[verifier::external_body]
fn paint_white(s: &str) -> (r: String)
    ensures
        piece_ok(StyleKind::White, s@, r@),
{
    s.white().to_string()
}

/// Relies on colored::Colorize::black, as for the red transform.
#[verifier::external_body]
fn paint_black(s: &str) -> (r: String)
    ensures
        piece_ok(StyleKind::Black, s@, r@),
{
    s.black().to_string()
}

/// Relies on colored::Colorize::bold, as for the red transform.
#[verifier::external_body]
fn paint_bold(s: &str) -> (r: String)
    ensures
        piece_ok(StyleKind::Bold, s@, r@),
{
    s.bold().to_string()
}

/// Relies on colored::Colorize::italic, as for the red transform.
#[verifier::external_body]
fn paint_italic(s: &str) -> (r: String)
    ensures
        piece_ok(StyleKind::Italic, s@, r@),
{
    s.italic().to_string()
}

/// Relies on colored::Colorize::underline, as for the red transform.
#[verifier::external_body]
fn paint_underline(s: &str) -> (r: String)
    ensures
        piece_ok(StyleKind::Underline, s@, r@),
{
    s.underline().to_string()
}

/// Relies on colored::Colorize::reversed, as for the red transform.
#[verifier::external_body]
fn paint_reverse(s: &str) -> (r: String)
    ensures
        piece_ok(StyleKind::Reverse, s@, r@),
{
    s.reversed().to_string()
}

/// One input through the transform of `kind`.
pub fn paint(kind: StyleKind, s: &str) -> (r: String)
    ensures
        piece_ok(kind, s@, r@),
{
    match kind {
        StyleKind::Red => paint_red(s),
        StyleKind::Green => paint_green(s),
        StyleKind::Yellow => paint_yellow(s),
        StyleKind::Blue => paint_blue(s),
        StyleKind::Magenta => paint_magenta(s),
        StyleKind::Cyan => paint_cyan(s),
        StyleKind::White => paint_white(s),
        StyleKind::Black => paint_black(s),
        StyleKind::Bold => paint_bold(s),
        StyleKind::Italic => paint_italic(s),
        StyleKind::Underline => paint_underline(s),
        StyleKind::Reverse => paint_reverse(s),
    }
}

/// `pieces` are the arguments one by one through the transform of `k`,
/// and `out` is their concatenation in order.
pub open spec fn styling_of(
    k: StyleKind,
    args: Seq<Seq<char>>,
    pieces: Seq<Seq<char>>,
    out: Seq<char>,
) -> bool {
    &&& pieces.len() == args.len()
    &&& (forall|i: int| 0 <= i < args.len() ==> piece_ok(k, args[i], pieces[i]))
    &&& out == text::concat_all(pieces)
}

/// One styling call: every argument in order is passed through the
/// transform of `kind` and the results are concatenated.
pub fn style(kind: StyleKind, args: &Vec<String>) -> (r: String)
    ensures
        exists|pieces: Seq<Seq<char>>| styling_of(kind, args.deep_view(), pieces, r@),
{
    let mut out = String::new();
    let ghost mut pieces: Seq<Seq<char>> = Seq::empty();
    let mut i: usize = 0;
    while i < args.len()
        invariant
            i <= args@.len(),
            pieces.len() == i,
            forall|j: int| 0 <= j < i ==> piece_ok(kind, args.deep_view()[j], pieces[j]),
            out@ == text::concat_all(pieces),
        decreases args@.len() - i,
    {
        let piece = paint(kind, args[i].as_str());
        out.append(piece.as_str());
        proof {
            let prev = pieces;
            pieces = pieces.push(piece@);
            assert(pieces.drop_last() =~= prev);
            assert(args.deep_view()[i as int] == args@[i as int]@);
        }
        i += 1;
    }
    proof {
        assert(styling_of(kind, args.deep_view(), pieces, out@));
    }
    out
}

} // verus!
