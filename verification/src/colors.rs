//! Colouring of terminal text with ANSI escape sequences, through the
//! `colorize` crate.

use vstd::prelude::*;
use colorize::AnsiColor;

verus! {

/// The escape that opens an ANSI control sequence.
pub open spec fn csi() -> Seq<char> {
    seq!['\u{1b}', '[']
}

/// A sequence that sets the foreground and background colours back,
/// `ESC [ 0 ; <fg> ; <bg> m`.
pub open spec fn is_reset_tail(t: Seq<char>) -> bool {
    &&& t.len() >= 5
    &&& t.take(4) == csi() + seq!['0', ';']
    &&& t.last() == 'm'
}

/// `out` is `text` coloured with the ANSI attribute `code`: a text that
/// already opens with an escape gets the attribute added to that escape;
/// any other text is wrapped between the attribute and a sequence that
/// restores the global colours.
pub open spec fn colored(code: Seq<char>, text: Seq<char>, out: Seq<char>) -> bool {
    if text.len() >= 2 && text[0] == '\u{1b}' && text[1] == '[' {
        out == csi() + code + seq![';'] + text.skip(2)
    } else {
        exists|tail: Seq<char>|
            is_reset_tail(tail) && out == csi() + code + seq!['m'] + text + tail
    }
}

/// The ANSI attribute of a yellow foreground.
pub open spec fn yellow_code() -> Seq<char> {
    seq!['3', '3']
}

/// The ANSI attribute of a red foreground.
pub open spec fn red_code() -> Seq<char> {
    seq!['3', '1']
}

/// The ANSI attribute of a green foreground.
pub open spec fn green_code() -> Seq<char> {
    seq!['3', '2']
}

/// `colorize::AnsiColor::yellow` on a `String`. Its source (`internal::pack`
/// with `Color::Yellow = 33`) either merges the attribute into an opening
/// escape (dropping the escape's first two characters) or wraps the text
/// between `ESC[33m` and `ESC[0;<fg>;<bg>m`. The two numbers of that last
/// sequence come from thread-local colours that `colorize::global_fg` and
/// `global_bg` set, so the contract does not fix them.
#[verifier::external_body]
pub(crate) fn paint_yellow(text: String) -> (r: String)
    ensures
        colored(yellow_code(), text@, r@),
{
    text.yellow()
}

/// `colorize::AnsiColor::red` on a `String`: as `paint_yellow`, with the
/// attribute `Color::Red = 31`.
#[verifier::external_body]
pub(crate) fn paint_red(text: String) -> (r: String)
    ensures
        colored(red_code(), text@, r@),
{
    text.red()
}

/// `colorize::AnsiColor::green` on a `String`: as `paint_yellow`, with the
/// attribute `Color::Green = 32`.
#[verifier::external_body]
pub(crate) fn paint_green(text: String) -> (r: String)
    ensures
        colored(green_code(), text@, r@),
{
    text.green()
}

} // verus!
