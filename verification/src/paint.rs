//! Terminal colors.

use colored::Colorize;
use vstd::prelude::*;

verus! {

/// The colors in use.
#[derive(Debug, Clone, Copy, PartialEq, Eq, Structural)]
pub enum Tint {
    Red,
    Green,
    Yellow,
}

/// The number that selects a color in a terminal escape sequence.
pub open spec fn tint_code(tint: Tint) -> Seq<char> {
    match tint {
        Tint::Red => "31"@,
        Tint::Green => "32"@,
        Tint::Yellow => "33"@,
    }
}

/// `out` is `text` as it is, or `text` between the escape sequence for `code` and the reset.
pub open spec fn is_painted(out: Seq<char>, text: Seq<char>, code: Seq<char>) -> bool {
    out == text || out == "\x1b["@ + code + "m"@ + text + "\x1b[0m"@
}

/// `Colorize::color` of the `colored` crate, shown with `to_string`: the text in the color, or
/// the bare text where the environment asks for no colors. Nothing is said of text that itself
/// holds an escape character.
#[verifier::external_body]
pub(crate) fn paint(text: &str, tint: Tint) -> (out: String)
    ensures
        !text@.contains('\x1b') ==> is_painted(out@, text@, tint_code(tint)),
{
    let color = match tint {
        Tint::Red => colored::Color::Red,
        Tint::Green => colored::Color::Green,
        Tint::Yellow => colored::Color::Yellow,
    };
    text.color(color).to_string()
}

/// `Colorize::bold` of the `colored` crate, applied to colored text and shown with `to_string`:
/// the text bold and in the color, or the bare text where the environment asks for no colors.
/// Nothing is said of text that itself holds an escape character.
#[verifier::external_body]
pub(crate) fn paint_bold(text: &str, tint: Tint) -> (out: String)
    ensures
        !text@.contains('\x1b') ==> is_painted(out@, text@, "1;"@ + tint_code(tint)),
{
    let color = match tint {
        Tint::Red => colored::Color::Red,
        Tint::Green => colored::Color::Green,
        Tint::Yellow => colored::Color::Yellow,
    };
    text.color(color).bold().to_string()
}

/// Every color has its code in the escape sequences of terminals, and painting changes no character
/// of the text.
pub proof fn law_colors_have_their_codes(tint: Tint, out: Seq<char>, text: Seq<char>)
    ensures
        tint == Tint::Red ==> tint_code(tint) == seq!['3', '1'],
        tint == Tint::Green ==> tint_code(tint) == seq!['3', '2'],
        tint == Tint::Yellow ==> tint_code(tint) == seq!['3', '3'],
        is_painted(out, text, tint_code(tint)) && out != text ==> ({
            let n = out.len() as int;
            n == text.len() + 9 && out[0] == '\x1b' && out.subrange(5, n - 4) == text
        }),
{
    reveal_strlit("31");
    reveal_strlit("32");
    reveal_strlit("33");
    reveal_strlit("\x1b[");
    reveal_strlit("m");
    reveal_strlit("\x1b[0m");
    let code = tint_code(tint);
    if is_painted(out, text, code) && out != text {
        assert(out.subrange(5, out.len() - 4) =~= text);
    }
    assert(tint == Tint::Red ==> code =~= seq!['3', '1']);
    assert(tint == Tint::Green ==> code =~= seq!['3', '2']);
    assert(tint == Tint::Yellow ==> code =~= seq!['3', '3']);
}

} // verus!
