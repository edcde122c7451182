//! Coloured text.
//!
//! Colours are those of the crate `colored`. Whether it colours at all is a
//! setting of the process: the environment and the terminal decide, unless the
//! program has overruled them.

use crate::text::{holds, parts_are_held};
use colored::Colorize;
use vstd::prelude::*;

verus! {

/// The escape sequence that ends a colour.
pub open spec fn reset() -> Seq<char> {
    "\u{1b}[0m"@
}

/// The escape sequence that starts red text.
pub open spec fn red() -> Seq<char> {
    "\u{1b}[31m"@
}

/// The escape sequence that starts yellow text.
pub open spec fn yellow() -> Seq<char> {
    "\u{1b}[33m"@
}

/// The escape sequence that starts magenta text.
pub open spec fn magenta() -> Seq<char> {
    "\u{1b}[35m"@
}

/// The escape sequence that starts cyan text.
pub open spec fn cyan() -> Seq<char> {
    "\u{1b}[36m"@
}

/// `text` with `style` started anew after each reset inside it.
pub open spec fn resumed(text: Seq<char>, style: Seq<char>) -> Seq<char>
    decreases text.len(),
{
    if text.len() < 4 {
        text
    } else if text.take(4) == reset() {
        reset() + style + resumed(text.skip(4), style)
    } else {
        seq![text[0]] + resumed(text.skip(1), style)
    }
}

/// Whether `shown` is `text` as it is printed in the colour that `style` starts.
///
/// Without colours it is the text itself. With them it is the text between
/// `style` and a reset, the style taken up again after each reset inside the
/// text. The setting is read once for each of these pieces: where another thread
/// changes it meanwhile, the pieces read before or after the change are missing.
pub open spec fn painted(shown: Seq<char>, text: Seq<char>, style: Seq<char>) -> bool {
    ||| shown == text
    ||| shown == style + resumed(text, style) + reset()
    ||| shown == style + text + reset()
    ||| shown == resumed(text, style) + reset()
    ||| shown == text + reset()
}

/// Prints `text` in red.
///
/// Calls `Colorize::red` and prints its result.
#[verifier::external_body]
pub(crate) fn paint_red(text: &str) -> (shown: String)
    ensures
        painted(shown@, text@, red()),
{
    text.red().to_string()
}

/// Prints `text` in yellow.
///
/// Calls `Colorize::yellow` and prints its result.
#[verifier::external_body]
pub(crate) fn paint_yellow(text: &str) -> (shown: String)
    ensures
        painted(shown@, text@, yellow()),
{
    text.yellow().to_string()
}

/// Prints `text` in magenta.
///
/// Calls `Colorize::magenta` and prints its result.
#[verifier::external_body]
pub(crate) fn paint_magenta(text: &str) -> (shown: String)
    ensures
        painted(shown@, text@, magenta()),
{
    text.magenta().to_string()
}

/// Prints `text` in cyan.
///
/// Calls `Colorize::cyan` and prints its result.
#[verifier::external_body]
pub(crate) fn paint_cyan(text: &str) -> (shown: String)
    ensures
        painted(shown@, text@, cyan()),
{
    text.cyan().to_string()
}

/// Prints `text` without any colour.
///
/// Calls `Colorize::normal` and prints its result, which is the text itself
/// whether or not colours are on.
#[verifier::external_body]
pub(crate) fn paint_plain(text: &str) -> (shown: String)
    ensures
        shown@ == text@,
{
    text.normal().to_string()
}

/// Text that holds no reset needs no style taken up again.
pub(crate) proof fn lemma_resumed(text: Seq<char>, style: Seq<char>)
    requires
        !holds(text, reset()),
    ensures
        resumed(text, style) == text,
    decreases text.len(),
{
    reveal_strlit("\u{1b}[0m");
    if text.len() >= 4 {
        assert(text.subrange(0, 0int + reset().len()) =~= text.take(4));
        let rest = text.skip(1);
        assert forall|i: int| 0 <= i <= rest.len() - reset().len() implies #[trigger] rest.subrange(
            i,
            i + reset().len(),
        ) != reset() by {
            assert(rest.subrange(i, i + reset().len()) =~= text.subrange(
                i + 1,
                i + 1 + reset().len(),
            ));
        }
        lemma_resumed(rest, style);
        assert(seq![text[0]] + rest =~= text);
    }
}

/// A text that holds no reset can be read in what is printed for it, coloured or
/// not.
pub proof fn painted_text_is_legible(shown: Seq<char>, text: Seq<char>, style: Seq<char>)
    requires
        painted(shown, text, style),
        !holds(text, reset()),
    ensures
        holds(shown, text),
{
    lemma_resumed(text, style);
    let none = Seq::<char>::empty();
    parts_are_held(none, text, none);
    parts_are_held(none, text, reset());
    parts_are_held(style, text, reset());
    assert(none + text + none =~= text);
    assert(none + text + reset() =~= text + reset());
}

} // verus!
