//! Terminal styles, as the `console` crate writes them.
use vstd::prelude::*;

verus! {

/// `text` the way it is written to a terminal: behind the escape codes of its style and
/// before a reset if colors are on, and as it is otherwise.
pub open spec fn styled(text: Seq<char>, codes: Seq<char>, colors: bool) -> Seq<char> {
    if colors {
        codes + text + "\u{1b}[0m"@
    } else {
        text
    }
}

/// Calls [`console::style`] and its `bold`. The text comes back behind the code for bold and
/// before a reset, or unchanged; which of the two is up to the terminal, the environment and
/// `console::set_colors_enabled`, and is not stated.
#[verifier::external_body]
pub(crate) fn bold(text: &str) -> (r: String)
    ensures
        exists|colors: bool| r@ == #[trigger] styled(text@, "\u{1b}[1m"@, colors),
{
    console::style(text).bold().to_string()
}

/// Calls [`console::style`] and its `cyan`. The text comes back behind the code for cyan and
/// before a reset, or unchanged; which of the two is up to the terminal, the environment and
/// `console::set_colors_enabled`, and is not stated.
#[verifier::external_body]
pub(crate) fn cyan(text: &str) -> (r: String)
    ensures
        exists|colors: bool| r@ == #[trigger] styled(text@, "\u{1b}[36m"@, colors),
{
    console::style(text).cyan().to_string()
}

/// Calls [`console::style`] and its `green`. The text comes back behind the code for green
/// and before a reset, or unchanged; which of the two is up to the terminal, the environment
/// and `console::set_colors_enabled`, and is not stated.
#[verifier::external_body]
pub(crate) fn green(text: &str) -> (r: String)
    ensures
        exists|colors: bool| r@ == #[trigger] styled(text@, "\u{1b}[32m"@, colors),
{
    console::style(text).green().to_string()
}

/// Calls [`console::style`] and its `yellow`. The text comes back behind the code for yellow
/// and before a reset, or unchanged; which of the two is up to the terminal, the environment
/// and `console::set_colors_enabled`, and is not stated.
#[verifier::external_body]
pub(crate) fn yellow(text: &str) -> (r: String)
    ensures
        exists|colors: bool| r@ == #[trigger] styled(text@, "\u{1b}[33m"@, colors),
{
    console::style(text).yellow().to_string()
}

/// Calls [`console::style`] and its `red` and `bold`. The text comes back behind the codes for
/// red and bold and before a reset, or unchanged; which of the two is up to the terminal, the
/// environment and `console::set_colors_enabled`, and is not stated.
#[verifier::external_body]
pub(crate) fn red_bold(text: &str) -> (r: String)
    ensures
        exists|colors: bool| r@ == #[trigger] styled(text@, "\u{1b}[31m\u{1b}[1m"@, colors),
{
    console::style(text).red().bold().to_string()
}

/// Calls [`console::style`] and its `cyan` and `bold`. The text comes back behind the codes for
/// cyan and bold and before a reset, or unchanged; which of the two is up to the terminal, the
/// environment and `console::set_colors_enabled`, and is not stated.
#[verifier::external_body]
pub(crate) fn cyan_bold(text: &str) -> (r: String)
    ensures
        exists|colors: bool| r@ == #[trigger] styled(text@, "\u{1b}[36m\u{1b}[1m"@, colors),
{
    console::style(text).cyan().bold().to_string()
}

/// Calls [`console::style`] and its `yellow` and `bold`. The text comes back behind the codes
/// for yellow and bold and before a reset, or unchanged; which of the two is up to the terminal,
/// the environment and `console::set_colors_enabled`, and is not stated.
#[verifier::external_body]
pub(crate) fn yellow_bold(text: &str) -> (r: String)
    ensures
        exists|colors: bool| r@ == #[trigger] styled(text@, "\u{1b}[33m\u{1b}[1m"@, colors),
{
    console::style(text).yellow().bold().to_string()
}

} // verus!
