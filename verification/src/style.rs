//! The text-styling collaborator. Styling a string wraps it in terminal
//! escape sequences (or leaves it alone when colors are off); the text itself
//! is kept intact as long as it holds no escape character of its own.

use vstd::prelude::*;
use colored::Colorize;

verus! {

/// The terminal escape character that styling inserts around text.
pub open spec fn esc_char() -> char {
    '\u{1b}'
}

/// Plain text: no escape character anywhere, so styling only wraps it.
pub open spec fn plain_text(s: Seq<char>) -> bool {
    forall|i: int| 0 <= i < s.len() ==> #[trigger] s[i] != esc_char()
}

/// `styled` carries `plain` intact, with decoration (possibly none) around it.
pub open spec fn is_styled(styled: Seq<char>, plain: Seq<char>) -> bool {
    exists|a: Seq<char>, b: Seq<char>| styled == #[trigger] (a + plain + b)
}

/// Relies on colored::Colorize::yellow and Colorize::bold, and on
/// ColoredString's Display: rendering writes an optional style prefix, the
/// text, and an optional reset suffix; the text is rewritten only where it
/// already holds escape sequences of its own.
#[verifier::external_body]
pub(crate) fn style_start_tag(s: &str) -> (r: String)
    ensures
        plain_text(s@) ==> is_styled(r@, s@),
{
    s.yellow().bold().to_string()
}

/// Relies on colored::Colorize::green and Colorize::bold, and on
/// ColoredString's Display, as `style_start_tag` does.
#[verifier::external_body]
pub(crate) fn style_end_tag(s: &str) -> (r: String)
    ensures
        plain_text(s@) ==> is_styled(r@, s@),
{
    s.green().bold().to_string()
}

/// Relies on colored::Colorize::bold and ColoredString's Display, as
/// `style_start_tag` does.
#[verifier::external_body]
pub(crate) fn style_emphasis(s: &str) -> (r: String)
    ensures
        plain_text(s@) ==> is_styled(r@, s@),
{
    s.bold().to_string()
}

/// Relies on colored::Colorize::white and ColoredString's Display, as
/// `style_start_tag` does.
#[verifier::external_body]
pub(crate) fn style_pad(s: &str) -> (r: String)
    ensures
        plain_text(s@) ==> is_styled(r@, s@),
{
    s.white().to_string()
}

} // verus!
