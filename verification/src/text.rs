//! The terminal toolkit's text values, as far as the grid hands rows to them.
//!
//! Nothing here is proved: each contract says what the toolkit's source shows.

use vstd::prelude::*;
use ratatui::text::{Line, Text};

verus! {

/// `ratatui::text::Line`: one line of styled spans. Opaque here.
#[verifier::external_type_specification]
#[verifier::external_body]
pub struct ExLine<'a>(Line<'a>);

/// `ratatui::text::Text`: lines of styled spans. Opaque here.
#[verifier::external_type_specification]
#[verifier::external_body]
pub struct ExText<'a>(Text<'a>);

/// The characters that a line holds: the contents of its spans, in order.
pub uninterp spec fn line_text(line: Line<'static>) -> Seq<char>;

/// The lines that a text holds, each by its characters, in order.
pub uninterp spec fn text_lines(text: Text<'static>) -> Seq<Seq<char>>;

/// `Line::from` for a `String`. The toolkit cuts the content at line breaks
/// and makes one unstyled span of each piece; content without a line break
/// stays whole, so the line holds exactly the content.
#[verifier::external_body]
pub(crate) fn line_from_string(content: String) -> (line: Line<'static>)
    requires
        forall|i: int| 0 <= i < content@.len() ==> content@[i] != '\n',
    ensures
        line_text(line) == content@,
{
    Line::from(content)
}

/// `Text::from` for a `Vec` of lines. The text holds the given lines, in the
/// given order, with the default style and alignment.
#[verifier::external_body]
pub(crate) fn text_from_lines(lines: Vec<Line<'static>>) -> (text: Text<'static>)
    ensures
        text_lines(text) == lines@.map_values(|line: Line<'static>| line_text(line)),
{
    Text::from(lines)
}

} // verus!
