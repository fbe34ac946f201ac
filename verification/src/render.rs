//! The board as text, for a player to read.

use crate::board::{Board, Grid};
use vstd::prelude::*;
use vstd::string::StringExecFns;

verus! {

/// One row of the picture: the three marks with bars between them.
pub open spec fn spec_render_row(row: Seq<char>) -> Seq<char> {
    seq![row[0]] + "  |  "@ + seq![row[1]] + "  |  "@ + seq![row[2]]
}

/// The picture of a grid: the column numbers on top, the row numbers on
/// the left, and lines between the cells.
pub open spec fn spec_render(g: Grid) -> Seq<char> {
    "  0     1     2\n             |     |\n    0     "@ + spec_render_row(g[0])
        + "\n        _____|_____|_____\n             |     |\n    1     "@ + spec_render_row(
        g[1],
    ) + "\n        _____|_____|_____\n             |     |\n    2     "@ + spec_render_row(g[2])
        + "\n             |     |     "@
}

/// Appends one character to `text`.
///
/// Trusted: this is `String::push` of the standard library, which puts
/// the character at the end of the string and changes nothing else.
#[verifier::external_body]
fn push_char(text: &mut String, c: char)
    ensures
        final(text)@ == old(text)@.push(c),
{
    text.push(c);
}

/// Appends the picture of one row to `text`.
fn render_row(text: &mut String, row: &[char; 3])
    ensures
        final(text)@ == old(text)@ + spec_render_row(row@),
{
    let ghost before = text@;
    push_char(text, row[0]);
    text.append("  |  ");
    push_char(text, row[1]);
    text.append("  |  ");
    push_char(text, row[2]);
    assert(text@ =~= before + spec_render_row(row@));
}

impl Board {
    /// The board as a picture of three rows and three columns, with the
    /// numbers of the columns on top and those of the rows on the left.
    pub fn render(&self) -> (text: String)
        ensures
            text@ == spec_render(self@),
    {
        let mut text = String::new();
        text.append("  0     1     2\n             |     |\n    0     ");
        render_row(&mut text, &self.grid[0]);
        text.append("\n        _____|_____|_____\n             |     |\n    1     ");
        render_row(&mut text, &self.grid[1]);
        text.append("\n        _____|_____|_____\n             |     |\n    2     ");
        render_row(&mut text, &self.grid[2]);
        text.append("\n             |     |     ");
        assert(text@ =~= spec_render(self@));
        text
    }
}

} // verus!
