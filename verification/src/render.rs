//! The text in which a board is shown: a legend that numbers the squares,
//! and the grid of marks.

use crate::board::{Board, Cell};
use vstd::prelude::*;

verus! {

/// The three characters that show one square.
pub open spec fn cell_text(cell: Cell) -> Seq<char> {
    match cell {
        Cell::Empty => "   "@,
        Cell::X => " X "@,
        Cell::O => " O "@,
    }
}

/// The line of dashes that separates two rows.
pub open spec fn rule_text() -> Seq<char> {
    "-----------\n"@
}

/// One row of the grid: its three squares, separated by bars, and a line
/// break.
pub open spec fn row_text(cells: Seq<Cell>, row: int) -> Seq<char> {
    cell_text(cells[3 * row]) + "|"@ + cell_text(cells[3 * row + 1]) + "|"@ + cell_text(
        cells[3 * row + 2],
    ) + "\n"@
}

/// The grid: the three rows from top to bottom, with a rule between each two.
pub open spec fn grid_text(cells: Seq<Cell>) -> Seq<char> {
    row_text(cells, 0) + rule_text() + row_text(cells, 1) + rule_text() + row_text(cells, 2)
}

/// The legend: a grid that shows in each square the index that names it.
pub open spec fn legend_text() -> Seq<char> {
    " 0 | 1 | 2 \n"@ + rule_text() + " 3 | 4 | 5 \n"@ + rule_text() + " 6 | 7 | 8 \n"@
}

/// What is shown before a turn: the legend, an empty line, the grid, and
/// another empty line.
pub open spec fn display_text(cells: Seq<Cell>) -> Seq<char> {
    legend_text() + "\n"@ + grid_text(cells) + "\n"@
}

/// The text that shows one square.
fn cell_str(cell: Cell) -> (text: &'static str)
    ensures
        text@ == cell_text(cell),
{
    match cell {
        Cell::Empty => "   ",
        Cell::X => " X ",
        Cell::O => " O ",
    }
}

/// Appends the row with number `row` to `text`.
fn append_row(text: &mut String, board: &Board, row: usize)
    requires
        row < 3,
    ensures
        final(text)@ == old(text)@ + row_text(board@, row as int),
{
    proof {
        board.lemma_nine_cells();
    }
    let first = 3 * row;
    let ghost before = text@;
    let left = board.cell(first).unwrap();
    let middle = board.cell(first + 1).unwrap();
    let right = board.cell(first + 2).unwrap();
    text.append(cell_str(left));
    text.append("|");
    text.append(cell_str(middle));
    text.append("|");
    text.append(cell_str(right));
    text.append("\n");
    assert(text@ =~= before + row_text(board@, row as int));
}

/// The legend that numbers the squares.
pub fn legend() -> (text: String)
    ensures
        text@ == legend_text(),
{
    let mut text = String::new();
    text.append(" 0 | 1 | 2 \n");
    text.append("-----------\n");
    text.append(" 3 | 4 | 5 \n");
    text.append("-----------\n");
    text.append(" 6 | 7 | 8 \n");
    assert(text@ =~= legend_text());
    text
}

impl Board {
    /// The grid of marks, as text.
    pub fn render(&self) -> (text: String)
        ensures
            text@ == grid_text(self@),
    {
        let mut text = String::new();
        append_row(&mut text, self, 0);
        text.append("-----------\n");
        append_row(&mut text, self, 1);
        text.append("-----------\n");
        append_row(&mut text, self, 2);
        assert(text@ =~= grid_text(self@));
        text
    }

    /// The text shown before a turn: the legend, an empty line, the grid of
    /// marks, and another empty line.
    pub fn display(&self) -> (text: String)
        ensures
            text@ == display_text(self@),
    {
        let mut text = legend();
        text.append("\n");
        let grid = self.render();
        text.append(grid.as_str());
        text.append("\n");
        assert(text@ =~= display_text(self@));
        text
    }
}

} // verus!
