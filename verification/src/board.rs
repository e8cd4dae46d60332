//! The 3×3 board: its cells, the rules for placing a mark, and the queries
//! that decide whether a player has won or the board is full.

use vstd::prelude::*;

verus! {

/// One of the two participants of a game.
#[derive(Debug, Clone, Copy, PartialEq, Eq, Hash, Structural)]
pub enum Player {
    Human,
    Computer,
}

/// The content of one square of the board.
#[derive(Debug, Clone, Copy, PartialEq, Eq, Hash, Structural)]
pub enum Cell {
    Empty,
    X,
    O,
}

/// The error of a move that names no square of the board or a square that
/// already holds a mark.
#[derive(Debug, Clone, Copy, PartialEq, Eq, Structural)]
pub struct InvalidMove;

impl InvalidMove {
    /// The sentence that tells a player that the move was turned down.
    pub fn message(&self) -> (text: &'static str)
        ensures
            text@ == "Invalid move. Please try again."@,
    {
        "Invalid move. Please try again."
    }
}

impl Player {
    /// The mark a player writes: the human plays `X`, the computer `O`.
    pub open spec fn mark_of(self) -> Cell {
        match self {
            Player::Human => Cell::X,
            Player::Computer => Cell::O,
        }
    }

    /// The mark a player writes.
    #[verifier::when_used_as_spec(mark_of)]
    pub fn mark(self) -> (m: Cell)
        ensures
            m == self.mark_of(),
    {
        match self {
            Player::Human => Cell::X,
            Player::Computer => Cell::O,
        }
    }
}

/// The number of squares on the board.
pub const CELLS: usize = 9;

/// The eight lines that win the game, as triples of square indices: the
/// three rows, the three columns and the two diagonals.
pub open spec fn winning_lines() -> Seq<(int, int, int)> {
    seq![
        (0, 1, 2),
        (3, 4, 5),
        (6, 7, 8),
        (0, 3, 6),
        (1, 4, 7),
        (2, 5, 8),
        (0, 4, 8),
        (2, 4, 6),
    ]
}

/// All three squares of `line` hold `mark`.
pub open spec fn line_holds(cells: Seq<Cell>, line: (int, int, int), mark: Cell) -> bool {
    cells[line.0] == mark && cells[line.1] == mark && cells[line.2] == mark
}

/// Some winning line is entirely `mark`.
pub open spec fn has_line(cells: Seq<Cell>, mark: Cell) -> bool {
    exists|k: int| 0 <= k < winning_lines().len() && line_holds(cells, #[trigger] winning_lines()[k], mark)
}

/// No square is empty.
pub open spec fn all_marked(cells: Seq<Cell>) -> bool {
    forall|i: int| 0 <= i < cells.len() ==> cells[i] != Cell::Empty
}

/// A mark may be placed at `index`: the index names a square, and the square
/// is empty.
pub open spec fn legal_move(cells: Seq<Cell>, index: int) -> bool {
    0 <= index < cells.len() && cells[index] == Cell::Empty
}

/// The board after `player` has moved at `index`; an illegal move leaves the
/// board as it was.
pub open spec fn after_move(cells: Seq<Cell>, index: int, player: Player) -> Seq<Cell> {
    if legal_move(cells, index) {
        cells.update(index, player.mark_of())
    } else {
        cells
    }
}

/// The board after each move of `moves` has been tried in turn, an illegal
/// one changing nothing.
pub open spec fn after_moves(cells: Seq<Cell>, moves: Seq<(int, Player)>) -> Seq<Cell>
    decreases moves.len(),
{
    if moves.len() == 0 {
        cells
    } else {
        after_move(after_moves(cells, moves.drop_last()), moves.last().0, moves.last().1)
    }
}

/// A square that holds a mark keeps it: whatever moves are tried afterwards,
/// and in whatever order, the square's content stays what it was.
pub proof fn lemma_marks_are_permanent(cells: Seq<Cell>, moves: Seq<(int, Player)>, i: int)
    requires
        0 <= i < cells.len(),
        cells[i] != Cell::Empty,
    ensures
        after_moves(cells, moves).len() == cells.len(),
        after_moves(cells, moves)[i] == cells[i],
    decreases moves.len(),
{
    if moves.len() > 0 {
        lemma_marks_are_permanent(cells, moves.drop_last(), i);
    }
}

/// A move changes at most the square it names: every other square, and every
/// square of a board on which the move is illegal, stays as it was.
pub proof fn lemma_move_changes_one_square(cells: Seq<Cell>, index: int, player: Player, i: int)
    requires
        0 <= i < cells.len(),
        i != index || !legal_move(cells, index),
    ensures
        after_move(cells, index, player).len() == cells.len(),
        after_move(cells, index, player)[i] == cells[i],
{
}

/// A move gives a line to nobody but the player who made it: for any other
/// mark, the lines held after the move are those held before.
pub proof fn lemma_move_keeps_other_lines(cells: Seq<Cell>, index: int, player: Player, mark: Cell)
    requires
        cells.len() == CELLS,
        mark != Cell::Empty,
        mark != player.mark_of(),
    ensures
        has_line(after_move(cells, index, player), mark) == has_line(cells, mark),
{
    let moved = after_move(cells, index, player);
    assert forall|k: int| 0 <= k < winning_lines().len() implies line_holds(
        moved,
        #[trigger] winning_lines()[k],
        mark,
    ) == line_holds(cells, winning_lines()[k], mark) by {
        let line = winning_lines()[k];
        assert(0 <= line.0 < 9 && 0 <= line.1 < 9 && 0 <= line.2 < 9);
    }
}

/// On the empty board nobody holds a line, and the board is not full.
pub proof fn lemma_empty_board(mark: Cell)
    requires
        mark != Cell::Empty,
    ensures
        !has_line(Seq::new(CELLS as nat, |i: int| Cell::Empty), mark),
        !all_marked(Seq::new(CELLS as nat, |i: int| Cell::Empty)),
{
    let cells = Seq::new(CELLS as nat, |i: int| Cell::Empty);
    assert forall|k: int| 0 <= k < winning_lines().len() implies !line_holds(
        cells,
        #[trigger] winning_lines()[k],
        mark,
    ) by {
        let line = winning_lines()[k];
        assert(0 <= line.0 < 9);
    }
    assert(cells[0] == Cell::Empty);
}

/// The grid of nine squares, numbered row by row from the top left.
#[derive(Debug, Clone, Copy, PartialEq, Eq)]
pub struct Board {
    cells: [Cell; 9],
}

impl View for Board {
    type V = Seq<Cell>;

    closed spec fn view(&self) -> Seq<Cell> {
        self.cells@
    }
}

impl Board {
    /// Every board has exactly nine squares.
    pub proof fn lemma_nine_cells(&self)
        ensures
            self@.len() == CELLS,
    {
    }

    /// A board with every square empty.
    pub fn new() -> (board: Board)
        ensures
            board@ == Seq::new(CELLS as nat, |i: int| Cell::Empty),
    {
        Board { cells: [Cell::Empty; 9] }
    }

    /// The content of the square at `index`, or `None` where the index names
    /// no square.
    pub fn cell(&self, index: usize) -> (c: Option<Cell>)
        ensures
            c == if index < CELLS { Some(self@[index as int]) } else { None },
    {
        if index < CELLS {
            Some(self.cells[index])
        } else {
            None
        }
    }

    /// Places the mark of `player` at `index`.
    ///
    /// The move is accepted exactly when `index` names an empty square; it
    /// then changes that square and no other. A rejected move leaves the
    /// board untouched. Either way no square that held a mark changes.
    pub fn make_move(&mut self, index: usize, player: Player) -> (r: Result<(), InvalidMove>)
        ensures
            r is Ok <==> legal_move(old(self)@, index as int),
            final(self)@ == after_move(old(self)@, index as int, player),
            r is Ok ==> final(self)@ == old(self)@.update(index as int, player.mark_of()),
            r is Err ==> final(self)@ == old(self)@,
            forall|i: int|
                0 <= i < CELLS && old(self)@[i] != Cell::Empty ==> final(self)@[i] == old(self)@[i],
    {
        if index >= CELLS || self.cells[index] != Cell::Empty {
            return Err(InvalidMove);
        }
        self.cells[index] = player.mark();
        Ok(())
    }

    /// Whether `player` holds one of the eight winning lines.
    pub fn check_winner(&self, player: Player) -> (won: bool)
        ensures
            won == has_line(self@, player.mark_of()),
    {
        let symbol = player.mark();
        proof {
            lemma_has_line_cases(self@, symbol);
        }
        let mut i: usize = 0;
        while i < 3
            invariant
                i <= 3,
                self@.len() == CELLS,
                symbol == player.mark_of(),
                has_line(self@, symbol) <==> {
                    ||| exists|k: int| 0 <= k < 3 && line_holds(self@, #[trigger] row_line(k), symbol)
                    ||| exists|k: int|
                        0 <= k < 3 && line_holds(self@, #[trigger] column_line(k), symbol)
                    ||| line_holds(self@, (0, 4, 8), symbol)
                    ||| line_holds(self@, (2, 4, 6), symbol)
                },
                forall|k: int| 0 <= k < i ==> !line_holds(self@, #[trigger] row_line(k), symbol),
                forall|k: int|
                    0 <= k < i ==> !line_holds(self@, #[trigger] column_line(k), symbol),
            decreases 3 - i,
        {
            if self.cells[i] == symbol && self.cells[i + 3] == symbol && self.cells[i + 6]
                == symbol {
                assert(line_holds(self@, column_line(i as int), symbol));
                return true;
            }
            if self.cells[i * 3] == symbol && self.cells[i * 3 + 1] == symbol && self.cells[i * 3
                + 2] == symbol {
                assert(line_holds(self@, row_line(i as int), symbol));
                return true;
            }
            i += 1;
        }
        if self.cells[0] == symbol && self.cells[4] == symbol && self.cells[8] == symbol {
            return true;
        }
        if self.cells[2] == symbol && self.cells[4] == symbol && self.cells[6] == symbol {
            return true;
        }
        false
    }

    /// The indices of the empty squares, in ascending order: the moves that
    /// are legal on this board.
    pub fn empty_cells(&self) -> (moves: Vec<usize>)
        ensures
            moves@ == empty_squares(self@),
            forall|j: int| 0 <= j < moves@.len() ==> legal_move(self@, #[trigger] moves@[j] as int),
            forall|i: int| legal_move(self@, i) ==> moves@.contains(i as usize),
            forall|j: int, k: int|
                0 <= j < k < moves@.len() ==> (#[trigger] moves@[j]) < (#[trigger] moves@[k]),
            moves@.len() == 0 <==> all_marked(self@),
    {
        let mut moves: Vec<usize> = Vec::new();
        let mut i: usize = 0;
        while i < CELLS
            invariant
                i <= CELLS,
                self@.len() == CELLS,
                moves@ == empty_below(self@, i as nat),
            decreases CELLS - i,
        {
            if self.cells[i] == Cell::Empty {
                moves.push(i);
            }
            i += 1;
        }
        proof {
            lemma_empty_below(self@, CELLS as nat);
            lemma_full_iff_no_empty_squares(self@);
        }
        moves
    }

    /// Whether every square holds a mark.
    pub fn is_full(&self) -> (full: bool)
        ensures
            full == all_marked(self@),
    {
        let mut i: usize = 0;
        while i < CELLS
            invariant
                i <= CELLS,
                self@.len() == CELLS,
                forall|k: int| 0 <= k < i ==> self@[k] != Cell::Empty,
            decreases CELLS - i,
        {
            if self.cells[i] == Cell::Empty {
                return false;
            }
            i += 1;
        }
        true
    }
}

/// The indices below `bound` whose squares are empty, in ascending order.
pub open spec fn empty_below(cells: Seq<Cell>, bound: nat) -> Seq<usize>
    decreases bound,
{
    if bound == 0 {
        Seq::empty()
    } else if cells[bound - 1] == Cell::Empty {
        empty_below(cells, (bound - 1) as nat).push((bound - 1) as usize)
    } else {
        empty_below(cells, (bound - 1) as nat)
    }
}

/// The indices of the empty squares of the board, in ascending order.
pub open spec fn empty_squares(cells: Seq<Cell>) -> Seq<usize> {
    empty_below(cells, cells.len())
}

/// `empty_below` lists exactly the empty squares below the bound, each once
/// and in ascending order.
pub proof fn lemma_empty_below(cells: Seq<Cell>, bound: nat)
    requires
        bound <= cells.len() <= usize::MAX,
    ensures
        forall|j: int|
            0 <= j < empty_below(cells, bound).len() ==> (#[trigger] empty_below(cells, bound)[j])
                < bound && cells[empty_below(cells, bound)[j] as int] == Cell::Empty,
        forall|j: int, k: int|
            0 <= j < k < empty_below(cells, bound).len() ==> (#[trigger] empty_below(
                cells,
                bound,
            )[j]) < (#[trigger] empty_below(cells, bound)[k]),
        forall|i: int|
            0 <= i < bound && cells[i] == Cell::Empty ==> empty_below(cells, bound).contains(
                i as usize,
            ),
        empty_below(cells, bound).len() <= bound,
    decreases bound,
{
    if bound > 0 {
        let rest = empty_below(cells, (bound - 1) as nat);
        lemma_empty_below(cells, (bound - 1) as nat);
        if cells[bound - 1] == Cell::Empty {
            let all = rest.push((bound - 1) as usize);
            assert(all[rest.len() as int] == (bound - 1) as usize);
            assert forall|i: int| 0 <= i < bound && cells[i] == Cell::Empty implies all.contains(
                i as usize,
            ) by {
                if i < bound - 1 {
                    let j = choose|j: int| 0 <= j < rest.len() && rest[j] == i as usize;
                    assert(all[j] == i as usize);
                }
            }
        }
    }
}

/// A board is full exactly when it has no empty square to list.
pub proof fn lemma_full_iff_no_empty_squares(cells: Seq<Cell>)
    requires
        cells.len() <= usize::MAX,
    ensures
        all_marked(cells) <==> empty_squares(cells).len() == 0,
{
    lemma_empty_below(cells, cells.len());
    let empties = empty_squares(cells);
    if empties.len() > 0 {
        assert(cells[empties[0] as int] == Cell::Empty);
    }
    if !all_marked(cells) {
        let i = choose|i: int| 0 <= i < cells.len() && cells[i] == Cell::Empty;
        assert(empties.contains(i as usize));
    }
}

/// The row with number `r`, as a line.
pub open spec fn row_line(r: int) -> (int, int, int) {
    (3 * r, 3 * r + 1, 3 * r + 2)
}

/// The column with number `c`, as a line.
pub open spec fn column_line(c: int) -> (int, int, int) {
    (c, c + 3, c + 6)
}

/// A mark holds a winning line exactly when it holds one of the three rows,
/// one of the three columns, or one of the two diagonals.
pub proof fn lemma_has_line_cases(cells: Seq<Cell>, mark: Cell)
    ensures
        has_line(cells, mark) <==> {
            ||| exists|k: int| 0 <= k < 3 && line_holds(cells, #[trigger] row_line(k), mark)
            ||| exists|k: int| 0 <= k < 3 && line_holds(cells, #[trigger] column_line(k), mark)
            ||| line_holds(cells, (0, 4, 8), mark)
            ||| line_holds(cells, (2, 4, 6), mark)
        },
{
    let lines = winning_lines();
    assert(lines[0] == row_line(0) && lines[1] == row_line(1) && lines[2] == row_line(2));
    assert(lines[3] == column_line(0) && lines[4] == column_line(1) && lines[5] == column_line(2));
    assert(lines[6] == (0int, 4int, 8int) && lines[7] == (2int, 4int, 6int));
    assert(lines.len() == 8);
}

} // verus!
