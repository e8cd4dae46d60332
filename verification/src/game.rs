//! The turn controller: whose move it is, and how each accepted move leads
//! to the next turn, a win or a draw.

use crate::board::{
    after_move, all_marked, has_line, legal_move, lemma_empty_board,
    lemma_move_keeps_other_lines, Board, Cell, InvalidMove, Player, CELLS,
};
use crate::input::{parse_index, parsed_index};
use rand::seq::SliceRandom;
use vstd::prelude::*;

verus! {

/// Where a game stands: who is to move, or how the game has ended.
#[derive(Debug, Clone, Copy, PartialEq, Eq, Structural)]
pub enum GameState {
    HumanToMove,
    ComputerToMove,
    Won(Player),
    Draw,
}

/// Why a line that the human typed was turned down.
#[derive(Debug, Clone, Copy, PartialEq, Eq, Structural)]
pub enum InputError {
    /// The line is no number.
    Parse,
    /// The line is a number, but no move that the game accepts.
    InvalidMove,
}

/// What a game that has ended in `state` says of its end; nothing while a
/// player is to move.
pub open spec fn outcome_text(state: GameState) -> Option<Seq<char>> {
    match state {
        GameState::Won(Player::Human) => Some("You win!"@),
        GameState::Won(Player::Computer) => Some("Computer wins!"@),
        GameState::Draw => Some("It's a draw!"@),
        _ => None,
    }
}

impl GameState {
    /// Whether the game has ended, in a win or a draw.
    pub fn is_over(&self) -> (over: bool)
        ensures
            over == (player_to_move(*self) is None),
    {
        match self {
            GameState::Won(_) => true,
            GameState::Draw => true,
            _ => false,
        }
    }

    /// The sentence that reports the end of the game, or `None` while a
    /// player is to move.
    pub fn outcome(&self) -> (text: Option<&'static str>)
        ensures
            match text {
                Some(sentence) => outcome_text(*self) == Some(sentence@),
                None => outcome_text(*self) is None,
            },
    {
        match self {
            GameState::Won(Player::Human) => Some("You win!"),
            GameState::Won(Player::Computer) => Some("Computer wins!"),
            GameState::Draw => Some("It's a draw!"),
            _ => None,
        }
    }
}

impl InputError {
    /// The sentence that tells the human what was wrong with the line.
    pub fn message(&self) -> (text: &'static str)
        ensures
            text@ == match *self {
                InputError::Parse => "Invalid input. Please enter a number between 0 and 8."@,
                InputError::InvalidMove => "Invalid move. Please try again."@,
            },
    {
        match self {
            InputError::Parse => "Invalid input. Please enter a number between 0 and 8.",
            InputError::InvalidMove => "Invalid move. Please try again.",
        }
    }
}

/// A game as the contracts see it: the nine squares and the state.
pub struct GameView {
    pub cells: Seq<Cell>,
    pub state: GameState,
}

/// The opponent of `player`.
pub open spec fn other(player: Player) -> Player {
    match player {
        Player::Human => Player::Computer,
        Player::Computer => Player::Human,
    }
}

/// The player who moves in `state`, if the game is still running.
pub open spec fn player_to_move(state: GameState) -> Option<Player> {
    match state {
        GameState::HumanToMove => Some(Player::Human),
        GameState::ComputerToMove => Some(Player::Computer),
        GameState::Won(_) => None,
        GameState::Draw => None,
    }
}

/// The state in which `player` is to move.
pub open spec fn turn_of(player: Player) -> GameState {
    match player {
        Player::Human => GameState::HumanToMove,
        Player::Computer => GameState::ComputerToMove,
    }
}

/// The state that follows a move of `mover` that has left the board as
/// `cells`: a win for the mover if the mover holds a line, else a draw if the
/// board is full, else the opponent's turn.
pub open spec fn state_after(cells: Seq<Cell>, mover: Player) -> GameState {
    if has_line(cells, mover.mark_of()) {
        GameState::Won(mover)
    } else if all_marked(cells) {
        GameState::Draw
    } else {
        turn_of(other(mover))
    }
}

/// The game accepts a move of `player` at `index`: it is that player's turn,
/// and the move is legal on the board.
pub open spec fn accepts(game: GameView, player: Player, index: int) -> bool {
    player_to_move(game.state) == Some(player) && legal_move(game.cells, index)
}

/// The game after `player` has tried to move at `index`: an accepted move
/// marks the square and decides the next state, a rejected one changes
/// nothing.
pub open spec fn step(game: GameView, player: Player, index: int) -> GameView {
    if accepts(game, player, index) {
        let cells = after_move(game.cells, index, player);
        GameView { cells, state: state_after(cells, player) }
    } else {
        game
    }
}

/// The state agrees with the board: while a player is to move nobody holds a
/// line and a square is empty; a won game shows the winner's line and none of
/// the loser's; a drawn game shows a full board without a line.
pub open spec fn consistent(game: GameView) -> bool {
    &&& game.cells.len() == CELLS
    &&& match game.state {
        GameState::HumanToMove | GameState::ComputerToMove => {
            &&& !has_line(game.cells, Cell::X)
            &&& !has_line(game.cells, Cell::O)
            &&& !all_marked(game.cells)
        },
        GameState::Won(winner) => {
            &&& has_line(game.cells, winner.mark_of())
            &&& !has_line(game.cells, other(winner).mark_of())
        },
        GameState::Draw => {
            &&& !has_line(game.cells, Cell::X)
            &&& !has_line(game.cells, Cell::O)
            &&& all_marked(game.cells)
        },
    }
}

/// A step keeps the state in agreement with the board.
pub proof fn lemma_step_keeps_consistent(game: GameView, player: Player, index: int)
    requires
        consistent(game),
    ensures
        consistent(step(game, player, index)),
{
    if accepts(game, player, index) {
        lemma_move_keeps_other_lines(game.cells, index, player, other(player).mark_of());
    }
}

/// A step changes no square that holds a mark.
pub proof fn lemma_step_keeps_marks(game: GameView, player: Player, index: int, i: int)
    requires
        0 <= i < game.cells.len(),
        game.cells[i] != Cell::Empty,
    ensures
        step(game, player, index).cells.len() == game.cells.len(),
        step(game, player, index).cells[i] == game.cells[i],
{
}

/// The game after each move of `moves` has been tried in turn.
pub open spec fn after_steps(game: GameView, moves: Seq<(Player, int)>) -> GameView
    decreases moves.len(),
{
    if moves.len() == 0 {
        game
    } else {
        step(after_steps(game, moves.drop_last()), moves.last().0, moves.last().1)
    }
}

/// Through a whole session the state stays in agreement with the board, and
/// a square that holds a mark keeps it, whatever moves are tried and by whom.
pub proof fn lemma_session(game: GameView, moves: Seq<(Player, int)>)
    requires
        consistent(game),
    ensures
        consistent(after_steps(game, moves)),
        forall|i: int|
            0 <= i < CELLS && game.cells[i] != Cell::Empty ==> after_steps(game, moves).cells[i]
                == game.cells[i],
    decreases moves.len(),
{
    if moves.len() > 0 {
        let before = after_steps(game, moves.drop_last());
        lemma_session(game, moves.drop_last());
        lemma_step_keeps_consistent(before, moves.last().0, moves.last().1);
        assert forall|i: int| 0 <= i < CELLS && game.cells[i] != Cell::Empty implies after_steps(
            game,
            moves,
        ).cells[i] == game.cells[i] by {
            lemma_step_keeps_marks(before, moves.last().0, moves.last().1, i);
        }
    }
}

/// A game that has ended accepts no move: every step leaves it as it is.
pub proof fn lemma_ended_game_stays(game: GameView, player: Player, index: int)
    requires
        player_to_move(game.state) is None,
    ensures
        step(game, player, index) == game,
{
}

/// One game between the human and the computer.
#[derive(Debug, Clone, Copy)]
pub struct Game {
    board: Board,
    state: GameState,
}

impl View for Game {
    type V = GameView;

    closed spec fn view(&self) -> GameView {
        GameView { cells: self.board@, state: self.state }
    }
}

/// The random number generator of the current thread, `rand::rngs::ThreadRng`.
/// Nothing is known of what it holds.
#[verifier::external_type_specification]
#[verifier::external_body]
pub struct ExThreadRng(rand::rngs::ThreadRng);

/// `rand::thread_rng` hands out the generator of the current thread. Nothing
/// is claimed of the generator or of the numbers it will give.
pub assume_specification[ rand::thread_rng ]() -> (rng: rand::rngs::ThreadRng);

/// Draws one element of `moves` by `rand::seq::SliceRandom::choose`, with the
/// numbers of `rng`. Which element is drawn is left open; the contract claims
/// only what the method's source shows of every draw: an empty list gives
/// `None`, and any other list gives one of its elements.
#[verifier::external_body]
fn choose_move(moves: &Vec<usize>, rng: &mut rand::rngs::ThreadRng) -> (picked: Option<usize>)
    ensures
        match picked {
            Some(index) => moves@.contains(index),
            None => moves@.len() == 0,
        },
{
    moves.choose(rng).copied()
}

impl Game {
    #[verifier::type_invariant]
    spec fn well_formed(&self) -> bool {
        consistent(self@)
    }

    /// A new game: the board is empty and the human is to move.
    pub fn new() -> (game: Game)
        ensures
            game@ == (GameView {
                cells: Seq::new(CELLS as nat, |i: int| Cell::Empty),
                state: GameState::HumanToMove,
            }),
    {
        let board = Board::new();
        proof {
            lemma_empty_board(Cell::X);
            lemma_empty_board(Cell::O);
        }
        Game { board, state: GameState::HumanToMove }
    }

    /// Where the game stands. The state always agrees with the board.
    pub fn state(&self) -> (state: GameState)
        ensures
            state == self@.state,
            consistent(self@),
    {
        proof {
            use_type_invariant(self);
        }
        self.state
    }

    /// The board of the game.
    pub fn board(&self) -> (board: &Board)
        ensures
            board@ == self@.cells,
    {
        &self.board
    }

    /// Lets `player` move at `index`.
    ///
    /// The move is accepted exactly when it is that player's turn and `index`
    /// names an empty square. The square then takes the player's mark, and
    /// the game goes on to a win of that player, a draw, or the opponent's
    /// turn. A rejected move changes nothing.
    pub fn play(&mut self, player: Player, index: usize) -> (r: Result<(), InvalidMove>)
        ensures
            r is Ok <==> accepts(old(self)@, player, index as int),
            final(self)@ == step(old(self)@, player, index as int),
    {
        proof {
            use_type_invariant(&*self);
            lemma_step_keeps_consistent(self@, player, index as int);
        }
        let on_turn = match (self.state, player) {
            (GameState::HumanToMove, Player::Human) => true,
            (GameState::ComputerToMove, Player::Computer) => true,
            _ => false,
        };
        if !on_turn {
            return Err(InvalidMove);
        }
        let mut board = self.board;
        match board.make_move(index, player) {
            Err(error) => Err(error),
            Ok(()) => {
                let state = if board.check_winner(player) {
                    GameState::Won(player)
                } else if board.is_full() {
                    GameState::Draw
                } else {
                    match player {
                        Player::Human => GameState::ComputerToMove,
                        Player::Computer => GameState::HumanToMove,
                    }
                };
                *self = Game { board, state };
                Ok(())
            },
        }
    }

    /// The human's turn: plays the human's mark at `index`.
    pub fn human_turn(&mut self, index: usize) -> (r: Result<(), InvalidMove>)
        ensures
            r is Ok <==> accepts(old(self)@, Player::Human, index as int),
            final(self)@ == step(old(self)@, Player::Human, index as int),
    {
        self.play(Player::Human, index)
    }

    /// The human's turn, from the line that the human typed.
    ///
    /// A line that names no index is turned down as unreadable, and the game
    /// stays as it is. A line that names an index is played as the human's
    /// move there; the game turns it down as an invalid move, and again stays
    /// as it is, unless it is the human's turn and the index names an empty
    /// square.
    pub fn human_input(&mut self, line: &str) -> (r: Result<(), InputError>)
        ensures
            match parsed_index(line@) {
                None => r == Err::<(), InputError>(InputError::Parse) && final(self)@ == old(self)@,
                Some(index) => {
                    &&& final(self)@ == step(old(self)@, Player::Human, index as int)
                    &&& r == if accepts(old(self)@, Player::Human, index as int) {
                        Ok::<(), InputError>(())
                    } else {
                        Err(InputError::InvalidMove)
                    }
                },
            },
    {
        match parse_index(line) {
            Err(_) => Err(InputError::Parse),
            Ok(index) => match self.human_turn(index) {
                Ok(()) => Ok(()),
                Err(_) => Err(InputError::InvalidMove),
            },
        }
    }

    /// The computer's turn: draws one of the empty squares at random and
    /// plays the computer's mark there.
    ///
    /// When the computer is to move a square is always free, so a move is
    /// always made: the result names the square, which was empty and is the
    /// only one that changes. When the computer is not to move nothing is
    /// drawn and nothing changes.
    pub fn computer_turn(&mut self) -> (picked: Option<usize>)
        ensures
            old(self)@.state != GameState::ComputerToMove ==> picked is None && final(self)@ == old(
                self,
            )@,
            old(self)@.state == GameState::ComputerToMove ==> {
                &&& picked is Some
                &&& accepts(old(self)@, Player::Computer, picked->0 as int)
                &&& final(self)@ == step(old(self)@, Player::Computer, picked->0 as int)
                &&& old(self)@.cells[picked->0 as int] == Cell::Empty
                &&& final(self)@.cells == old(self)@.cells.update(picked->0 as int, Cell::O)
            },
    {
        proof {
            use_type_invariant(&*self);
        }
        match self.state {
            GameState::ComputerToMove => {},
            _ => {
                return None;
            },
        }
        let moves = self.board.empty_cells();
        let mut rng = rand::thread_rng();
        match choose_move(&moves, &mut rng) {
            Some(index) => {
                let played = self.play(Player::Computer, index);
                assert(played is Ok);
                Some(index)
            },
            None => None,
        }
    }
}

} // verus!
