use tictactoe::board::{Board, Cell, InvalidMove, Player};
use tictactoe::game::{Game, GameState, InputError};

fn cells_of(board: &Board) -> Vec<Cell> {
    (0..9).map(|index| board.cell(index).unwrap()).collect()
}

#[test]
fn new_game_starts_empty_with_the_human_to_move() {
    let game = Game::new();
    assert_eq!(game.state(), GameState::HumanToMove);
    assert_eq!(*game.board(), Board::new());
    assert!(!game.state().is_over());
    assert_eq!(game.state().outcome(), None);
}

#[test]
fn human_wins_with_the_top_row() {
    let mut game = Game::new();
    assert_eq!(game.human_turn(0), Ok(()));
    assert_eq!(game.state(), GameState::ComputerToMove);
    assert_eq!(game.play(Player::Computer, 3), Ok(()));
    assert_eq!(game.state(), GameState::HumanToMove);
    assert_eq!(game.human_turn(1), Ok(()));
    assert_eq!(game.play(Player::Computer, 4), Ok(()));
    assert!(!game.board().check_winner(Player::Human));
    assert_eq!(game.human_turn(2), Ok(()));
    assert!(game.board().check_winner(Player::Human));
    assert!(!game.board().check_winner(Player::Computer));
    assert_eq!(game.state(), GameState::Won(Player::Human));
    assert!(game.state().is_over());
    assert_eq!(game.state().outcome(), Some("You win!"));
    assert_eq!(
        game.board().render(),
        " X | X | X \n-----------\n O | O |   \n-----------\n   |   |   \n"
    );
}

#[test]
fn no_move_is_applied_after_a_win() {
    let mut game = Game::new();
    for (human, computer) in [(0, 3), (1, 4)] {
        assert_eq!(game.human_turn(human), Ok(()));
        assert_eq!(game.play(Player::Computer, computer), Ok(()));
    }
    assert_eq!(game.human_turn(2), Ok(()));
    let board = *game.board();
    assert_eq!(game.computer_turn(), None);
    assert_eq!(game.play(Player::Computer, 5), Err(InvalidMove));
    assert_eq!(game.human_turn(5), Err(InvalidMove));
    assert_eq!(game.human_input("5\n"), Err(InputError::InvalidMove));
    assert_eq!(*game.board(), board);
    assert_eq!(game.state(), GameState::Won(Player::Human));
}

#[test]
fn computer_wins_with_a_diagonal() {
    let mut game = Game::new();
    for (human, computer) in [(0, 2), (1, 4)] {
        assert_eq!(game.human_turn(human), Ok(()));
        assert_eq!(game.play(Player::Computer, computer), Ok(()));
    }
    assert_eq!(game.human_turn(8), Ok(()));
    assert_eq!(game.play(Player::Computer, 6), Ok(()));
    assert_eq!(game.state(), GameState::Won(Player::Computer));
    assert_eq!(game.state().outcome(), Some("Computer wins!"));
    assert_eq!(game.human_turn(3), Err(InvalidMove));
}

#[test]
fn full_board_without_a_line_is_a_draw() {
    let mut game = Game::new();
    for (human, computer) in [(0, 2), (1, 3), (5, 4), (6, 7)] {
        assert_eq!(game.human_turn(human), Ok(()));
        assert_eq!(game.state(), GameState::ComputerToMove);
        assert_eq!(game.play(Player::Computer, computer), Ok(()));
        assert_eq!(game.state(), GameState::HumanToMove);
    }
    assert_eq!(game.human_turn(8), Ok(()));
    assert!(game.board().is_full());
    assert!(!game.board().check_winner(Player::Human));
    assert!(!game.board().check_winner(Player::Computer));
    assert_eq!(game.state(), GameState::Draw);
    assert!(game.state().is_over());
    assert_eq!(game.state().outcome(), Some("It's a draw!"));
    assert_eq!(game.computer_turn(), None);
    assert_eq!(game.state(), GameState::Draw);
}

#[test]
fn winning_on_the_last_square_is_a_win_not_a_draw() {
    let mut game = Game::new();
    for (human, computer) in [(0, 1), (2, 4), (7, 3), (5, 6)] {
        assert_eq!(game.human_turn(human), Ok(()));
        assert_eq!(game.play(Player::Computer, computer), Ok(()));
    }
    assert_eq!(game.state(), GameState::HumanToMove);
    assert_eq!(game.human_turn(8), Ok(()));
    assert!(game.board().is_full());
    assert_eq!(game.state(), GameState::Won(Player::Human));
}

#[test]
fn rejected_input_leaves_the_game_as_it_is() {
    let mut game = Game::new();
    let empty = Board::new();
    assert_eq!(game.human_input("9\n"), Err(InputError::InvalidMove));
    assert_eq!(*game.board(), empty);
    assert_eq!(game.state(), GameState::HumanToMove);
    assert_eq!(game.human_turn(9), Err(InvalidMove));
    assert_eq!(*game.board(), empty);
    assert_eq!(game.state(), GameState::HumanToMove);
    assert_eq!(game.human_input("abc\n"), Err(InputError::Parse));
    assert_eq!(*game.board(), empty);
    assert_eq!(game.state(), GameState::HumanToMove);

    assert_eq!(game.human_input("0\n"), Ok(()));
    assert_eq!(game.play(Player::Computer, 4), Ok(()));
    let before = *game.board();
    assert_eq!(game.human_input("0\n"), Err(InputError::InvalidMove));
    assert_eq!(*game.board(), before);
    assert_eq!(game.state(), GameState::HumanToMove);
    assert_eq!(game.human_input("4\n"), Err(InputError::InvalidMove));
    assert_eq!(*game.board(), before);
    assert_eq!(game.state(), GameState::HumanToMove);
    assert_eq!(game.board().cell(0), Some(Cell::X));
    assert_eq!(game.board().cell(4), Some(Cell::O));
}

#[test]
fn accepted_input_plays_the_human_move() {
    let mut game = Game::new();
    assert_eq!(game.human_input(" 4 \n"), Ok(()));
    assert_eq!(game.board().cell(4), Some(Cell::X));
    assert_eq!(game.state(), GameState::ComputerToMove);
}

#[test]
fn players_must_wait_for_their_turn() {
    let mut game = Game::new();
    assert_eq!(game.play(Player::Computer, 0), Err(InvalidMove));
    assert_eq!(game.computer_turn(), None);
    assert_eq!(*game.board(), Board::new());
    assert_eq!(game.state(), GameState::HumanToMove);
    assert_eq!(game.human_turn(0), Ok(()));
    let before = *game.board();
    assert_eq!(game.human_turn(1), Err(InvalidMove));
    assert_eq!(game.human_input("1\n"), Err(InputError::InvalidMove));
    assert_eq!(*game.board(), before);
    assert_eq!(game.state(), GameState::ComputerToMove);
}

#[test]
fn computer_marks_one_empty_square() {
    for round in 0..200 {
        let mut game = Game::new();
        assert_eq!(game.human_turn(round % 9), Ok(()));
        let before = cells_of(game.board());
        let picked = game.computer_turn().unwrap();
        assert!(picked < 9);
        assert_eq!(before[picked], Cell::Empty);
        let after = cells_of(game.board());
        for index in 0..9 {
            if index == picked {
                assert_eq!(after[index], Cell::O);
            } else {
                assert_eq!(after[index], before[index]);
            }
        }
        assert_eq!(game.state(), GameState::HumanToMove);
    }
}

#[test]
fn computer_takes_the_last_free_square() {
    let mut game = Game::new();
    for (human, computer) in [(0, 1), (2, 4), (7, 6)] {
        assert_eq!(game.human_turn(human), Ok(()));
        assert_eq!(game.play(Player::Computer, computer), Ok(()));
    }
    assert_eq!(game.human_turn(3), Ok(()));
    assert_eq!(game.board().empty_cells(), vec![5, 8]);
    let picked = game.computer_turn().unwrap();
    assert!(picked == 5 || picked == 8);
    let left = 13 - picked;
    assert_eq!(game.board().empty_cells(), vec![left]);
    assert_eq!(game.human_turn(left), Ok(()));
    assert!(game.state().is_over());
}

#[test]
fn computer_reaches_every_empty_square() {
    let mut seen = [false; 9];
    for _ in 0..2000 {
        let mut game = Game::new();
        assert_eq!(game.human_turn(4), Ok(()));
        seen[game.computer_turn().unwrap()] = true;
    }
    for index in 0..9 {
        assert_eq!(seen[index], index != 4);
    }
}

#[test]
fn random_games_end_in_a_win_or_a_draw() {
    for round in 0..300 {
        let mut game = Game::new();
        let mut moves = 0;
        while !game.state().is_over() {
            let before = cells_of(game.board());
            match game.state() {
                GameState::HumanToMove => {
                    let free = game.board().empty_cells();
                    let index = free[(round + moves) % free.len()];
                    assert_eq!(game.human_turn(index), Ok(()));
                    assert_eq!(game.board().cell(index), Some(Cell::X));
                }
                _ => {
                    let index = game.computer_turn().unwrap();
                    assert_eq!(before[index], Cell::Empty);
                    assert_eq!(game.board().cell(index), Some(Cell::O));
                }
            }
            moves += 1;
            let after = cells_of(game.board());
            for index in 0..9 {
                if before[index] != Cell::Empty {
                    assert_eq!(after[index], before[index]);
                }
            }
            assert!(moves <= 9);
        }
        let board = game.board();
        match game.state() {
            GameState::Won(winner) => assert!(board.check_winner(winner)),
            GameState::Draw => {
                assert!(board.is_full());
                assert!(!board.check_winner(Player::Human));
                assert!(!board.check_winner(Player::Computer));
            }
            _ => unreachable!(),
        }
    }
}

#[test]
fn input_errors_have_their_messages() {
    assert_eq!(
        InputError::Parse.message(),
        "Invalid input. Please enter a number between 0 and 8."
    );
    assert_eq!(InputError::InvalidMove.message(), "Invalid move. Please try again.");
}
