use tictactoe::board::{Board, CellState, Mark, MoveError};
use tictactoe::game::{banner, game_loop, report, GameState, Outcome, Player};
use tictactoe::input::{InputError, ParseFailure};

fn lines(v: &[&str]) -> Vec<String> {
    v.iter().map(|s| s.to_string()).collect()
}

fn play_all(state: &mut GameState, moves: &[&str]) -> Vec<Outcome> {
    moves.iter().map(|m| state.step(m)).collect()
}

#[test]
fn new_game_starts_with_player_one() {
    let g = GameState::new();
    assert!(g.is_running());
    assert_eq!(g.current_player, Player::Player1);
    assert_eq!(g.pending_choice, None);
    assert_eq!(g.prompt(), "Player 1's turn:");
    for i in 0..9 {
        assert_eq!(g.board.cell_state(i), CellState::Empty);
    }
}

#[test]
fn players_and_marks() {
    assert_eq!(Player::Player1.mark(), Mark::X);
    assert_eq!(Player::Player2.mark(), Mark::O);
    assert_eq!(Player::Player1.other(), Player::Player2);
    assert_eq!(Player::Player2.other(), Player::Player1);
}

#[test]
fn turn_passes_after_a_move_and_stays_after_a_refusal() {
    let mut g = GameState::new();
    assert_eq!(g.step("4"), Outcome::Continue);
    assert_eq!(g.current_player, Player::Player2);
    assert_eq!(g.prompt(), "Player 2's turn:");
    assert_eq!(g.board.cell_state(4), CellState::X);
    assert_eq!(g.pending_choice, Some(4));

    assert_eq!(g.step("4"), Outcome::Refused(MoveError::CellOccupied));
    assert_eq!(g.current_player, Player::Player2);
    assert_eq!(g.pending_choice, Some(4));

    assert_eq!(
        g.step("zz"),
        Outcome::Rejected(InputError::NotANumber(ParseFailure::InvalidDigit))
    );
    assert_eq!(g.current_player, Player::Player2);

    assert_eq!(g.step("12"), Outcome::Rejected(InputError::OutOfRange));
    assert_eq!(g.current_player, Player::Player2);
    assert_eq!(g.pending_choice, Some(4));

    assert_eq!(g.step("2"), Outcome::Continue);
    assert_eq!(g.current_player, Player::Player1);
    assert_eq!(g.board.cell_state(2), CellState::O);
}

#[test]
fn column_win_ends_the_game() {
    let mut g = GameState::new();
    let outcomes = play_all(&mut g, &["0", "1", "3", "2", "6"]);
    assert_eq!(
        outcomes,
        vec![
            Outcome::Continue,
            Outcome::Continue,
            Outcome::Continue,
            Outcome::Continue,
            Outcome::Won(Mark::X)
        ]
    );
    assert!(!g.is_running());
    assert_eq!(g.board.check_win(6), Some(Mark::X));
    assert_eq!(g.current_player, Player::Player1);
    assert_eq!(g.step("8"), Outcome::Finished);
    assert_eq!(g.board.cell_state(8), CellState::Empty);
}

#[test]
fn column_win_transcript() {
    let out = game_loop(&lines(&["0", "1", "3", "2", "6", "8"]));
    let mut expected = banner();
    expected.extend(lines(&[
        "Player 1's turn:", "X - -", "- - -", "- - -", "-----------------",
        "Player 2's turn:", "X O -", "- - -", "- - -", "-----------------",
        "Player 1's turn:", "X O -", "X - -", "- - -", "-----------------",
        "Player 2's turn:", "X O O", "X - -", "- - -", "-----------------",
        "Player 1's turn:", "X wins!", "X O O", "X - -", "X - -", "-----------------",
    ]));
    assert_eq!(out, expected);
}

#[test]
fn taken_cells_are_refused_to_both_players() {
    let mut g = GameState::new();
    let outcomes = play_all(&mut g, &["4", "0", "8"]);
    assert_eq!(outcomes, vec![Outcome::Continue; 3]);
    let cells = g.board.cells;
    assert_eq!(g.current_player, Player::Player2);
    assert_eq!(g.step("4"), Outcome::Refused(MoveError::CellOccupied));
    assert_eq!(g.step("0"), Outcome::Refused(MoveError::CellOccupied));
    assert_eq!(g.current_player, Player::Player2);
    assert_eq!(g.board.cells, cells);
    assert_eq!(g.step("1"), Outcome::Continue);
    assert_eq!(g.step("4"), Outcome::Refused(MoveError::CellOccupied));
    assert_eq!(g.step("0"), Outcome::Refused(MoveError::CellOccupied));
    assert_eq!(g.current_player, Player::Player1);
}

#[test]
fn taken_cell_transcript() {
    let out = game_loop(&lines(&["4", "4"]));
    let tail: Vec<String> = out[8..].to_vec();
    assert_eq!(
        tail,
        lines(&[
            "Player 1's turn:", "- - -", "- X -", "- - -", "-----------------",
            "Player 2's turn:", "Cell already used. Try another cell.",
        ])
    );
}

#[test]
fn bad_input_reprompts_the_same_player() {
    let out = game_loop(&lines(&[" 3 ", "abc", "", "11", "5"]));
    let tail: Vec<String> = out[8..].to_vec();
    assert_eq!(
        tail,
        lines(&[
            "Player 1's turn:", "- - -", "X - -", "- - -", "-----------------",
            "Player 2's turn:", "invalid digit found in string",
            "Player 2's turn:", "cannot parse integer from empty string",
            "Player 2's turn:", "Cell number must be between 0 and 8.",
            "Player 2's turn:", "- - -", "X - O", "- - -", "-----------------",
        ])
    );
}

#[test]
fn full_board_without_a_line_is_a_draw() {
    let mut g = GameState::new();
    let outcomes = play_all(&mut g, &["0", "1", "2", "4", "3", "5", "7", "6", "8"]);
    let mut expected = vec![Outcome::Continue; 8];
    expected.push(Outcome::Draw);
    assert_eq!(outcomes, expected);
    assert!(!g.is_running());
    assert!(g.board.is_full());
    assert_eq!(g.step("0"), Outcome::Finished);
}

#[test]
fn draw_transcript_ends_the_game() {
    let out = game_loop(&lines(&["0", "1", "2", "4", "3", "5", "7", "6", "8", "0", "1"]));
    let n = out.len();
    assert_eq!(n, 8 + 8 * 5 + 6);
    assert_eq!(
        out[n - 6..].to_vec(),
        lines(&[
            "Player 1's turn:", "Draw! The board is full.", "X O X", "X O O", "O X X",
            "-----------------",
        ])
    );
}

#[test]
fn win_on_the_last_cell_is_a_win() {
    let mut g = GameState::new();
    let outcomes = play_all(&mut g, &["0", "1", "2", "4", "3", "5", "7", "8", "6"]);
    assert_eq!(outcomes[8], Outcome::Won(Mark::X));
    assert!(g.board.is_full());
}

#[test]
fn o_can_win() {
    let mut g = GameState::new();
    let outcomes = play_all(&mut g, &["0", "2", "1", "4", "8", "6"]);
    assert_eq!(outcomes[5], Outcome::Won(Mark::O));
    assert_eq!(g.current_player, Player::Player2);
}

#[test]
fn no_input_shows_only_the_banner() {
    let out = game_loop(&Vec::new());
    assert_eq!(out, banner());
    assert_eq!(out.len(), 8);
    assert_eq!(out[0], "Tic Tac Toe");
    assert_eq!(out[3], "- - -\t0 1 2");
}

#[test]
fn reports_for_each_outcome() {
    let b = Board::default();
    assert_eq!(report(Outcome::Finished, &b), Vec::<String>::new());
    assert_eq!(
        report(Outcome::Rejected(InputError::NotANumber(ParseFailure::TooLarge)), &b),
        lines(&["number too large to fit in target type"])
    );
    assert_eq!(
        report(Outcome::Refused(MoveError::OutOfRange), &b),
        lines(&["Cell number must be between 0 and 8."])
    );
    assert_eq!(
        report(Outcome::Won(Mark::O), &b),
        lines(&["O wins!", "- - -", "- - -", "- - -", "-----------------"])
    );
    assert_eq!(
        report(Outcome::Continue, &b),
        lines(&["- - -", "- - -", "- - -", "-----------------"])
    );
}
