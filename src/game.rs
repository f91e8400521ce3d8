//! The turn-by-turn game: what each typed line does to the game, and the
//! lines a console shows for it.
use vstd::prelude::*;
use crate::board::{
    Board, CellState, Mark, MoveError, board_text, cell_of, full, has_line, lemma_win_after_play,
    opponent, play_result, views, winner_through, CELLS,
};
use crate::input::{InputError, failure_text, read_move, read_move_result};

verus! {

/// Whose turn it is. Player 1 plays `X`, player 2 plays `O`.
#[derive(Clone, Copy, PartialEq, Eq, Structural, Debug)]
pub enum Player {
    Player1,
    Player2,
}

/// The mark a player puts down.
pub open spec fn mark_of(p: Player) -> Mark {
    match p {
        Player::Player1 => Mark::X,
        Player::Player2 => Mark::O,
    }
}

/// The player whose turn comes after `p`'s.
pub open spec fn next_player(p: Player) -> Player {
    match p {
        Player::Player1 => Player::Player2,
        Player::Player2 => Player::Player1,
    }
}

impl Player {
    /// The mark this player puts down.
    pub fn mark(self) -> (r: Mark)
        ensures
            r == mark_of(self),
    {
        match self {
            Player::Player1 => Mark::X,
            Player::Player2 => Mark::O,
        }
    }

    /// The player who moves next.
    pub fn other(self) -> (r: Player)
        ensures
            r == next_player(self),
    {
        match self {
            Player::Player1 => Player::Player2,
            Player::Player2 => Player::Player1,
        }
    }
}

/// What one typed line did.
#[derive(Clone, Copy, PartialEq, Eq, Structural, Debug)]
pub enum Outcome {
    /// The game was already over; the line is ignored.
    Finished,
    /// The line names no cell; the same player types again.
    Rejected(InputError),
    /// The board refused the move; the same player types again.
    Refused(MoveError),
    /// The move stands and the turn passes to the other player.
    Continue,
    /// The move completed a line for this mark; the game is over.
    Won(Mark),
    /// The move filled the board with no line complete; the game is over.
    Draw,
}

/// The game as a whole.
#[derive(Clone, Copy, Debug)]
pub struct GameState {
    pub board: Board,
    /// False once the game is over.
    pub running: bool,
    pub current_player: Player,
    /// The last cell number a player typed that named a cell.
    pub pending_choice: Option<usize>,
}

/// The game as values: the cells, whether it goes on, whose turn it is and
/// the last cell chosen.
pub struct GameView {
    pub cells: Seq<CellState>,
    pub running: bool,
    pub current_player: Player,
    pub pending_choice: Option<usize>,
}

impl View for GameState {
    type V = GameView;

    open spec fn view(&self) -> GameView {
        GameView {
            cells: self.board@,
            running: self.running,
            current_player: self.current_player,
            pending_choice: self.pending_choice,
        }
    }
}

/// A fresh game: an empty board, player 1 to move, nothing chosen yet.
pub open spec fn initial_view() -> GameView {
    GameView {
        cells: Seq::new(CELLS as nat, |i: int| CellState::Empty),
        running: true,
        current_player: Player::Player1,
        pending_choice: None,
    }
}

/// What a typed line does to a game once the cell it names is on the board:
/// the game ends on a completed line or a full board, else the turn passes.
pub open spec fn after_move(g: GameView, cells: Seq<CellState>, index: int) -> (GameView, Outcome) {
    match winner_through(cells, index) {
        Some(m) => (GameView { cells, running: false, ..g }, Outcome::Won(m)),
        None => if full(cells) {
            (GameView { cells, running: false, ..g }, Outcome::Draw)
        } else {
            (GameView { cells, current_player: next_player(g.current_player), ..g }, Outcome::Continue)
        },
    }
}

/// What a typed line does to a game, and what came of it.
pub open spec fn step_result(g: GameView, line: Seq<char>) -> (GameView, Outcome) {
    if !g.running {
        (g, Outcome::Finished)
    } else {
        match read_move_result(line) {
            Err(e) => (g, Outcome::Rejected(e)),
            Ok(i) => {
                let chosen = GameView { pending_choice: Some(i), ..g };
                match play_result(g.cells, i as int) {
                    Err(e) => (chosen, Outcome::Refused(e)),
                    Ok(_) => after_move(
                        chosen,
                        g.cells.update(i as int, cell_of(mark_of(g.current_player))),
                        i as int,
                    ),
                }
            },
        }
    }
}

/// The prompt shown before a player types.
pub open spec fn prompt_text(p: Player) -> Seq<char> {
    match p {
        Player::Player1 => "Player 1's turn:"@,
        Player::Player2 => "Player 2's turn:"@,
    }
}

/// The message for a cell number outside the board.
pub open spec fn range_text() -> Seq<char> {
    "Cell number must be between 0 and 8."@
}

/// The message for a cell that is taken.
pub open spec fn occupied_text() -> Seq<char> {
    "Cell already used. Try another cell."@
}

/// The message for a win.
pub open spec fn win_text(m: Mark) -> Seq<char> {
    match m {
        Mark::X => "X wins!"@,
        Mark::O => "O wins!"@,
    }
}

/// The message for a draw.
pub open spec fn draw_text() -> Seq<char> {
    "Draw! The board is full."@
}

/// The lines shown after a typed line, given the board as it then stands:
/// a message for a refusal, the board after a move, preceded by the result
/// when the move ended the game.
pub open spec fn report_text(o: Outcome, cells: Seq<CellState>) -> Seq<Seq<char>> {
    match o {
        Outcome::Finished => Seq::empty(),
        Outcome::Rejected(InputError::NotANumber(f)) => seq![failure_text(f)],
        Outcome::Rejected(InputError::OutOfRange) => seq![range_text()],
        Outcome::Refused(MoveError::OutOfRange) => seq![range_text()],
        Outcome::Refused(MoveError::CellOccupied) => seq![occupied_text()],
        Outcome::Continue => board_text(cells),
        Outcome::Won(m) => seq![win_text(m)] + board_text(cells),
        Outcome::Draw => seq![draw_text()] + board_text(cells),
    }
}

/// The text shown once, before the first turn.
pub open spec fn banner_text() -> Seq<Seq<char>> {
    seq![
        "Tic Tac Toe"@,
        "-----------------"@,
        "Board cells are laid out like so:"@,
        "- - -\t0 1 2"@,
        "- - -\t3 4 5"@,
        "- - -\t6 7 8"@,
        "Player enters cell number to play their turn."@,
        "-----------------"@,
    ]
}

/// The lines shown while a game in state `g` is played on the typed lines
/// `inputs`: a prompt, then the report, for each line read before the game
/// ends or the lines run out.
pub open spec fn session(g: GameView, inputs: Seq<Seq<char>>) -> Seq<Seq<char>>
    decreases inputs.len(),
{
    if !g.running || inputs.len() == 0 {
        Seq::empty()
    } else {
        let (h, o) = step_result(g, inputs[0]);
        seq![prompt_text(g.current_player)] + report_text(o, h.cells) + session(
            h,
            inputs.drop_first(),
        )
    }
}

/// A game in which play may go on only while no line is complete.
pub open spec fn consistent(g: GameView) -> bool {
    &&& g.cells.len() == CELLS
    &&& g.running ==> !has_line(g.cells, Mark::X) && !has_line(g.cells, Mark::O)
}

/// The turn passes to the other player after a move that stands and does not
/// end the game; a rejected or refused line changes neither the turn nor the
/// board, and a move that ends the game stops play.
pub proof fn lemma_turns_alternate(s: GameState, line: Seq<char>)
    ensures
        ({
            let (h, o) = step_result(s@, line);
            &&& o == Outcome::Continue ==> h.current_player == next_player(s@.current_player)
                && h.running
            &&& (o is Rejected || o is Refused || o is Finished) ==> h.current_player
                == s@.current_player && h.cells == s@.cells && h.running == s@.running
            &&& (o is Won || o is Draw) ==> h.current_player == s@.current_player && !h.running
        }),
{
}

/// In a game where play goes on only while no line is complete, a line wins
/// exactly when the move just made completes one for the mover: the move is
/// reported as won by the mover's mark if and only if some line of the board
/// is then the mover's, the other mark holds no line, and the game stays
/// consistent.
pub proof fn lemma_step_reports_wins(s: GameState, line: Seq<char>)
    requires
        consistent(s@),
    ensures
        ({
            let (h, o) = step_result(s@, line);
            let m = mark_of(s@.current_player);
            &&& consistent(h)
            &&& h.cells != s@.cells ==> (o == Outcome::Won(m) <==> has_line(h.cells, m))
                && !has_line(h.cells, opponent(m))
            &&& o is Won ==> o == Outcome::Won(m)
        }),
{
    let (h, o) = step_result(s@, line);
    if s@.running {
        if let Ok(i) = read_move_result(line) {
            if play_result(s@.cells, i as int) is Ok {
                lemma_win_after_play(s.board, i, mark_of(s@.current_player));
            }
        }
    }
}

impl GameState {
    /// A fresh game: an empty board, player 1 to move.
    pub fn new() -> (r: GameState)
        ensures
            r@ == initial_view(),
            consistent(r@),
    {
        let r = GameState {
            board: Board::default(),
            running: true,
            current_player: Player::Player1,
            pending_choice: None,
        };
        assert(r@.cells =~= initial_view().cells);
        r
    }

    /// Applies one typed line: a line that names an empty cell puts the
    /// current player's mark there; then a completed line through that cell
    /// wins, a full board draws, and otherwise the turn passes. Anything else
    /// leaves the board and the turn as they were.
    pub fn step(&mut self, line: &str) -> (r: Outcome)
        ensures
            (final(self)@, r) == step_result(old(self)@, line@),
    {
        if !self.running {
            return Outcome::Finished;
        }
        match read_move(line) {
            Err(e) => Outcome::Rejected(e),
            Ok(i) => {
                self.pending_choice = Some(i);
                let m = self.current_player.mark();
                match self.board.play(i, m) {
                    Err(e) => Outcome::Refused(e),
                    Ok(()) => match self.board.check_win(i) {
                        Some(w) => {
                            self.running = false;
                            Outcome::Won(w)
                        },
                        None => if self.board.is_full() {
                            self.running = false;
                            Outcome::Draw
                        } else {
                            self.current_player = self.current_player.other();
                            Outcome::Continue
                        },
                    },
                }
            },
        }
    }

    /// The prompt for the player to move.
    pub fn prompt(&self) -> (r: String)
        ensures
            r@ == prompt_text(self.current_player),
    {
        match self.current_player {
            Player::Player1 => String::from_str("Player 1's turn:"),
            Player::Player2 => String::from_str("Player 2's turn:"),
        }
    }

    /// Whether the game goes on.
    pub fn is_running(&self) -> (r: bool)
        ensures
            r == self.running,
    {
        self.running
    }
}

/// Adds to `out` the lines shown for outcome `o` on `board`.
fn write_report(out: &mut Vec<String>, o: Outcome, board: &Board)
    ensures
        views(final(out)@) == views(old(out)@) + report_text(o, board@),
{
    let ghost start = views(out@);
    match o {
        Outcome::Finished => {},
        Outcome::Rejected(InputError::NotANumber(f)) => {
            out.push(String::from_str(f.message()));
        },
        Outcome::Rejected(InputError::OutOfRange) | Outcome::Refused(MoveError::OutOfRange) => {
            out.push(String::from_str("Cell number must be between 0 and 8."));
        },
        Outcome::Refused(MoveError::CellOccupied) => {
            out.push(String::from_str("Cell already used. Try another cell."));
        },
        Outcome::Continue => {},
        Outcome::Won(Mark::X) => {
            out.push(String::from_str("X wins!"));
        },
        Outcome::Won(Mark::O) => {
            out.push(String::from_str("O wins!"));
        },
        Outcome::Draw => {
            out.push(String::from_str("Draw! The board is full."));
        },
    }
    match o {
        Outcome::Continue | Outcome::Won(_) | Outcome::Draw => {
            let mut lines = board.render();
            out.append(&mut lines);
        },
        _ => {},
    }
    assert(views(out@) =~= start + report_text(o, board@));
}

/// The lines shown for outcome `o`, given the board as it then stands.
pub fn report(o: Outcome, board: &Board) -> (r: Vec<String>)
    ensures
        views(r@) == report_text(o, board@),
{
    let mut r: Vec<String> = Vec::new();
    assert(views(r@) =~= Seq::empty());
    write_report(&mut r, o, board);
    assert(views(r@) =~= report_text(o, board@));
    r
}

/// The text shown once, before the first turn.
pub fn banner() -> (r: Vec<String>)
    ensures
        views(r@) == banner_text(),
{
    let mut r: Vec<String> = Vec::new();
    r.push(String::from_str("Tic Tac Toe"));
    r.push(String::from_str("-----------------"));
    r.push(String::from_str("Board cells are laid out like so:"));
    r.push(String::from_str("- - -\t0 1 2"));
    r.push(String::from_str("- - -\t3 4 5"));
    r.push(String::from_str("- - -\t6 7 8"));
    r.push(String::from_str("Player enters cell number to play their turn."));
    r.push(String::from_str("-----------------"));
    assert(views(r@) =~= banner_text());
    r
}

/// Plays one game on the typed lines `inputs`, in order, and returns every
/// line the console shows: the banner, then for each line read a prompt and
/// its report. Reading stops when the game ends or the lines run out.
pub fn game_loop(inputs: &Vec<String>) -> (r: Vec<String>)
    ensures
        views(r@) == banner_text() + session(initial_view(), views(inputs@)),
{
    let mut out = banner();
    let mut state = GameState::new();
    let ghost all = views(inputs@);
    let n = inputs.len();
    let mut k: usize = 0;
    assert(all.subrange(0, n as int) =~= all);
    while k < n && state.is_running()
        invariant
            k <= n == inputs@.len(),
            all == views(inputs@),
            banner_text() + session(initial_view(), all) == views(out@) + session(
                state@,
                all.subrange(k as int, n as int),
            ),
        decreases n - k,
    {
        let ghost before = state@;
        let ghost rest = all.subrange(k as int, n as int);
        let ghost shown = views(out@);
        out.push(state.prompt());
        let o = state.step(inputs[k].as_str());
        write_report(&mut out, o, &state.board);
        assert(rest[0] == inputs@[k as int]@);
        assert(rest.drop_first() =~= all.subrange(k + 1, n as int));
        assert(views(out@) =~= shown + seq![prompt_text(before.current_player)] + report_text(
            o,
            state@.cells,
        ));
        assert(session(before, rest) =~= seq![prompt_text(before.current_player)] + report_text(
            o,
            state@.cells,
        ) + session(state@, all.subrange(k + 1, n as int)));
        k += 1;
    }
    assert(views(out@) =~= banner_text() + session(initial_view(), all));
    out
}

} // verus!
