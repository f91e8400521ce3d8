//! The 3x3 board, its eight winning lines, moves and win detection.
use vstd::prelude::*;

verus! {

/// The symbol a player puts on the board.
#[derive(Clone, Copy, PartialEq, Eq, Structural, Debug)]
pub enum Mark {
    X,
    O,
}

/// What a cell holds.
#[derive(Clone, Copy, PartialEq, Eq, Structural, Debug)]
pub enum CellState {
    Empty,
    X,
    O,
}

/// The cell state that a mark leaves behind.
pub open spec fn cell_of(m: Mark) -> CellState {
    match m {
        Mark::X => CellState::X,
        Mark::O => CellState::O,
    }
}

/// The text shown for a cell.
pub open spec fn symbol(c: CellState) -> Seq<char> {
    match c {
        CellState::Empty => "-"@,
        CellState::X => "X"@,
        CellState::O => "O"@,
    }
}

impl Mark {
    /// The cell state that this mark leaves behind.
    pub fn cell(self) -> (r: CellState)
        ensures
            r == cell_of(self),
    {
        match self {
            Mark::X => CellState::X,
            Mark::O => CellState::O,
        }
    }
}

impl CellState {
    /// The one-character text of a cell: `-`, `X` or `O`.
    pub fn as_str(&self) -> (r: &'static str)
        ensures
            r@ == symbol(*self),
    {
        match self {
            CellState::Empty => "-",
            CellState::X => "X",
            CellState::O => "O",
        }
    }
}


/// Why a move was refused.
#[derive(Clone, Copy, PartialEq, Eq, Structural, Debug)]
pub enum MoveError {
    /// The index names no cell.
    OutOfRange,
    /// The cell already holds a mark.
    CellOccupied,
}

/// The number of cells on the board.
pub const CELLS: usize = 9;

/// The number of winning lines.
pub const LINES: usize = 8;

/// The cells of the `k`-th winning line: three rows, three columns, two diagonals.
pub open spec fn line(k: int) -> (int, int, int) {
    if k == 0 {
        (0, 1, 2)
    } else if k == 1 {
        (3, 4, 5)
    } else if k == 2 {
        (6, 7, 8)
    } else if k == 3 {
        (0, 3, 6)
    } else if k == 4 {
        (1, 4, 7)
    } else if k == 5 {
        (2, 5, 8)
    } else if k == 6 {
        (0, 4, 8)
    } else {
        (2, 4, 6)
    }
}

/// Whether line `k` passes through cell `i`.
pub open spec fn on_line(k: int, i: int) -> bool {
    line(k).0 == i || line(k).1 == i || line(k).2 == i
}

/// Whether all three cells of line `k` hold mark `m`.
pub open spec fn line_won(cells: Seq<CellState>, k: int, m: Mark) -> bool {
    &&& cells[line(k).0] == cell_of(m)
    &&& cells[line(k).1] == cell_of(m)
    &&& cells[line(k).2] == cell_of(m)
}

/// Whether some line is fully held by `m`.
pub open spec fn has_line(cells: Seq<CellState>, m: Mark) -> bool {
    exists|k: int| 0 <= k < LINES && #[trigger] line_won(cells, k, m)
}

/// Whether some line through cell `i` is fully held by `m`.
pub open spec fn has_line_through(cells: Seq<CellState>, i: int, m: Mark) -> bool {
    exists|k: int| 0 <= k < LINES && on_line(k, i) && #[trigger] line_won(cells, k, m)
}

/// The winner found on the lines through cell `i`; `X` is reported first.
pub open spec fn winner_through(cells: Seq<CellState>, i: int) -> Option<Mark> {
    if has_line_through(cells, i, Mark::X) {
        Some(Mark::X)
    } else if has_line_through(cells, i, Mark::O) {
        Some(Mark::O)
    } else {
        None
    }
}

/// Whether no cell is empty.
pub open spec fn full(cells: Seq<CellState>) -> bool {
    forall|i: int| 0 <= i < cells.len() ==> cells[i] != CellState::Empty
}

/// Whether a mark may go on cell `index`: the cell must exist and be empty.
pub open spec fn play_result(cells: Seq<CellState>, index: int) -> Result<(), MoveError> {
    if !(0 <= index < CELLS) {
        Err(MoveError::OutOfRange)
    } else if cells[index] != CellState::Empty {
        Err(MoveError::CellOccupied)
    } else {
        Ok(())
    }
}

/// One row of the board as text: three symbols separated by spaces.
pub open spec fn row_text(cells: Seq<CellState>, r: int) -> Seq<char> {
    symbol(cells[3 * r]) + " "@ + symbol(cells[3 * r + 1]) + " "@ + symbol(cells[3 * r + 2])
}

/// The line printed under the board.
pub open spec fn separator_text() -> Seq<char> {
    "-----------------"@
}

/// The board as text: its three rows, then the separator.
pub open spec fn board_text(cells: Seq<CellState>) -> Seq<Seq<char>> {
    seq![row_text(cells, 0), row_text(cells, 1), row_text(cells, 2), separator_text()]
}

/// The views of a sequence of strings.
pub open spec fn views(v: Seq<String>) -> Seq<Seq<char>> {
    v.map_values(|s: String| s@)
}

/// The cells of the `k`-th winning line.
pub fn line_cells(k: usize) -> (r: (usize, usize, usize))
    requires
        k < LINES,
    ensures
        r.0 == line(k as int).0,
        r.1 == line(k as int).1,
        r.2 == line(k as int).2,
{
    if k == 0 {
        (0, 1, 2)
    } else if k == 1 {
        (3, 4, 5)
    } else if k == 2 {
        (6, 7, 8)
    } else if k == 3 {
        (0, 3, 6)
    } else if k == 4 {
        (1, 4, 7)
    } else if k == 5 {
        (2, 5, 8)
    } else if k == 6 {
        (0, 4, 8)
    } else {
        (2, 4, 6)
    }
}

/// The other mark.
pub open spec fn opponent(m: Mark) -> Mark {
    match m {
        Mark::X => Mark::O,
        Mark::O => Mark::X,
    }
}

/// When no line was complete before a move, a line is complete after it
/// exactly when the mover holds one, that line passes through the cell just
/// played, and the other mark holds none: so the check on the lines through
/// the played cell reports the mover exactly when some line of the board is
/// the mover's, and reports nothing otherwise.
pub proof fn lemma_win_after_play(before: Board, index: usize, m: Mark)
    requires
        !has_line(before@, Mark::X),
        !has_line(before@, Mark::O),
        play_result(before@, index as int) is Ok,
    ensures
        ({
            let after = before@.update(index as int, cell_of(m));
            &&& winner_through(after, index as int) == (if has_line(after, m) {
                Some(m)
            } else {
                None
            })
            &&& !has_line(after, opponent(m))
        }),
{
    let after = before@.update(index as int, cell_of(m));
    assert forall|k: int, m2: Mark| 0 <= k < LINES && #[trigger] line_won(after, k, m2) implies on_line(
        k,
        index as int,
    ) && m2 == m by {
        if !on_line(k, index as int) {
            assert(line_won(before@, k, m2));
        } else {
            assert(after[index as int] == cell_of(m));
        }
    }
    if has_line(after, m) {
        let k = choose|k: int| 0 <= k < LINES && #[trigger] line_won(after, k, m);
        assert(on_line(k, index as int));
    }
}

/// Nine cells, numbered row by row from the top left:
/// `0 1 2` / `3 4 5` / `6 7 8`.
#[derive(Clone, Copy, Debug)]
pub struct Board {
    pub cells: [CellState; 9],
}

impl View for Board {
    type V = Seq<CellState>;

    open spec fn view(&self) -> Seq<CellState> {
        self.cells@
    }
}

impl Default for Board {
    /// A board with every cell empty.
    fn default() -> (r: Board)
        ensures
            r@.len() == CELLS,
            forall|i: int| 0 <= i < CELLS ==> r@[i] == CellState::Empty,
    {
        Board { cells: [CellState::Empty; 9] }
    }
}

impl Board {
    /// The state of cell `index`.
    pub fn cell_state(&self, index: usize) -> (r: CellState)
        requires
            index < CELLS,
        ensures
            r == self@[index as int],
    {
        self.cells[index]
    }

    /// Puts `mark` on cell `index` if that cell exists and is empty; no
    /// other cell changes, and a refused move changes nothing.
    pub fn play(&mut self, index: usize, mark: Mark) -> (r: Result<(), MoveError>)
        ensures
            r == play_result(old(self)@, index as int),
            r is Ok ==> final(self)@ == old(self)@.update(index as int, cell_of(mark)),
            r is Err ==> final(self)@ == old(self)@,
    {
        if index >= CELLS {
            return Err(MoveError::OutOfRange);
        }
        match self.cells[index] {
            CellState::Empty => {
                self.cells[index] = mark.cell();
                Ok(())
            },
            _ => Err(MoveError::CellOccupied),
        }
    }

    /// Looks for a line through cell `index` whose three cells hold one
    /// mark. `X` is reported before `O`; `None` when neither has one.
    pub fn check_win(&self, index: usize) -> (r: Option<Mark>)
        ensures
            r == winner_through(self@, index as int),
    {
        let mut x_found = false;
        let mut o_found = false;
        let mut k: usize = 0;
        while k < LINES
            invariant
                k <= LINES,
                self@.len() == CELLS,
                x_found == exists|j: int|
                    0 <= j < k && on_line(j, index as int) && #[trigger] line_won(self@, j, Mark::X),
                o_found == exists|j: int|
                    0 <= j < k && on_line(j, index as int) && #[trigger] line_won(self@, j, Mark::O),
            decreases LINES - k,
        {
            let (a, b, c) = line_cells(k);
            if a == index || b == index || c == index {
                let (sa, sb, sc) = (self.cells[a], self.cells[b], self.cells[c]);
                if sa == CellState::X && sb == CellState::X && sc == CellState::X {
                    x_found = true;
                }
                if sa == CellState::O && sb == CellState::O && sc == CellState::O {
                    o_found = true;
                }
            }
            assert(line_won(self@, k as int, Mark::X) == (self@[a as int] == CellState::X
                && self@[b as int] == CellState::X && self@[c as int] == CellState::X));
            assert(line_won(self@, k as int, Mark::O) == (self@[a as int] == CellState::O
                && self@[b as int] == CellState::O && self@[c as int] == CellState::O));
            k += 1;
        }
        if x_found {
            Some(Mark::X)
        } else if o_found {
            Some(Mark::O)
        } else {
            None
        }
    }

    /// Whether every cell holds a mark.
    pub fn is_full(&self) -> (r: bool)
        ensures
            r == full(self@),
    {
        let mut i: usize = 0;
        while i < CELLS
            invariant
                i <= CELLS,
                self@.len() == CELLS,
                forall|j: int| 0 <= j < i ==> self@[j] != CellState::Empty,
            decreases CELLS - i,
        {
            if self.cells[i] == CellState::Empty {
                return false;
            }
            i += 1;
        }
        true
    }

    /// One row of the board as text.
    fn row(&self, r: usize) -> (s: String)
        requires
            r < 3,
        ensures
            s@ == row_text(self@, r as int),
    {
        let mut s = String::from_str(self.cells[3 * r].as_str());
        s.append(" ");
        s.append(self.cells[3 * r + 1].as_str());
        s.append(" ");
        s.append(self.cells[3 * r + 2].as_str());
        s
    }

    /// The board as the lines to print: three rows of symbols, then a separator.
    pub fn render(&self) -> (r: Vec<String>)
        ensures
            views(r@) == board_text(self@),
    {
        let mut r: Vec<String> = Vec::new();
        r.push(self.row(0));
        r.push(self.row(1));
        r.push(self.row(2));
        r.push(String::from_str("-----------------"));
        assert(views(r@) =~= board_text(self@));
        r
    }
}

} // verus!
