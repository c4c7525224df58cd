//! The board: 16 cells and the pool of unplayed pieces.
//!
//! Cells are addressed by an `(x, y)` coordinate with `0 <= x, y < 4`, or
//! equivalently by the linear index `x + y * 4`.  A piece placed into a cell
//! is never cleared; the pool starts with all 16 pieces and only shrinks.

use vstd::prelude::*;

use crate::error::ErrorGame;
use crate::moves::Move;
use crate::piece::Piece;

verus! {

/// Number of columns of the board.
pub const WIDTH_BOARD: usize = 4;

/// Number of rows of the board.
pub const HEIGHT_BOARD: usize = 4;

/// One cell of the board: its coordinate and the piece it may hold.
#[derive(Debug, Clone, Copy, PartialEq, Eq)]
pub struct Cell {
    /// The piece placed on the cell, if any.
    pub piece: Option<Piece>,
    /// The horizontal coordinate, `0 <= x < 4`.
    pub x: usize,
    /// The vertical coordinate, `0 <= y < 4`.
    pub y: usize,
}

impl Cell {
    /// The coordinates lie on the board.
    pub open spec fn wf(self) -> bool {
        self.x < 4 && self.y < 4
    }

    /// The linear index of the cell.
    pub open spec fn index_spec(self) -> int {
        self.y * 4 + self.x
    }

    /// An empty cell at the given linear index; `IndexOutOfBound` if the
    /// index does not lie on the board.
    pub fn new(index: usize) -> (r: Result<Cell, ErrorGame>)
        ensures
            match r {
                Ok(c) => index < 16 && c.wf() && c.piece is None && c.index_spec() == index,
                Err(e) => index >= 16 && e == ErrorGame::IndexOutOfBound,
            },
    {
        match Board::index_to_coordinate(index) {
            Ok((x, y)) => Ok(Cell { piece: None, x, y }),
            Err(e) => Err(e),
        }
    }

    /// The linear index of the cell.
    pub fn to_index(&self) -> (i: usize)
        requires
            self.wf(),
        ensures
            i == self.index_spec(),
    {
        self.x + self.y * HEIGHT_BOARD
    }

    /// The `(x, y)` coordinate of the cell.
    pub fn to_coordinate(&self) -> (c: (usize, usize))
        ensures
            c == (self.x, self.y),
    {
        (self.x, self.y)
    }

    /// The board's cell at the given linear index.
    pub fn from_index(board: &Board, index: usize) -> (r: Result<Cell, ErrorGame>)
        requires
            board.wf(),
        ensures
            match r {
                Ok(c) => index < 16 && c == board@.cells[index as int],
                Err(e) => index >= 16 && e == ErrorGame::IndexOutOfBound,
            },
    {
        if index < 16 {
            Ok(board.cells[index])
        } else {
            Err(ErrorGame::IndexOutOfBound)
        }
    }

    /// The board's cell at the given coordinate.
    pub fn from_coordinate(board: &Board, x: usize, y: usize) -> (r: Result<Cell, ErrorGame>)
        requires
            board.wf(),
        ensures
            match r {
                Ok(c) => x < 4 && y < 4 && c == board@.cells[y * 4 + x],
                Err(e) => (x >= 4 || y >= 4) && e == ErrorGame::IndexOutOfBound,
            },
    {
        match Board::coordinate_to_index(x, y) {
            Ok(i) => Ok(board.cells[i]),
            Err(e) => Err(e),
        }
    }

    /// The piece on the cell, if any.
    pub fn piece(&self) -> (p: Option<Piece>)
        ensures
            p == self.piece,
    {
        self.piece
    }
}

/// The mathematical state of a board: its 16 cells and its pool of
/// still-playable pieces.
#[verifier::ext_equal]
pub struct BoardModel {
    pub cells: Seq<Cell>,
    pub pool: Seq<Piece>,
}

impl BoardModel {
    /// Well-formed state: 16 cells, each at its own index, and a pool
    /// strictly ordered by canonical piece index (hence without duplicates).
    pub open spec fn wf(self) -> bool {
        &&& self.cells.len() == 16
        &&& forall|i: int|
            0 <= i < 16 ==> (#[trigger] self.cells[i]).wf() && self.cells[i].index_spec() == i
        &&& forall|i: int, j: int|
            0 <= i < j < self.pool.len() ==> (#[trigger] self.pool[i]).index_spec() < (
            #[trigger] self.pool[j]).index_spec()
    }

    /// Another turn can be played: a piece is still available or a cell is
    /// still empty.
    pub open spec fn can_play(self) -> bool {
        self.pool.len() > 0 || exists|i: int| 0 <= i < 16 && self.cells[i].piece is None
    }
}

/// The empty cells among the first `n`, in ascending index order.
pub open spec fn empties_upto(cells: Seq<Cell>, n: int) -> Seq<Cell>
    decreases n,
{
    if n <= 0 {
        Seq::empty()
    } else {
        let rest = empties_upto(cells, n - 1);
        if cells[n - 1].piece is None {
            rest.push(cells[n - 1])
        } else {
            rest
        }
    }
}

/// The empty cells of the board, in ascending index order.
pub open spec fn empties(m: BoardModel) -> Seq<Cell> {
    empties_upto(m.cells, 16)
}

/// The linear index of the `k`-th cell of line `line`.  The ten lines are
/// numbered in the order the board is scanned: the four rows (top to
/// bottom), the four columns (left to right), the diagonal from top-left to
/// bottom-right, and the diagonal from top-right to bottom-left.
pub open spec fn line_cell(line: int, k: int) -> int {
    if line < 4 {
        line * 4 + k
    } else if line < 8 {
        k * 4 + (line - 4)
    } else if line == 8 {
        k * 4 + k
    } else {
        k * 4 + (3 - k)
    }
}

/// The four cells of line `line`, in scan order.
pub open spec fn line_cells(cells: Seq<Cell>, line: int) -> Seq<Cell> {
    Seq::new(4, |k: int| cells[line_cell(line, k)])
}

/// The pieces held by the first `n` cells of the sequence, skipping empty
/// cells, in cell order.
pub open spec fn pieces_of_upto(cs: Seq<Cell>, n: int) -> Seq<Piece>
    decreases n,
{
    if n <= 0 {
        Seq::empty()
    } else {
        let rest = pieces_of_upto(cs, n - 1);
        match cs[n - 1].piece {
            Some(p) => rest.push(p),
            None => rest,
        }
    }
}

/// The pieces held by the cells of the sequence, skipping empty cells.
pub open spec fn pieces_of(cs: Seq<Cell>) -> Seq<Piece> {
    pieces_of_upto(cs, cs.len() as int)
}

/// The cells form a winning position: all of them occupied, and their
/// pieces a winning set.
pub open spec fn cells_winning(cs: Seq<Cell>) -> bool {
    (forall|k: int| 0 <= k < cs.len() ==> (#[trigger] cs[k]).piece is Some) && crate::piece::winning_pieces(
        pieces_of(cs),
    )
}

/// Line `line` of the board is a completed winning line.
pub open spec fn line_wins(cells: Seq<Cell>, line: int) -> bool {
    cells_winning(line_cells(cells, line))
}

/// Some line of the board is a completed winning line.
pub open spec fn has_winning_line(cells: Seq<Cell>) -> bool {
    exists|line: int| 0 <= line < 10 && line_wins(cells, line)
}

/// The first winning line at or after `l`, or 10 if there is none.
pub open spec fn first_win_from(cells: Seq<Cell>, l: int) -> int
    decreases 10 - l,
{
    if l < 0 || l >= 10 {
        10
    } else if line_wins(cells, l) {
        l
    } else {
        first_win_from(cells, l + 1)
    }
}

/// When no line before `l` wins and `l` wins, `l` is the first winning line.
pub proof fn lemma_first_win_from(cells: Seq<Cell>, a: int, l: int)
    requires
        0 <= a <= l < 10,
        forall|b: int| a <= b < l ==> !line_wins(cells, b),
        line_wins(cells, l),
    ensures
        first_win_from(cells, a) == l,
    decreases l - a,
{
    if a < l {
        lemma_first_win_from(cells, a + 1, l);
    }
}

/// The number of pieces on a stretch of cells is at most its length, and
/// equals it exactly when every cell is occupied.
pub proof fn lemma_pieces_of_upto(cs: Seq<Cell>, n: int)
    requires
        0 <= n <= cs.len(),
    ensures
        pieces_of_upto(cs, n).len() <= n,
        pieces_of_upto(cs, n).len() == n <==> forall|k: int|
            0 <= k < n ==> (#[trigger] cs[k]).piece is Some,
    decreases n,
{
    if n > 0 {
        lemma_pieces_of_upto(cs, n - 1);
    }
}

/// The moves that play one given piece: one for each empty cell, in cell
/// order.
pub open spec fn row_moves(p: Piece, empt: Seq<Cell>) -> Seq<Move> {
    Seq::new(empt.len(), |j: int| Move { piece: p, cell: empt[j] })
}

/// The moves that play any available piece: the cartesian product of the
/// pool and the empty cells, in piece-then-cell ascending order.
pub open spec fn all_moves(pool: Seq<Piece>, empt: Seq<Cell>) -> Seq<Move> {
    Seq::new(
        pool.len() * empt.len(),
        |k: int| Move { piece: pool[k / (empt.len() as int)], cell: empt[k % (empt.len() as int)] },
    )
}

/// A pool of distinct pieces holds at most 16 of them.
pub proof fn lemma_pool_index_lb(pool: Seq<Piece>, i: int)
    requires
        forall|a: int, b: int|
            0 <= a < b < pool.len() ==> (#[trigger] pool[a]).index_spec() < (
            #[trigger] pool[b]).index_spec(),
        0 <= i < pool.len(),
    ensures
        pool[i].index_spec() >= i,
    decreases i,
{
    if i > 0 {
        lemma_pool_index_lb(pool, i - 1);
    }
}

/// A well-formed board has at most 16 pieces in its pool.
pub proof fn lemma_pool_len(m: BoardModel)
    requires
        m.wf(),
    ensures
        m.pool.len() <= 16,
{
    if m.pool.len() > 16 {
        lemma_pool_index_lb(m.pool, 16);
    }
}

/// Shape of the empty-cell listing: at most `n` cells, every listed cell
/// empty and standing in the scanned prefix, and some cell of the prefix
/// empty exactly when the listing is non-empty.
pub proof fn lemma_empties_upto(cells: Seq<Cell>, n: int)
    requires
        0 <= n <= cells.len(),
    ensures
        empties_upto(cells, n).len() <= n,
        forall|k: int|
            0 <= k < empties_upto(cells, n).len() ==> (#[trigger] empties_upto(cells, n)[k]).piece
                is None && exists|i: int| 0 <= i < n && cells[i] == empties_upto(cells, n)[k],
        (exists|i: int| 0 <= i < n && cells[i].piece is None) <==> empties_upto(cells, n).len() > 0,
    decreases n,
{
    if n > 0 {
        lemma_empties_upto(cells, n - 1);
        let prev = empties_upto(cells, n - 1);
        let cur = empties_upto(cells, n);
        assert forall|k: int| 0 <= k < cur.len() implies (#[trigger] cur[k]).piece is None
            && exists|i: int| 0 <= i < n && cells[i] == cur[k] by {
            if k < prev.len() {
                assert(cur[k] == prev[k]);
                let w = choose|i: int| 0 <= i < n - 1 && cells[i] == prev[k];
                assert(cells[w] == cur[k]);
            } else {
                assert(cells[n - 1] == cur[k]);
            }
        }
        if exists|i: int| 0 <= i < n && cells[i].piece is None {
            let w = choose|i: int| 0 <= i < n && cells[i].piece is None;
            if w < n - 1 {
                assert(exists|i: int| 0 <= i < n - 1 && cells[i].piece is None);
            }
        }
    }
}

/// On a well-formed board, every listed empty cell is the board's cell at
/// its own index.
pub proof fn lemma_empties(m: BoardModel)
    requires
        m.wf(),
    ensures
        empties(m).len() <= 16,
        forall|k: int|
            0 <= k < empties(m).len() ==> {
                let e = #[trigger] empties(m)[k];
                &&& e.wf()
                &&& e.piece is None
                &&& 0 <= e.index_spec() < 16
                &&& m.cells[e.index_spec()] == e
            },
        (exists|i: int| 0 <= i < 16 && m.cells[i].piece is None) <==> empties(m).len() > 0,
{
    lemma_empties_upto(m.cells, 16);
    assert forall|k: int| 0 <= k < empties(m).len() implies {
        let e = #[trigger] empties(m)[k];
        &&& e.wf()
        &&& e.piece is None
        &&& 0 <= e.index_spec() < 16
        &&& m.cells[e.index_spec()] == e
    } by {
        let w = choose|i: int| 0 <= i < 16 && m.cells[i] == empties(m)[k];
        assert(m.cells[w].index_spec() == w);
    }
}

/// The first position of `p` in `s`, or `s.len()` if it does not occur.
pub open spec fn seq_find(s: Seq<Piece>, p: Piece) -> int
    decreases s.len(),
{
    if s.len() == 0 {
        0
    } else if s[0] == p {
        0
    } else {
        1 + seq_find(s.skip(1), p)
    }
}

/// The pool after removing the piece `p`: unchanged when `p` is absent.
pub open spec fn pool_remove(s: Seq<Piece>, p: Piece) -> Seq<Piece> {
    if s.contains(p) {
        s.remove(seq_find(s, p))
    } else {
        s
    }
}

/// The state after applying a move: the piece stands in the cell and has
/// left the pool.
pub open spec fn model_after(m: BoardModel, mv: Move) -> BoardModel {
    let i = mv.cell.index_spec();
    let c = m.cells[i];
    BoardModel {
        cells: m.cells.update(i, Cell { piece: Some(mv.piece), x: c.x, y: c.y }),
        pool: pool_remove(m.pool, mv.piece),
    }
}

/// `seq_find` names the first occurrence: the element there is `p` and no
/// earlier element is.
pub proof fn lemma_seq_find(s: Seq<Piece>, p: Piece)
    ensures
        s.contains(p) ==> {
            let i = seq_find(s, p);
            &&& 0 <= i < s.len()
            &&& s[i] == p
            &&& forall|j: int| 0 <= j < i ==> s[j] != p
        },
        !s.contains(p) ==> seq_find(s, p) == s.len(),
    decreases s.len(),
{
    if s.len() == 0 {
    } else if s[0] == p {
    } else {
        lemma_seq_find(s.skip(1), p);
        assert(forall|j: int| 0 <= j < s.skip(1).len() ==> s.skip(1)[j] == s[j + 1]);
        if s.contains(p) {
            let w = choose|w: int| 0 <= w < s.len() && s[w] == p;
            assert(s.skip(1)[w - 1] == p);
            assert(s.skip(1).contains(p));
            let i2 = seq_find(s.skip(1), p);
            assert(s[i2 + 1] == p);
            assert forall|j: int| 0 <= j < i2 + 1 implies s[j] != p by {
                if j >= 1 {
                    assert(s.skip(1)[j - 1] != p);
                }
            }
        } else {
            if s.skip(1).contains(p) {
                let w = choose|w: int| 0 <= w < s.skip(1).len() && s.skip(1)[w] == p;
                assert(s[w + 1] == p);
            }
        }
    }
}

/// The state of the game as derived from a board: still in progress, won
/// (with the four winning cells, in ascending index order), or drawn.
#[derive(Debug, Clone, PartialEq, Eq)]
pub enum BoardState {
    /// No winner yet and the game can continue.
    GameInProgress,
    /// A winning line was found; the four cells that complete it.
    Win(Vec<Cell>),
    /// No winner and nothing left to play.
    Draw,
}

/// Law: a removed piece is gone for good.  After a successful
/// [`Board::remove`] the pool no longer holds the piece, so by `remove`'s
/// contract a second `remove` of the same piece returns
/// `PieceDoesNotBelongPlayable` and leaves the board unchanged.
pub proof fn lemma_remove_twice(m: BoardModel, p: Piece)
    requires
        m.wf(),
        m.pool.contains(p),
    ensures
        !pool_remove(m.pool, p).contains(p),
{
    lemma_seq_find(m.pool, p);
    let f = seq_find(m.pool, p);
    let s2 = m.pool.remove(f);
    assert(pool_remove(m.pool, p) == s2);
    if s2.contains(p) {
        let w = choose|w: int| 0 <= w < s2.len() && s2[w] == p;
        if w < f {
            assert(s2[w] == m.pool[w]);
        } else {
            assert(s2[w] == m.pool[w + 1]);
            assert(m.pool[f].index_spec() < m.pool[w + 1].index_spec());
        }
        assert(false);
    }
}

/// The board: the 16 cells and the pieces not yet removed from play.
#[derive(Clone, PartialEq, Eq)]
pub struct Board {
    /// The 16 cells, stored in linear-index order.
    pub cells: Vec<Cell>,
    /// The pieces that can still be played, in canonical-index order.
    pub available_pieces: Vec<Piece>,
}

impl View for Board {
    type V = BoardModel;

    open spec fn view(&self) -> BoardModel {
        BoardModel { cells: self.cells@, pool: self.available_pieces@ }
    }
}

impl Board {
    /// Well-formed board (see [`BoardModel::wf`]).
    pub open spec fn wf(self) -> bool {
        self@.wf()
    }

    /// All 16 pieces of the game, in canonical-index order.
    pub fn generate_all_pieces() -> (v: Vec<Piece>)
        ensures
            v@.len() == 16,
            forall|i: int| 0 <= i < 16 ==> (#[trigger] v@[i]).index_spec() == i,
    {
        let mut v: Vec<Piece> = Vec::new();
        let mut i: usize = 0;
        while i < 16
            invariant
                i <= 16,
                v@.len() == i,
                forall|j: int| 0 <= j < i ==> (#[trigger] v@[j]).index_spec() == j,
            decreases 16 - i,
        {
            v.push(Piece::of_index(i));
            i += 1;
        }
        v
    }

    /// The 16 empty cells of a fresh board, in linear-index order.
    pub fn generate_all_cells() -> (v: Vec<Cell>)
        ensures
            v@.len() == 16,
            forall|i: int|
                0 <= i < 16 ==> (#[trigger] v@[i]).wf() && v@[i].index_spec() == i
                    && v@[i].piece is None,
    {
        let mut v: Vec<Cell> = Vec::new();
        let mut i: usize = 0;
        while i < 16
            invariant
                i <= 16,
                v@.len() == i,
                forall|j: int|
                    0 <= j < i ==> (#[trigger] v@[j]).wf() && v@[j].index_spec() == j
                        && v@[j].piece is None,
            decreases 16 - i,
        {
            let c = Cell { piece: None, x: i % 4, y: i / 4 };
            v.push(c);
            i += 1;
        }
        v
    }

    /// The linear index of an `(x, y)` coordinate; `IndexOutOfBound` when
    /// the coordinate lies outside the board.
    pub fn coordinate_to_index(x: usize, y: usize) -> (r: Result<usize, ErrorGame>)
        ensures
            match r {
                Ok(i) => x < 4 && y < 4 && i == y * 4 + x,
                Err(e) => (x >= 4 || y >= 4) && e == ErrorGame::IndexOutOfBound,
            },
    {
        if x >= WIDTH_BOARD || y >= HEIGHT_BOARD {
            return Err(ErrorGame::IndexOutOfBound);
        }
        Ok(y * HEIGHT_BOARD + x)
    }

    /// The `(x, y)` coordinate of a linear index; `IndexOutOfBound` when the
    /// index does not lie on the board.
    pub fn index_to_coordinate(index: usize) -> (r: Result<(usize, usize), ErrorGame>)
        ensures
            match r {
                Ok(c) => index < 16 && c.0 == index % 4 && c.1 == index / 4 && c.0 < 4 && c.1 < 4
                    && c.1 * 4 + c.0 == index,
                Err(e) => index >= 16 && e == ErrorGame::IndexOutOfBound,
            },
    {
        if index >= WIDTH_BOARD * HEIGHT_BOARD {
            return Err(ErrorGame::IndexOutOfBound);
        }
        Ok((index % WIDTH_BOARD, index / HEIGHT_BOARD))
    }

    /// Create a fresh board: 16 empty cells, all 16 pieces available.
    pub fn create() -> (b: Board)
        ensures
            b.wf(),
            b@.pool.len() == 16,
            forall|i: int| 0 <= i < 16 ==> (#[trigger] b@.pool[i]).index_spec() == i,
            forall|i: int| 0 <= i < 16 ==> b@.cells[i].piece is None,
    {
        Board { cells: Board::generate_all_cells(), available_pieces: Board::generate_all_pieces() }
    }

    /// Another turn can be played: the pool is non-empty or a cell is empty.
    pub fn can_play_another_turn(&self) -> (r: bool)
        requires
            self.wf(),
        ensures
            r == self@.can_play(),
    {
        if self.available_pieces.len() > 0 {
            return true;
        }
        let mut i: usize = 0;
        while i < 16
            invariant
                self.wf(),
                i <= 16,
                forall|j: int| 0 <= j < i ==> self@.cells[j].piece is Some,
            decreases 16 - i,
        {
            if self.cells[i].piece.is_none() {
                return true;
            }
            i += 1;
        }
        false
    }

    /// Place a piece into a cell of this board.  Fails with `CellIsNotEmpty`
    /// when the target cell already holds a piece, and then leaves the board
    /// unchanged.  Placing does not remove the piece from the pool.
    pub fn play(&mut self, piece: Piece, cell: Cell) -> (r: Result<Piece, ErrorGame>)
        requires
            old(self).wf(),
            cell.wf(),
        ensures
            final(self).wf(),
            final(self)@.pool == old(self)@.pool,
            match old(self)@.cells[cell.index_spec()].piece {
                Some(q) => r == Err::<Piece, ErrorGame>(
                    ErrorGame::CellIsNotEmpty(old(self)@.cells[cell.index_spec()], q),
                ) && *final(self) == *old(self),
                None => r == Ok::<Piece, ErrorGame>(piece) && final(self)@.cells
                    == old(self)@.cells.update(
                    cell.index_spec(),
                    Cell { piece: Some(piece), x: cell.x, y: cell.y },
                ),
            },
    {
        let index = cell.to_index();
        match self.cells[index].piece {
            Some(existing) => Err(ErrorGame::CellIsNotEmpty(self.cells[index], existing)),
            None => {
                proof {
                    assert(old(self)@.cells[index as int].x == cell.x && old(
                        self,
                    )@.cells[index as int].y == cell.y);
                }
                let placed = Cell { piece: Some(piece), x: cell.x, y: cell.y };
                self.cells.set(index, placed);
                proof {
                    assert(self.available_pieces == old(self).available_pieces);
                    assert(self@.pool == old(self)@.pool);
                    assert forall|i: int|
                        0 <= i < 16 implies (#[trigger] self@.cells[i]).wf()
                        && self@.cells[i].index_spec() == i by {
                        if i != index as int {
                            assert(self@.cells[i] == old(self)@.cells[i]);
                        }
                    }
                }
                Ok(piece)
            },
        }
    }

    /// Remove a piece from the pool of playable pieces.  Fails with
    /// `PieceDoesNotBelongPlayable` when the piece is not in the pool, and
    /// then leaves the board unchanged.
    pub fn remove(&mut self, piece: Piece) -> (r: Result<Piece, ErrorGame>)
        requires
            old(self).wf(),
        ensures
            final(self).wf(),
            final(self)@.cells == old(self)@.cells,
            if old(self)@.pool.contains(piece) {
                r == Ok::<Piece, ErrorGame>(piece) && final(self)@.pool == pool_remove(
                    old(self)@.pool,
                    piece,
                ) && !final(self)@.pool.contains(piece) && final(self)@.pool.len() == old(
                    self,
                )@.pool.len() - 1
            } else {
                r == Err::<Piece, ErrorGame>(ErrorGame::PieceDoesNotBelongPlayable) && *final(self)
                    == *old(self)
            },
    {
        let ghost pool0 = self@.pool;
        let n = self.available_pieces.len();
        let mut i: usize = 0;
        while i < n
            invariant
                self.wf(),
                *self == *old(self),
                self@.pool == pool0,
                n == pool0.len(),
                i <= n,
                forall|j: int| 0 <= j < i ==> pool0[j] != piece,
            decreases n - i,
        {
            if self.available_pieces[i] == piece {
                self.available_pieces.remove(i);
                proof {
                    lemma_seq_find(pool0, piece);
                    assert(pool0.contains(piece));
                    let f = seq_find(pool0, piece);
                    // the pool has no duplicates, so the first occurrence is i
                    assert(f == i) by {
                        if f < i {
                            assert(pool0[f] != piece);
                        } else if f > i {
                            assert(pool0[f].index_spec() > pool0[i as int].index_spec());
                        }
                    }
                    assert(self@.pool == pool_remove(pool0, piece));
                    assert forall|a: int, b: int|
                        0 <= a < b < self@.pool.len() implies (
                    #[trigger] self@.pool[a]).index_spec() < (
                    #[trigger] self@.pool[b]).index_spec() by {
                        assert(self@.pool[a] == if a < i {
                            pool0[a]
                        } else {
                            pool0[a + 1]
                        });
                        assert(self@.pool[b] == if b < i {
                            pool0[b]
                        } else {
                            pool0[b + 1]
                        });
                    }
                    assert forall|k: int| 0 <= k < self@.pool.len() implies self@.pool[k]
                        != piece by {
                        if k < i {
                            assert(self@.pool[k] == pool0[k]);
                        } else {
                            assert(self@.pool[k] == pool0[k + 1]);
                            assert(pool0[k + 1].index_spec() > pool0[i as int].index_spec());
                        }
                    }
                    if self@.pool.contains(piece) {
                        let w = choose|w: int|
                            0 <= w < self@.pool.len() && self@.pool[w] == piece;
                        assert(false);
                    }
                }
                return Ok(piece);
            }
            i += 1;
        }
        proof {
            if pool0.contains(piece) {
                let w = choose|w: int| 0 <= w < pool0.len() && pool0[w] == piece;
                assert(false);
            }
        }
        Err(ErrorGame::PieceDoesNotBelongPlayable)
    }

    /// Play a piece into a cell and remove it from the pool: the combination
    /// of [`Board::play`] and [`Board::remove`], and the only operation the
    /// search uses to advance a branch.
    pub fn play_and_remove_piece(&mut self, m: &Move) -> (r: Result<Piece, ErrorGame>)
        requires
            old(self).wf(),
            m.cell.wf(),
        ensures
            final(self).wf(),
            match old(self)@.cells[m.cell.index_spec()].piece {
                Some(q) => r == Err::<Piece, ErrorGame>(
                    ErrorGame::CellIsNotEmpty(old(self)@.cells[m.cell.index_spec()], q),
                ) && *final(self) == *old(self),
                None => if old(self)@.pool.contains(m.piece) {
                    r == Ok::<Piece, ErrorGame>(m.piece) && final(self)@ == model_after(
                        old(self)@,
                        *m,
                    )
                } else {
                    &&& r == Err::<Piece, ErrorGame>(ErrorGame::PieceDoesNotBelongPlayable)
                    &&& final(self)@.pool == old(self)@.pool
                    &&& final(self)@.cells == model_after(old(self)@, *m).cells
                },
            },
    {
        match self.play(m.piece(), m.cell()) {
            Ok(_) => {},
            Err(e) => {
                return Err(e);
            },
        }
        match self.remove(m.piece()) {
            Ok(p) => Ok(p),
            Err(e) => Err(e),
        }
    }

    /// The pieces that can still be played, in canonical-index order.
    pub fn get_available_pieces(&self) -> (v: Vec<Piece>)
        ensures
            v@ == self@.pool,
    {
        let mut v: Vec<Piece> = Vec::new();
        let mut i: usize = 0;
        let n = self.available_pieces.len();
        while i < n
            invariant
                n == self@.pool.len(),
                i <= n,
                v@ == self@.pool.take(i as int),
            decreases n - i,
        {
            v.push(self.available_pieces[i]);
            proof {
                assert(v@ =~= self@.pool.take(i + 1));
            }
            i += 1;
        }
        proof {
            assert(v@ =~= self@.pool);
        }
        v
    }

    /// The pool piece whose canonical index is `index`;
    /// `PieceDoesNotBelongPlayable` when no such piece is available.
    pub fn get_piece_from_available(&self, index: usize) -> (r: Result<Piece, ErrorGame>)
        requires
            self.wf(),
        ensures
            match r {
                Ok(p) => self@.pool.contains(p) && p.index_spec() == index,
                Err(e) => e == ErrorGame::PieceDoesNotBelongPlayable && forall|k: int|
                    0 <= k < self@.pool.len() ==> (#[trigger] self@.pool[k]).index_spec() != index,
            },
    {
        let n = self.available_pieces.len();
        let mut i: usize = 0;
        while i < n
            invariant
                self.wf(),
                n == self@.pool.len(),
                i <= n,
                forall|k: int| 0 <= k < i ==> (#[trigger] self@.pool[k]).index_spec() != index,
            decreases n - i,
        {
            let p = self.available_pieces[i];
            if p.piece_index() == index {
                proof {
                    assert(self@.pool[i as int] == p);
                }
                return Ok(p);
            }
            i += 1;
        }
        Err(ErrorGame::PieceDoesNotBelongPlayable)
    }

    /// An independent copy of the board, for the search to mutate while the
    /// live board stays untouched.
    pub fn duplicate(&self) -> (b: Board)
        ensures
            b@ == self@,
    {
        let mut cells: Vec<Cell> = Vec::new();
        let mut i: usize = 0;
        let nc = self.cells.len();
        while i < nc
            invariant
                nc == self@.cells.len(),
                i <= nc,
                cells@ == self@.cells.take(i as int),
            decreases nc - i,
        {
            cells.push(self.cells[i]);
            proof {
                assert(cells@ =~= self@.cells.take(i + 1));
            }
            i += 1;
        }
        let mut pool: Vec<Piece> = Vec::new();
        let mut j: usize = 0;
        let np = self.available_pieces.len();
        while j < np
            invariant
                np == self@.pool.len(),
                j <= np,
                pool@ == self@.pool.take(j as int),
            decreases np - j,
        {
            pool.push(self.available_pieces[j]);
            proof {
                assert(pool@ =~= self@.pool.take(j + 1));
            }
            j += 1;
        }
        let b = Board { cells, available_pieces: pool };
        proof {
            assert(b@.cells =~= self@.cells);
            assert(b@.pool =~= self@.pool);
            assert(b@ =~= self@);
        }
        b
    }

    /// Borrow the cells, in linear-index order.
    pub fn get_cells(&self) -> (v: &Vec<Cell>)
        ensures
            v@ == self@.cells,
    {
        &self.cells
    }

    /// The linear index of the `k`-th cell of line `line`.
    pub(crate) fn line_cell_index(line: usize, k: usize) -> (i: usize)
        requires
            line < 10,
            k < 4,
        ensures
            i == line_cell(line as int, k as int),
            i < 16,
    {
        if line < 4 {
            line * 4 + k
        } else if line < 8 {
            k * 4 + (line - 4)
        } else if line == 8 {
            k * 4 + k
        } else {
            k * 4 + (3 - k)
        }
    }

    /// The four cells of line `line`, in scan order.
    pub(crate) fn line_cells_of(&self, line: usize) -> (v: Vec<Cell>)
        requires
            self.wf(),
            line < 10,
        ensures
            v@ == line_cells(self@.cells, line as int),
    {
        let mut v: Vec<Cell> = Vec::new();
        let mut k: usize = 0;
        while k < 4
            invariant
                self.wf(),
                line < 10,
                k <= 4,
                v@.len() == k,
                forall|j: int|
                    0 <= j < k ==> v@[j] == self@.cells[line_cell(line as int, j)],
            decreases 4 - k,
        {
            let i = Board::line_cell_index(line, k);
            v.push(self.cells[i]);
            k += 1;
        }
        proof {
            assert(v@ =~= line_cells(self@.cells, line as int));
        }
        v
    }

    /// The two diagonals: first top-left to bottom-right, then top-right to
    /// bottom-left.
    pub fn get_diagonal_cells(board: &Board) -> (r: (Vec<Cell>, Vec<Cell>))
        requires
            board.wf(),
        ensures
            r.0@ == line_cells(board@.cells, 8),
            r.1@ == line_cells(board@.cells, 9),
    {
        (board.line_cells_of(8), board.line_cells_of(9))
    }

    /// The pieces held by the given cells, skipping empty cells.
    pub(crate) fn collect_pieces(cells: &Vec<Cell>) -> (v: Vec<Piece>)
        ensures
            v@ == pieces_of(cells@),
    {
        let mut v: Vec<Piece> = Vec::new();
        let mut k: usize = 0;
        let n = cells.len();
        while k < n
            invariant
                n == cells@.len(),
                k <= n,
                v@ == pieces_of_upto(cells@, k as int),
            decreases n - k,
        {
            match cells[k].piece {
                Some(p) => {
                    v.push(p);
                },
                None => {},
            }
            k += 1;
        }
        v
    }

    /// The given cells are a winning position: all occupied, their pieces
    /// sharing one of the eight attribute values.
    pub fn check_cell_is_winning(cells: &Vec<Cell>) -> (win: bool)
        ensures
            win == cells_winning(cells@),
    {
        let n = cells.len();
        let mut k: usize = 0;
        while k < n
            invariant
                n == cells@.len(),
                k <= n,
                forall|j: int| 0 <= j < k ==> (#[trigger] cells@[j]).piece is Some,
            decreases n - k,
        {
            if cells[k].piece.is_none() {
                return false;
            }
            k += 1;
        }
        let pieces = Board::collect_pieces(cells);
        Piece::check_piece_is_winning(&pieces)
    }

    /// The state of the game: the first winning line in scan order if one is
    /// completed, otherwise `Draw` when nothing is left to play, otherwise
    /// `GameInProgress`.
    pub fn board_state(&self) -> (r: BoardState)
        requires
            self.wf(),
        ensures
            match r {
                BoardState::Win(v) => {
                    let l = first_win_from(self@.cells, 0);
                    &&& has_winning_line(self@.cells)
                    &&& 0 <= l < 10
                    &&& line_wins(self@.cells, l)
                    &&& v@ == line_cells(self@.cells, l)
                },
                BoardState::Draw => !has_winning_line(self@.cells) && !self@.can_play(),
                BoardState::GameInProgress => !has_winning_line(self@.cells) && self@.can_play(),
            },
    {
        let mut line: usize = 0;
        while line < 10
            invariant
                self.wf(),
                line <= 10,
                forall|b: int| 0 <= b < line ==> !line_wins(self@.cells, b),
            decreases 10 - line,
        {
            let cells_line = self.line_cells_of(line);
            if Board::check_cell_is_winning(&cells_line) {
                proof {
                    assert(line_wins(self@.cells, line as int));
                    lemma_first_win_from(self@.cells, 0, line as int);
                    assert(first_win_from(self@.cells, 0) == line as int);
                    assert(has_winning_line(self@.cells));
                }
                return BoardState::Win(cells_line);
            }
            line += 1;
        }
        if !self.can_play_another_turn() {
            return BoardState::Draw;
        }
        BoardState::GameInProgress
    }

    /// The empty cells of the board, in ascending index order.
    pub fn get_empty_cells(&self) -> (v: Vec<Cell>)
        requires
            self.wf(),
        ensures
            v@ == empties(self@),
    {
        let mut v: Vec<Cell> = Vec::new();
        let mut i: usize = 0;
        while i < 16
            invariant
                self.wf(),
                i <= 16,
                v@ == empties_upto(self@.cells, i as int),
            decreases 16 - i,
        {
            if self.cells[i].piece.is_none() {
                v.push(self.cells[i]);
            }
            i += 1;
        }
        v
    }
}

impl Board {
    /// Every move that can be played at once: each available piece into each
    /// empty cell, in piece-then-cell ascending order.  There are exactly
    /// `pool length * empty cells` of them.
    pub fn get_available_moves(&self) -> (v: Vec<Move>)
        requires
            self.wf(),
        ensures
            v@ == all_moves(self@.pool, empties(self@)),
            v@.len() == self@.pool.len() * empties(self@).len(),
    {
        let ghost pool = self@.pool;
        let ghost empt = empties(self@);
        let pieces = self.get_available_pieces();
        let empty_cells = self.get_empty_cells();
        let np = pieces.len();
        let ne = empty_cells.len();
        let mut v: Vec<Move> = Vec::new();
        let mut i: usize = 0;
        while i < np
            invariant
                pieces@ == pool,
                empty_cells@ == empt,
                np == pool.len(),
                ne == empt.len(),
                i <= np,
                v@.len() == i * ne,
                forall|a: int, b: int|
                    0 <= a < i && 0 <= b < ne ==> v@[a * ne + b] == (Move {
                        piece: pool[a],
                        cell: empt[b],
                    }),
            decreases np - i,
        {
            let mut j: usize = 0;
            while j < ne
                invariant
                    pieces@ == pool,
                    empty_cells@ == empt,
                    np == pool.len(),
                    ne == empt.len(),
                    i < np,
                    j <= ne,
                    v@.len() == i * ne + j,
                    forall|a: int, b: int|
                        0 <= a < i && 0 <= b < ne ==> v@[a * ne + b] == (Move {
                            piece: pool[a],
                            cell: empt[b],
                        }),
                    forall|b: int|
                        0 <= b < j ==> v@[i * ne + b] == (Move { piece: pool[i as int], cell: empt[b] }),
                decreases ne - j,
            {
                v.push(Move { piece: pieces[i], cell: empty_cells[j] });
                j += 1;
                proof {
                    assert forall|a: int, b: int|
                        0 <= a < i && 0 <= b < ne implies v@[a * ne + b] == (Move {
                        piece: pool[a],
                        cell: empt[b],
                    }) by {
                        assert(a * ne + b < i * ne) by (nonlinear_arith)
                            requires
                                0 <= a < i,
                                0 <= b < ne,
                        ;
                    }
                }
            }
            proof {
                assert((i + 1) * ne == i * ne + ne) by (nonlinear_arith);
                assert forall|a: int, b: int|
                    0 <= a < i + 1 && 0 <= b < ne implies v@[a * ne + b] == (Move {
                    piece: pool[a],
                    cell: empt[b],
                }) by {
                    if a < i {
                        assert(a * ne + b < i * ne + ne) by (nonlinear_arith)
                            requires
                                a < i,
                                b < ne,
                                0 <= a,
                                0 <= b,
                                0 <= ne,
                        ;
                    }
                }
            }
            i += 1;
        }
        proof {
            assert(v@.len() == np * ne);
            assert forall|k: int| 0 <= k < pool.len() * empt.len() implies v@[k] == all_moves(
                pool,
                empt,
            )[k] by {
                let e = empt.len() as int;
                vstd::arithmetic::div_mod::lemma_fundamental_div_mod(k, e);
                vstd::arithmetic::div_mod::lemma_mod_bound(k, e);
                let a = k / e;
                let b = k % e;
                assert(k == e * a + b);
                assert(a < pool.len() && 0 <= a) by (nonlinear_arith)
                    requires
                        k == e * a + b,
                        0 <= k < pool.len() * e,
                        0 <= b < e,
                ;
                assert(v@[a * e + b] == (Move { piece: pool[a], cell: empt[b] }));
            }
            assert(v@ =~= all_moves(pool, empt));
        }
        v
    }

    /// Every move that plays the given piece: one for each empty cell, in
    /// ascending cell order.
    pub fn get_available_moves_from_piece(&self, piece: Piece) -> (v: Vec<Move>)
        requires
            self.wf(),
        ensures
            v@ == row_moves(piece, empties(self@)),
            v@.len() == empties(self@).len(),
    {
        let ghost empt = empties(self@);
        let empty_cells = self.get_empty_cells();
        let ne = empty_cells.len();
        let mut v: Vec<Move> = Vec::new();
        let mut j: usize = 0;
        while j < ne
            invariant
                empty_cells@ == empt,
                ne == empt.len(),
                j <= ne,
                v@.len() == j,
                forall|b: int| 0 <= b < j ==> v@[b] == (Move { piece, cell: empt[b] }),
            decreases ne - j,
        {
            v.push(Move { piece, cell: empty_cells[j] });
            j += 1;
        }
        proof {
            assert(v@ =~= row_moves(piece, empt));
        }
        v
    }
}

impl Piece {
    /// The pool piece whose canonical index is `index`;
    /// `PieceDoesNotBelongPlayable` when no such piece is available.
    pub fn from_index(board: &Board, index: usize) -> (r: Result<Piece, ErrorGame>)
        requires
            board.wf(),
        ensures
            match r {
                Ok(p) => board@.pool.contains(p) && p.index_spec() == index,
                Err(e) => e == ErrorGame::PieceDoesNotBelongPlayable && forall|k: int|
                    0 <= k < board@.pool.len() ==> (#[trigger] board@.pool[k]).index_spec()
                        != index,
            },
    {
        board.get_piece_from_available(index)
    }

    /// The canonical index of this piece if it is still in the pool;
    /// `PieceDoesNotBelongPlayable` otherwise.
    pub fn to_index(&self, board: &Board) -> (r: Result<usize, ErrorGame>)
        requires
            board.wf(),
        ensures
            match r {
                Ok(i) => board@.pool.contains(*self) && i == self.index_spec(),
                Err(e) => e == ErrorGame::PieceDoesNotBelongPlayable && !board@.pool.contains(
                    *self,
                ),
            },
    {
        let n = board.available_pieces.len();
        let mut i: usize = 0;
        while i < n
            invariant
                board.wf(),
                n == board@.pool.len(),
                i <= n,
                forall|k: int| 0 <= k < i ==> board@.pool[k] != *self,
            decreases n - i,
        {
            if board.available_pieces[i] == *self {
                proof {
                    assert(board@.pool[i as int] == *self);
                }
                return Ok(self.piece_index());
            }
            i += 1;
        }
        proof {
            if board@.pool.contains(*self) {
                let w = choose|w: int| 0 <= w < board@.pool.len() && board@.pool[w] == *self;
                assert(false);
            }
        }
        Err(ErrorGame::PieceDoesNotBelongPlayable)
    }
}

} // verus!
