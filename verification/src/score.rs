//! The score of a board: a totally ordered value used by the search.
//!
//! A board is worth `Win` as soon as one of its ten lines is completed by
//! four pieces sharing an attribute value.  Otherwise each line contributes
//! points for every attribute value that several of its pieces already
//! share: two pieces are worth one point, three pieces two points.

use vstd::prelude::*;

use crate::board::{
    has_winning_line, line_cells, line_wins, lemma_pieces_of_upto, pieces_of, Board, Cell,
};
use crate::piece::{all_share_attr, piece_has_attr, winning_pieces, Piece};

verus! {

/// The value of a board: a number of points, or a won position.  `Win` is
/// greater than every `Point`; points compare by their magnitude.
#[derive(Debug, Clone, Copy, PartialEq, Eq, PartialOrd, Ord, Structural)]
pub enum Score {
    Point(usize),
    Win,
}

/// Total order on scores: `Win` above every `Point`, points by magnitude.
pub open spec fn score_le(a: Score, b: Score) -> bool {
    match (a, b) {
        (Score::Point(x), Score::Point(y)) => x <= y,
        (Score::Point(_), Score::Win) => true,
        (Score::Win, Score::Point(_)) => false,
        (Score::Win, Score::Win) => true,
    }
}

/// Strictly smaller score.
pub open spec fn score_lt(a: Score, b: Score) -> bool {
    score_le(a, b) && a != b
}

/// The greater of two scores.
pub open spec fn score_max(a: Score, b: Score) -> Score {
    if score_le(a, b) {
        b
    } else {
        a
    }
}

/// The smaller of two scores.
pub open spec fn score_min(a: Score, b: Score) -> Score {
    if score_le(a, b) {
        a
    } else {
        b
    }
}

impl Score {
    /// Whether this score is not above the other.
    pub fn le(&self, other: &Score) -> (r: bool)
        ensures
            r == score_le(*self, *other),
    {
        match (self, other) {
            (Score::Point(x), Score::Point(y)) => *x <= *y,
            (Score::Point(_), Score::Win) => true,
            (Score::Win, Score::Point(_)) => false,
            (Score::Win, Score::Win) => true,
        }
    }

    /// Whether this score is strictly below the other.
    pub fn lt(&self, other: &Score) -> (r: bool)
        ensures
            r == score_lt(*self, *other),
    {
        match (self, other) {
            (Score::Point(x), Score::Point(y)) => *x < *y,
            (Score::Point(_), Score::Win) => true,
            (Score::Win, _) => false,
        }
    }

    /// The greater of two scores.
    pub fn max_of(a: Score, b: Score) -> (r: Score)
        ensures
            r == score_max(a, b),
    {
        if a.le(&b) {
            b
        } else {
            a
        }
    }

    /// The smaller of two scores.
    pub fn min_of(a: Score, b: Score) -> (r: Score)
        ensures
            r == score_min(a, b),
    {
        if a.le(&b) {
            a
        } else {
            b
        }
    }

    /// Whether this score is the winning value.
    pub fn is_win(&self) -> (r: bool)
        ensures
            r == (*self is Win),
    {
        matches!(self, Score::Win)
    }
}

impl Default for Score {
    /// The default score: no points.
    fn default() -> (r: Self)
        ensures
            r == Score::Point(0usize),
    {
        Score::Point(0)
    }
}

/// How many of the pieces hold attribute value `a`.
pub open spec fn count_attr(s: Seq<Piece>, a: int) -> int
    decreases s.len(),
{
    if s.len() == 0 {
        0
    } else {
        count_attr(s.drop_last(), a) + if piece_has_attr(s.last(), a) {
            1int
        } else {
            0int
        }
    }
}

/// The points a count of pieces sharing one attribute value is worth:
/// none for fewer than two pieces, one for two, two for three.  A count of
/// four is never mapped to points; it makes the whole line a win.
pub open spec fn pts(c: int) -> int {
    if c == 2 {
        1
    } else if c == 3 {
        2
    } else {
        0
    }
}

/// The points of the attribute values below `a` for this set of pieces.
pub open spec fn attr_points_upto(s: Seq<Piece>, a: int) -> int
    decreases a,
{
    if a <= 0 {
        0
    } else {
        attr_points_upto(s, a - 1) + pts(count_attr(s, a - 1))
    }
}

/// The points of one line's pieces: the sum over the eight attribute values.
pub open spec fn pieces_points(s: Seq<Piece>) -> int {
    attr_points_upto(s, 8)
}

/// The score of one line's pieces: `Win` when all four share an attribute
/// value, otherwise their points.
pub open spec fn pieces_score(s: Seq<Piece>) -> Score {
    if exists|a: int| 0 <= a < 8 && count_attr(s, a) == 4 {
        Score::Win
    } else {
        Score::Point(pieces_points(s) as usize)
    }
}

/// The points of the lines below `l`.
pub open spec fn lines_points_upto(cells: Seq<Cell>, l: int) -> int
    decreases l,
{
    if l <= 0 {
        0
    } else {
        lines_points_upto(cells, l - 1) + pieces_points(pieces_of(line_cells(cells, l - 1)))
    }
}

/// The points of a board with no completed winning line: the sum of the ten
/// line contributions.
pub open spec fn board_points(cells: Seq<Cell>) -> int {
    lines_points_upto(cells, 10)
}

/// The score of a board: `Win` when some line is a completed winning line,
/// otherwise the sum of the line points.
pub open spec fn board_score(cells: Seq<Cell>) -> Score {
    if has_winning_line(cells) {
        Score::Win
    } else {
        Score::Point(board_points(cells) as usize)
    }
}

/// A count of pieces never exceeds the number of pieces, and reaches it
/// exactly when all of them hold the attribute value.
pub proof fn lemma_count_attr(s: Seq<Piece>, a: int)
    ensures
        0 <= count_attr(s, a) <= s.len(),
        count_attr(s, a) == s.len() <==> all_share_attr(s, a),
    decreases s.len(),
{
    if s.len() == 0 {
        assert(all_share_attr(s, a));
    } else {
        lemma_count_attr(s.drop_last(), a);
        assert(forall|k: int| 0 <= k < s.len() - 1 ==> s.drop_last()[k] == s[k]);
        if count_attr(s, a) == s.len() {
            assert forall|k: int| 0 <= k < s.len() implies piece_has_attr(#[trigger] s[k], a) by {
                if k < s.len() - 1 {
                    assert(all_share_attr(s.drop_last(), a));
                    assert(piece_has_attr(s.drop_last()[k], a));
                }
            }
        }
        if all_share_attr(s, a) {
            assert(all_share_attr(s.drop_last(), a));
        }
    }
}

/// The points of a set of pieces lie between 0 and 16.
pub proof fn lemma_attr_points_bound(s: Seq<Piece>, a: int)
    requires
        0 <= a <= 8,
    ensures
        0 <= attr_points_upto(s, a) <= 2 * a,
    decreases a,
{
    if a > 0 {
        lemma_attr_points_bound(s, a - 1);
    }
}

/// The points of a board lie between 0 and 160.
pub proof fn lemma_lines_points_bound(cells: Seq<Cell>, l: int)
    requires
        0 <= l <= 10,
    ensures
        0 <= lines_points_upto(cells, l) <= 16 * l,
    decreases l,
{
    if l > 0 {
        lemma_lines_points_bound(cells, l - 1);
        lemma_attr_points_bound(pieces_of(line_cells(cells, l - 1)), 8);
    }
}

/// A line of the board wins exactly when its pieces score `Win`: the line is
/// full and its four pieces share an attribute value.
pub proof fn lemma_line_wins_iff_win_score(cells: Seq<Cell>, l: int)
    requires
        cells.len() == 16,
    ensures
        line_wins(cells, l) <==> pieces_score(pieces_of(line_cells(cells, l))) == Score::Win,
{
    let cs = line_cells(cells, l);
    let s = pieces_of(cs);
    lemma_pieces_of_upto(cs, 4);
    if line_wins(cells, l) {
        assert(s.len() == 4);
        let a = choose|a: int| 0 <= a < 8 && all_share_attr(s, a);
        lemma_count_attr(s, a);
        assert(count_attr(s, a) == 4);
    }
    if pieces_score(s) == Score::Win {
        let a = choose|a: int| 0 <= a < 8 && count_attr(s, a) == 4;
        lemma_count_attr(s, a);
        assert(s.len() == 4);
        assert(winning_pieces(s));
    }
}

/// Law: a board with a completed winning line scores `Win`; a board without
/// one — in particular a fully filled, drawn board — scores a finite number
/// of points, between 0 and 160.
pub proof fn lemma_board_score_cases(cells: Seq<Cell>)
    ensures
        has_winning_line(cells) ==> board_score(cells) == Score::Win,
        !has_winning_line(cells) ==> board_score(cells) == Score::Point(
            board_points(cells) as usize,
        ) && 0 <= board_points(cells) <= 160,
{
    lemma_lines_points_bound(cells, 10);
}

impl Score {
    /// The score of the whole board: `Win` when a line is completed,
    /// otherwise the saturating sum of the ten line contributions.
    pub fn calc_score(board: &Board) -> (s: Score)
        requires
            board.wf(),
        ensures
            s == board_score(board@.cells),
    {
        let ghost cells = board@.cells;
        let mut total: usize = 0;
        let mut line: usize = 0;
        while line < 10
            invariant
                board.wf(),
                cells == board@.cells,
                line <= 10,
                total == lines_points_upto(cells, line as int),
                total <= 16 * line,
                forall|b: int| 0 <= b < line ==> !line_wins(cells, b),
            decreases 10 - line,
        {
            let line_cells_vec = board.line_cells_of(line);
            let line_score = Score::calc_range_point(&line_cells_vec);
            proof {
                lemma_line_wins_iff_win_score(cells, line as int);
                lemma_attr_points_bound(pieces_of(line_cells(cells, line as int)), 8);
            }
            match line_score {
                Score::Win => {
                    return Score::Win;
                },
                Score::Point(p) => {
                    total += p;
                },
            }
            line += 1;
        }
        proof {
            assert(!has_winning_line(cells));
        }
        Score::Point(total)
    }

    /// The score of one line, given its cells: the pieces already placed are
    /// collected (empty cells are ignored) and scored by shared attributes.
    pub fn calc_range_point(cells: &Vec<Cell>) -> (s: Score)
        ensures
            s == pieces_score(pieces_of(cells@)),
    {
        let pieces = Board::collect_pieces(cells);
        if pieces.len() == 0 {
            proof {
                assert forall|a: int| 0 <= a < 8 implies count_attr(pieces@, a) != 4 by {
                    lemma_count_attr(pieces@, a);
                }
                assert forall|a: int| 0 <= a <= 8 implies attr_points_upto(pieces@, a) == 0 by {
                    lemma_attr_points_zero(pieces@, a);
                }
            }
            return Score::Point(0);
        }
        let mut counts: Vec<usize> = Vec::new();
        let mut a: usize = 0;
        while a < 8
            invariant
                a <= 8,
                counts@.len() == a,
                forall|b: int| 0 <= b < a ==> counts@[b] == count_attr(pieces@, b),
            decreases 8 - a,
        {
            counts.push(Score::count_attribute(&pieces, a));
            a += 1;
        }
        let s = Score::calc_point(&counts);
        proof {
            lemma_counts_points(counts@, pieces@, 8);
        }
        s
    }

    /// How many of the pieces hold attribute value `a`.
    fn count_attribute(pieces: &Vec<Piece>, a: usize) -> (c: usize)
        requires
            a < 8,
        ensures
            c == count_attr(pieces@, a as int),
    {
        let mut c: usize = 0;
        let mut k: usize = 0;
        let n = pieces.len();
        proof {
            lemma_count_attr(pieces@, a as int);
        }
        while k < n
            invariant
                a < 8,
                n == pieces@.len(),
                k <= n,
                c == count_attr(pieces@.take(k as int), a as int),
                c <= k,
            decreases n - k,
        {
            proof {
                assert(pieces@.take(k + 1).drop_last() =~= pieces@.take(k as int));
                assert(pieces@.take(k + 1).last() == pieces@[k as int]);
                lemma_count_attr(pieces@.take(k as int), a as int);
            }
            if pieces[k].has_attribute(a) {
                c += 1;
            }
            k += 1;
        }
        proof {
            assert(pieces@.take(n as int) =~= pieces@);
        }
        c
    }

    /// The score for one line, given how many of its pieces hold each of the
    /// eight attribute values: a count of four wins, otherwise the counts'
    /// points are added up.
    pub fn calc_point(points: &Vec<usize>) -> (s: Score)
        requires
            points@.len() <= 8,
        ensures
            s == counts_score(points@),
    {
        let n = points.len();
        let mut total: usize = 0;
        let mut i: usize = 0;
        while i < n
            invariant
                n == points@.len() <= 8,
                i <= n,
                total == counts_points_upto(points@, i as int),
                total <= 2 * i,
                forall|j: int| 0 <= j < i ==> points@[j] != 4,
            decreases n - i,
        {
            let c = points[i];
            if c == 4 {
                return Score::Win;
            }
            if c == 2 {
                total += 1;
            } else if c == 3 {
                total += 2;
            }
            i += 1;
        }
        Score::Point(total)
    }
}

/// The points of the counts below `i`.
pub open spec fn counts_points_upto(cs: Seq<usize>, i: int) -> int
    decreases i,
{
    if i <= 0 {
        0
    } else {
        counts_points_upto(cs, i - 1) + pts(cs[i - 1] as int)
    }
}

/// The score of a full vector of counts: `Win` when one of them is four,
/// otherwise the sum of their points.
pub open spec fn counts_score(cs: Seq<usize>) -> Score {
    if exists|i: int| 0 <= i < cs.len() && cs[i] == 4 {
        Score::Win
    } else {
        Score::Point(counts_points_upto(cs, cs.len() as int) as usize)
    }
}

/// With no piece, no attribute value gathers any points.
proof fn lemma_attr_points_zero(s: Seq<Piece>, a: int)
    requires
        s.len() == 0,
    ensures
        attr_points_upto(s, a) == 0,
    decreases a,
{
    if a > 0 {
        lemma_attr_points_zero(s, a - 1);
    }
}

/// When each count agrees with the pieces, the counts' points agree with
/// the pieces' points.
proof fn lemma_counts_points(cs: Seq<usize>, s: Seq<Piece>, i: int)
    requires
        0 <= i <= cs.len(),
        forall|b: int| 0 <= b < cs.len() ==> cs[b] == count_attr(s, b),
    ensures
        counts_points_upto(cs, i) == attr_points_upto(s, i),
    decreases i,
{
    if i > 0 {
        lemma_counts_points(cs, s, i - 1);
    }
}

} // verus!
