//! The depth-bounded minimax search.
//!
//! A node's value is the board score at depth zero or on a board with
//! nothing left to play; otherwise the candidate moves are visited in
//! piece-then-cell ascending order, each on a fresh copy of the board, and
//! the children's values are folded with `max` (when the node maximises) or
//! `min` (when it minimises).  The chosen move is the first candidate, in
//! generation order, whose value equals the node's final value.

use vstd::prelude::*;
use vstd::string::StringExecFns;

use crate::board::{
    all_moves, empties, lemma_empties, lemma_pool_len, model_after, row_moves, Board, BoardModel,
};
use crate::error::ErrorGame;
use crate::moves::Move;
use crate::piece::Piece;
use crate::score::{board_score, score_le, score_lt, score_max, score_min, Score};

verus! {

/// The fold's starting value: the worst score for the side to move.
pub open spec fn init_score(maximise: bool) -> Score {
    if maximise {
        Score::Point(0usize)
    } else {
        Score::Win
    }
}

/// Fold two scores as the side to move does: keep the better one when
/// maximising, the worse one when minimising.
pub open spec fn combine(maximise: bool, acc: Score, child: Score) -> Score {
    if maximise {
        score_max(acc, child)
    } else {
        score_min(acc, child)
    }
}

/// The candidate moves of a node: the fixed piece against every empty cell
/// when a piece constraint is set, otherwise every available piece against
/// every empty cell.
pub open spec fn candidates(m: BoardModel, constraint: Option<Piece>) -> Seq<Move> {
    match constraint {
        Some(p) => row_moves(p, empties(m)),
        None => all_moves(m.pool, empties(m)),
    }
}

/// The minimax value of a position: the board score at a leaf, otherwise
/// the children's values folded over the candidates.
pub open spec fn minmax_score(
    m: BoardModel,
    depth: nat,
    maximise: bool,
    constraint: Option<Piece>,
) -> Score
    decreases depth, candidates(m, constraint).len() + 1,
{
    if depth == 0 || !m.can_play() {
        board_score(m.cells)
    } else {
        minmax_fold(m, depth, maximise, constraint, 0, init_score(maximise))
    }
}

/// The running fold of the children's values, from candidate `i` on,
/// starting from `acc`.
pub open spec fn minmax_fold(
    m: BoardModel,
    depth: nat,
    maximise: bool,
    constraint: Option<Piece>,
    i: int,
    acc: Score,
) -> Score
    decreases depth, candidates(m, constraint).len() - i,
{
    let mvs = candidates(m, constraint);
    if depth == 0 || i < 0 || i >= mvs.len() {
        acc
    } else {
        let child = minmax_score(model_after(m, mvs[i]), (depth - 1) as nat, !maximise, None);
        minmax_fold(m, depth, maximise, constraint, i + 1, combine(maximise, acc, child))
    }
}

/// The value a candidate move leads to: the minimax value of the board
/// after the move, one level deeper, for the other side.
pub open spec fn child_score(m: BoardModel, depth: nat, maximise: bool, mv: Move) -> Score {
    minmax_score(model_after(m, mv), (depth - 1) as nat, !maximise, None)
}

/// The first candidate from `i` on whose value equals `target`.
pub open spec fn first_match_from(
    m: BoardModel,
    depth: nat,
    maximise: bool,
    mvs: Seq<Move>,
    target: Score,
    i: int,
) -> Option<Move>
    decreases mvs.len() - i,
{
    if i < 0 || i >= mvs.len() {
        None
    } else if child_score(m, depth, maximise, mvs[i]) == target {
        Some(mvs[i])
    } else {
        first_match_from(m, depth, maximise, mvs, target, i + 1)
    }
}

/// The move the search selects: the first candidate, in generation order,
/// whose value equals the node's minimax value.
pub open spec fn search_selected_move(
    m: BoardModel,
    depth: nat,
    maximise: bool,
    constraint: Option<Piece>,
) -> Option<Move> {
    first_match_from(
        m,
        depth,
        maximise,
        candidates(m, constraint),
        minmax_score(m, depth, maximise, constraint),
        0,
    )
}

/// The fold's result bounds its starting value and every folded child, and
/// is one of them.
pub proof fn lemma_fold_props(
    m: BoardModel,
    depth: nat,
    maximise: bool,
    constraint: Option<Piece>,
    i: int,
    acc: Score,
)
    requires
        depth >= 1,
        0 <= i <= candidates(m, constraint).len(),
    ensures
        ({
            let mvs = candidates(m, constraint);
            let r = minmax_fold(m, depth, maximise, constraint, i, acc);
            &&& maximise ==> score_le(acc, r) && forall|j: int|
                i <= j < mvs.len() ==> score_le(child_score(m, depth, maximise, #[trigger] mvs[j]), r)
            &&& !maximise ==> score_le(r, acc) && forall|j: int|
                i <= j < mvs.len() ==> score_le(r, child_score(m, depth, maximise, #[trigger] mvs[j]))
            &&& r == acc || exists|j: int|
                i <= j < mvs.len() && r == child_score(m, depth, maximise, #[trigger] mvs[j])
        }),
    decreases candidates(m, constraint).len() - i,
{
    let mvs = candidates(m, constraint);
    if i < mvs.len() {
        let child = child_score(m, depth, maximise, mvs[i]);
        let acc2 = combine(maximise, acc, child);
        lemma_fold_props(m, depth, maximise, constraint, i + 1, acc2);
        let r = minmax_fold(m, depth, maximise, constraint, i, acc);
        assert(r == minmax_fold(m, depth, maximise, constraint, i + 1, acc2));
        if r == acc2 && acc2 != acc {
            assert(r == child);
        }
    }
}

/// On a playable board with at least one candidate, the minimax value is
/// the value of one of the candidates.
pub proof fn lemma_minmax_has_witness(
    m: BoardModel,
    depth: nat,
    maximise: bool,
    constraint: Option<Piece>,
)
    requires
        depth >= 1,
        m.can_play(),
        candidates(m, constraint).len() > 0,
    ensures
        exists|j: int|
            0 <= j < candidates(m, constraint).len() && child_score(
                m,
                depth,
                maximise,
                #[trigger] candidates(m, constraint)[j],
            ) == minmax_score(m, depth, maximise, constraint),
{
    let mvs = candidates(m, constraint);
    let r = minmax_score(m, depth, maximise, constraint);
    lemma_fold_props(m, depth, maximise, constraint, 0, init_score(maximise));
    assert(r == minmax_fold(m, depth, maximise, constraint, 0, init_score(maximise)));
    if r == init_score(maximise) {
        let c0 = child_score(m, depth, maximise, mvs[0]);
        if maximise {
            assert(score_le(c0, r));
            assert(score_le(init_score(true), c0));
            assert(c0 == r);
        } else {
            assert(score_le(r, c0));
            assert(c0 == r);
        }
    }
}

/// A first match exists exactly when some candidate attains the target, and
/// it is itself such a candidate.
pub proof fn lemma_first_match(
    m: BoardModel,
    depth: nat,
    maximise: bool,
    mvs: Seq<Move>,
    target: Score,
    i: int,
)
    requires
        0 <= i <= mvs.len(),
    ensures
        (exists|j: int|
            i <= j < mvs.len() && child_score(m, depth, maximise, #[trigger] mvs[j]) == target)
            <==> first_match_from(m, depth, maximise, mvs, target, i) is Some,
        first_match_from(m, depth, maximise, mvs, target, i) matches Some(mv) ==> exists|j: int|
            i <= j < mvs.len() && #[trigger] mvs[j] == mv && child_score(m, depth, maximise, mv)
                == target,
    decreases mvs.len() - i,
{
    if i < mvs.len() {
        if child_score(m, depth, maximise, mvs[i]) == target {
        } else {
            lemma_first_match(m, depth, maximise, mvs, target, i + 1);
        }
    }
}

/// The search node: the piece constraint of the root, the move the node
/// stands for (or selected), its folded score, the remaining depth, whether
/// it maximises, and its explored children.
pub struct MinMaxTree {
    /// The piece that must be played, when one was handed to the player.
    pub piece: Option<Piece>,
    /// The move this node stands for; at the root, the move the search
    /// selected once it has run.
    pub selected_move: Option<Move>,
    /// The folded minimax score.  This is not the score of the current
    /// board, except at leaves.
    pub score: Score,
    /// The remaining search depth.
    pub depth: usize,
    /// Whether this node takes the best score for the side to move.
    pub maximise: bool,
    /// The explored children, in candidate order.
    pub children: Vec<MinMaxTree>,
}

/// The move of the first child whose score equals `target`, from `i` on.
pub open spec fn first_child_match_from(
    children: Seq<MinMaxTree>,
    target: Score,
    i: int,
) -> Option<Move>
    decreases children.len() - i,
{
    if i < 0 || i >= children.len() {
        None
    } else if children[i].score == target {
        children[i].selected_move
    } else {
        first_child_match_from(children, target, i + 1)
    }
}

impl MinMaxTree {
    /// The display name of this strategy.
    pub fn name() -> (r: String)
        ensures
            r@ == "MinMaxTree"@,
    {
        String::from_str("MinMaxTree")
    }

    /// A fresh root node.
    pub fn new(depth: usize, maximise: bool) -> (t: MinMaxTree)
        ensures
            t.piece is None,
            t.selected_move is None,
            t.score == init_score(maximise),
            t.depth == depth,
            t.maximise == maximise,
            t.children@.len() == 0,
    {
        MinMaxTree {
            piece: None,
            selected_move: None,
            score: if maximise {
                Score::Point(0)
            } else {
                Score::Win
            },
            depth,
            maximise,
            children: Vec::new(),
        }
    }

    /// A fresh node standing for one candidate move.
    pub fn from_move(c_move: Move, depth: usize, maximise: bool) -> (t: MinMaxTree)
        ensures
            t.piece is None,
            t.selected_move == Some(c_move),
            t.score == init_score(maximise),
            t.depth == depth,
            t.maximise == maximise,
            t.children@.len() == 0,
    {
        MinMaxTree {
            piece: None,
            selected_move: Some(c_move),
            score: if maximise {
                Score::Point(0)
            } else {
                Score::Win
            },
            depth,
            maximise,
            children: Vec::new(),
        }
    }

    /// Reset a node that has already searched, so it can search again.
    pub fn reset(&mut self)
        ensures
            old(self).children@.len() == 0 ==> *final(self) == *old(self),
            old(self).children@.len() > 0 ==> {
                &&& final(self).piece is None
                &&& final(self).selected_move is None
                &&& final(self).score == init_score(old(self).maximise)
                &&& final(self).depth == old(self).depth
                &&& final(self).maximise == old(self).maximise
                &&& final(self).children@.len() == 0
            },
    {
        if self.children.len() > 0 {
            *self = MinMaxTree::new(self.depth, self.maximise);
        }
    }

    /// Whether the node explored no children.
    pub fn is_leaf(&self) -> (r: bool)
        ensures
            r == (self.children@.len() == 0),
    {
        self.children.len() == 0
    }

    /// Fix the piece the root must play.
    pub fn with_piece(self, piece: Piece) -> (t: MinMaxTree)
        ensures
            t == (MinMaxTree { piece: Some(piece), ..self }),
    {
        MinMaxTree { piece: Some(piece), ..self }
    }

    /// The remaining search depth.
    pub fn depth(&self) -> (d: usize)
        ensures
            d == self.depth,
    {
        self.depth
    }

    /// The search depth used when `nb_piece_left` pieces have been removed
    /// from play: deeper search as the branching factor shrinks.
    pub fn calc_adequat_depth(nb_piece_left: usize) -> (d: usize)
        ensures
            d == adequat_depth(nb_piece_left as int),
    {
        if nb_piece_left <= 7 {
            2
        } else if nb_piece_left <= 10 {
            3
        } else if nb_piece_left <= 15 {
            4
        } else {
            0
        }
    }

    /// If no move is selected yet, select the move of the first child whose
    /// score equals the node's score.
    pub fn update_move_from_first_child(&mut self)
        ensures
            final(self).piece == old(self).piece,
            final(self).score == old(self).score,
            final(self).depth == old(self).depth,
            final(self).maximise == old(self).maximise,
            final(self).children == old(self).children,
            old(self).selected_move is Some ==> *final(self) == *old(self),
            old(self).selected_move is None ==> final(self).selected_move
                == first_child_match_from(old(self).children@, old(self).score, 0),
    {
        if self.selected_move.is_none() {
            let n = self.children.len();
            let mut i: usize = 0;
            while i < n
                invariant
                    n == self.children@.len(),
                    i <= n,
                    *self == *old(self),
                    old(self).selected_move is None,
                    first_child_match_from(self.children@, self.score, 0)
                        == first_child_match_from(self.children@, self.score, i as int),
                decreases n - i,
            {
                if self.children[i].score == self.score {
                    let mv = self.children[i].selected_move;
                    self.selected_move = mv;
                    return ;
                }
                i += 1;
            }
        }
    }
}

/// Every candidate move is playable: its cell is an empty cell of the
/// board, its piece is in the pool.
pub proof fn lemma_candidate_playable(m: BoardModel, constraint: Option<Piece>, k: int)
    requires
        m.wf(),
        0 <= k < candidates(m, constraint).len(),
        constraint matches Some(p) ==> m.pool.contains(p),
    ensures
        ({
            let mv = candidates(m, constraint)[k];
            &&& mv.cell.wf()
            &&& 0 <= mv.cell.index_spec() < 16
            &&& m.cells[mv.cell.index_spec()] == mv.cell
            &&& mv.cell.piece is None
            &&& m.pool.contains(mv.piece)
        }),
{
    lemma_empties(m);
    let e = empties(m).len() as int;
    match constraint {
        Some(p) => {
            assert(candidates(m, constraint)[k] == (Move { piece: p, cell: empties(m)[k] }));
        },
        None => {
            assert(e > 0) by (nonlinear_arith)
                requires
                    0 <= k < m.pool.len() * e,
                    e >= 0,
            ;
            vstd::arithmetic::div_mod::lemma_fundamental_div_mod(k, e);
            vstd::arithmetic::div_mod::lemma_mod_bound(k, e);
            let a = k / e;
            let b = k % e;
            assert(0 <= a < m.pool.len()) by (nonlinear_arith)
                requires
                    k == e * a + b,
                    0 <= b < e,
                    0 <= k < m.pool.len() * e,
            ;
            assert(m.pool.contains(m.pool[a]));
            assert(candidates(m, constraint)[k] == (Move { piece: m.pool[a], cell: empties(m)[b] }));
        },
    }
}

/// When every child stands for its candidate and carries that candidate's
/// value, the first matching child selects the first matching candidate.
proof fn lemma_child_match_agree(
    children: Seq<MinMaxTree>,
    m: BoardModel,
    depth: nat,
    maximise: bool,
    cands: Seq<Move>,
    target: Score,
    i: int,
)
    requires
        children.len() == cands.len(),
        0 <= i <= cands.len(),
        forall|j: int|
            0 <= j < cands.len() ==> (#[trigger] children[j]).score == child_score(
                m,
                depth,
                maximise,
                cands[j],
            ) && children[j].selected_move == Some(cands[j]),
    ensures
        first_child_match_from(children, target, i) == first_match_from(
            m,
            depth,
            maximise,
            cands,
            target,
            i,
        ),
    decreases cands.len() - i,
{
    if 0 <= i < cands.len() {
        lemma_child_match_agree(children, m, depth, maximise, cands, target, i + 1);
    }
}

/// The candidate moves of a board, ready to be played: the fixed piece
/// against every empty cell when one is given, otherwise every available
/// piece against every empty cell.
pub(crate) fn get_moves(board: &Board, piece: Option<Piece>) -> (v: Vec<Move>)
    requires
        board.wf(),
    ensures
        v@ == candidates(board@, piece),
{
    match piece {
        Some(p) => board.get_available_moves_from_piece(p),
        None => board.get_available_moves(),
    }
}

impl MinMaxTree {
    /// Evaluate a position: fold the candidates' values into a score, keep
    /// each explored child, and select the first candidate whose value
    /// equals the final score (unless a move is preset).
    fn minmax_eval(
        board: &Board,
        depth: usize,
        maximise: bool,
        constraint: Option<Piece>,
        preset: Option<Move>,
    ) -> (node: MinMaxTree)
        requires
            board.wf(),
            constraint matches Some(p) ==> board@.pool.contains(p),
        ensures
            node.piece == constraint,
            node.depth == depth,
            node.maximise == maximise,
            node.score == minmax_score(board@, depth as nat, maximise, constraint),
            depth == 0 || !board@.can_play() ==> node.selected_move == preset
                && node.children@.len() == 0,
            depth >= 1 && board@.can_play() ==> {
                let cands = candidates(board@, constraint);
                &&& node.children@.len() == cands.len()
                &&& (forall|i: int|
                    0 <= i < cands.len() ==> (#[trigger] node.children@[i]).score == child_score(
                        board@,
                        depth as nat,
                        maximise,
                        cands[i],
                    ) && node.children@[i].selected_move == Some(cands[i]))
                &&& node.selected_move == (if preset is Some {
                    preset
                } else {
                    search_selected_move(board@, depth as nat, maximise, constraint)
                })
            },
        decreases depth,
    {
        let ghost m = board@;
        let mut node = MinMaxTree {
            piece: constraint,
            selected_move: preset,
            score: if maximise {
                Score::Point(0)
            } else {
                Score::Win
            },
            depth,
            maximise,
            children: Vec::new(),
        };
        if depth == 0 || !board.can_play_another_turn() {
            node.score = Score::calc_score(board);
            return node;
        }
        let mvs = get_moves(board, constraint);
        let ghost cands = candidates(m, constraint);
        let n = mvs.len();
        let mut k: usize = 0;
        while k < n
            invariant
                board.wf(),
                board@ == m,
                m.can_play(),
                depth >= 1,
                constraint matches Some(p) ==> m.pool.contains(p),
                mvs@ == cands,
                cands == candidates(m, constraint),
                n == cands.len(),
                k <= n,
                node.piece == constraint,
                node.depth == depth,
                node.maximise == maximise,
                node.selected_move == preset,
                node.children@.len() == k,
                forall|i: int|
                    0 <= i < k ==> (#[trigger] node.children@[i]).score == child_score(
                        m,
                        depth as nat,
                        maximise,
                        cands[i],
                    ) && node.children@[i].selected_move == Some(cands[i]),
                minmax_fold(m, depth as nat, maximise, constraint, k as int, node.score)
                    == minmax_fold(m, depth as nat, maximise, constraint, 0, init_score(maximise)),
            decreases n - k,
        {
            let mv = mvs[k];
            proof {
                lemma_candidate_playable(m, constraint, k as int);
            }
            let mut branch = board.duplicate();
            let played = branch.play_and_remove_piece(&mv);
            proof {
                assert(played is Ok);
                assert(branch@ == model_after(m, mv));
            }
            let child = MinMaxTree::minmax_eval(&branch, depth - 1, !maximise, None, Some(mv));
            proof {
                assert(child.score == child_score(m, depth as nat, maximise, mv));
                assert(minmax_fold(m, depth as nat, maximise, constraint, k as int, node.score)
                    == minmax_fold(
                    m,
                    depth as nat,
                    maximise,
                    constraint,
                    k as int + 1,
                    combine(maximise, node.score, child.score),
                ));
            }
            if maximise {
                node.score = Score::max_of(node.score, child.score);
            } else {
                node.score = Score::min_of(node.score, child.score);
            }
            node.children.push(child);
            k += 1;
        }
        proof {
            assert(node.score == minmax_score(m, depth as nat, maximise, constraint));
        }
        if node.selected_move.is_none() {
            let ghost target = node.score;
            node.update_move_from_first_child();
            proof {
                lemma_child_match_agree(
                    node.children@,
                    m,
                    depth as nat,
                    maximise,
                    cands,
                    target,
                    0,
                );
            }
        }
        node
    }

    /// Run the search from this node on the given board.  The node's score
    /// becomes the position's minimax value; if the node had no move yet,
    /// the first candidate attaining that value is selected.
    pub fn minmax(&mut self, board: &Board)
        requires
            board.wf(),
            old(self).children@.len() == 0,
            old(self).score == init_score(old(self).maximise),
            old(self).piece matches Some(p) ==> board@.pool.contains(p),
        ensures
            final(self).piece == old(self).piece,
            final(self).depth == old(self).depth,
            final(self).maximise == old(self).maximise,
            final(self).score == minmax_score(
                board@,
                old(self).depth as nat,
                old(self).maximise,
                old(self).piece,
            ),
            old(self).depth == 0 || !board@.can_play() ==> final(self).selected_move == old(
                self,
            ).selected_move && final(self).children@.len() == 0,
            old(self).depth >= 1 && board@.can_play() ==> {
                let cands = candidates(board@, old(self).piece);
                &&& final(self).children@.len() == cands.len()
                &&& (forall|i: int|
                    0 <= i < cands.len() ==> (#[trigger] final(self).children@[i]).score
                        == child_score(board@, old(self).depth as nat, old(self).maximise, cands[i])
                        && final(self).children@[i].selected_move == Some(cands[i]))
                &&& final(self).selected_move == (if old(self).selected_move is Some {
                    old(self).selected_move
                } else {
                    search_selected_move(
                        board@,
                        old(self).depth as nat,
                        old(self).maximise,
                        old(self).piece,
                    )
                })
            },
    {
        let node = MinMaxTree::minmax_eval(board, self.depth, self.maximise, self.piece, self.selected_move);
        *self = node;
    }
}

/// The piece constraint `calc_move` searches under: the piece handed in
/// when there is one; otherwise, on a node that was never run, a constraint
/// fixed earlier stays; a node that has run is reset and unconstrained.
pub open spec fn effective_constraint(t: MinMaxTree, piece: Option<Piece>) -> Option<Piece> {
    if piece is Some {
        piece
    } else if t.children.len() == 0 {
        t.piece
    } else {
        None
    }
}

impl MinMaxTree {
    /// The move to play: the search is rerun from this node and the selected
    /// move returned.  When a piece is handed in, the move plays that piece.
    pub fn calc_move(&mut self, board: &Board, piece: Option<Piece>) -> (r: Result<
        Move,
        ErrorGame,
    >)
        requires
            board.wf(),
            old(self).depth >= 1,
            empties(board@).len() > 0,
            match effective_constraint(*old(self), piece) {
                Some(p) => board@.pool.contains(p),
                None => board@.pool.len() > 0,
            },
            old(self).children@.len() > 0 || (old(self).selected_move is None && old(self).score
                == init_score(old(self).maximise)),
        ensures
            ({
                let c = effective_constraint(*old(self), piece);
                let selected = search_selected_move(
                    board@,
                    old(self).depth as nat,
                    old(self).maximise,
                    c,
                );
                &&& selected is Some
                &&& r == Ok::<Move, ErrorGame>(selected->0)
                &&& (piece matches Some(p) ==> selected->0.piece == p)
                &&& candidates(board@, c).contains(selected->0)
            }),
            final(self).depth == old(self).depth,
            final(self).maximise == old(self).maximise,
    {
        let ghost c = effective_constraint(*old(self), piece);
        let ghost m = board@;
        let ghost depth = self.depth as nat;
        let ghost maximise = self.maximise;
        self.reset();
        if piece.is_some() {
            self.piece = piece;
        }
        proof {
            assert(self.piece == c);
            lemma_empties(m);
            if c is None {
                assert(candidates(m, c).len() == m.pool.len() * empties(m).len());
                assert(candidates(m, c).len() > 0) by (nonlinear_arith)
                    requires
                        candidates(m, c).len() == m.pool.len() * empties(m).len(),
                        m.pool.len() > 0,
                        empties(m).len() > 0,
                ;
            }
            assert(m.can_play());
        }
        self.minmax(board);
        proof {
            lemma_minmax_has_witness(m, depth, maximise, c);
            lemma_first_match(
                m,
                depth,
                maximise,
                candidates(m, c),
                minmax_score(m, depth, maximise, c),
                0,
            );
            assert(search_selected_move(m, depth, maximise, c) is Some);
        }
        match self.selected_move {
            Some(mv) => {
                proof {
                    let cands = candidates(m, c);
                    assert(cands.contains(mv)) by {
                        let j = choose|j: int|
                            0 <= j < cands.len() && #[trigger] cands[j] == mv && child_score(
                                m,
                                depth,
                                maximise,
                                mv,
                            ) == minmax_score(m, depth, maximise, c);
                        assert(cands[j] == mv);
                    }
                    if piece is Some {
                        let j = choose|j: int| 0 <= j < cands.len() && #[trigger] cands[j] == mv;
                        assert(cands[j].piece == piece->0);
                    }
                }
                Ok(mv)
            },
            None => {
                proof {
                    assert(false);
                }
                vstd::pervasive::unreached()
            },
        }
    }
}

/// At depth zero the search adds no information: its value is exactly the
/// heuristic score of the unmodified board.
pub proof fn lemma_search_depth_zero(m: BoardModel, maximise: bool, constraint: Option<Piece>)
    ensures
        minmax_score(m, 0, maximise, constraint) == board_score(m.cells),
{
}

/// The best score the opponent can reach once handed the piece at pool
/// position `a`: the row of that piece's moves folded with `max`, from
/// empty cell `j` on, starting from `acc`.
pub open spec fn agg_row(
    m: BoardModel,
    depth: nat,
    maximise: bool,
    a: int,
    j: int,
    acc: Score,
) -> Score
    decreases empties(m).len() - j,
{
    let e = empties(m).len() as int;
    if j < 0 || j >= e {
        acc
    } else {
        let mv = Move { piece: m.pool[a], cell: empties(m)[j] };
        agg_row(m, depth, maximise, a, j + 1, score_max(acc, child_score(m, depth, maximise, mv)))
    }
}

/// The aggregated score of the piece at pool position `a`.
pub open spec fn agg(m: BoardModel, depth: nat, maximise: bool, a: int) -> Score {
    agg_row(m, depth, maximise, a, 0, Score::Point(0usize))
}

/// Fold over the pool positions from `a` on, keeping the first position
/// whose aggregated score is minimal.
pub open spec fn best_from(
    m: BoardModel,
    depth: nat,
    maximise: bool,
    a: int,
    bi: int,
    bs: Score,
) -> (int, Score)
    decreases m.pool.len() - a,
{
    if a < 0 || a >= m.pool.len() {
        (bi, bs)
    } else {
        let s = agg(m, depth, maximise, a);
        if score_lt(s, bs) {
            best_from(m, depth, maximise, a + 1, a, s)
        } else {
            best_from(m, depth, maximise, a + 1, bi, bs)
        }
    }
}

/// The first pool position whose aggregated score is minimal, with that
/// score: the piece that is worst for the opponent.
pub open spec fn best_piece(m: BoardModel, depth: nat, maximise: bool) -> (int, Score) {
    best_from(m, depth, maximise, 1, 0, agg(m, depth, maximise, 0))
}

/// The piece handed to the opponent.  When even the best choice hands the
/// opponent a forced win and depth remains, the whole search is retried one
/// level shallower.
pub open spec fn choose_piece_spec(m: BoardModel, depth: nat, maximise: bool) -> Piece
    decreases depth,
{
    let bp = best_piece(m, depth, maximise);
    if bp.1 != Score::Win || depth <= 1 {
        m.pool[bp.0]
    } else {
        choose_piece_spec(m, (depth - 1) as nat, maximise)
    }
}

/// The fold for the best piece stays within the pool.
proof fn lemma_best_from_range(
    m: BoardModel,
    depth: nat,
    maximise: bool,
    a: int,
    bi: int,
    bs: Score,
)
    requires
        0 <= bi < m.pool.len(),
        0 <= a,
    ensures
        0 <= best_from(m, depth, maximise, a, bi, bs).0 < m.pool.len(),
    decreases m.pool.len() - a,
{
    if a < m.pool.len() {
        let s = agg(m, depth, maximise, a);
        if score_lt(s, bs) {
            lemma_best_from_range(m, depth, maximise, a + 1, a, s);
        } else {
            lemma_best_from_range(m, depth, maximise, a + 1, bi, bs);
        }
    }
}

impl MinMaxTree {
    /// Group this node's children by the piece they play and take, per pool
    /// position, the best score the opponent could then reach; return the
    /// first position minimising it, with that score.
    fn best_piece_of_children(&self, board: &Board, np: usize, ne: usize, Ghost(d): Ghost<nat>) -> (r: (
        usize,
        Score,
    ))
        requires
            board.wf(),
            np == board@.pool.len(),
            ne == empties(board@).len(),
            0 < np <= 16,
            0 < ne <= 16,
            d >= 1,
            self.children@.len() == np * ne,
            forall|i: int|
                0 <= i < np * ne ==> (#[trigger] self.children@[i]).score == child_score(
                    board@,
                    d,
                    self.maximise,
                    candidates(board@, None)[i],
                ),
        ensures
            r.0 < np,
            (r.0 as int, r.1) == best_piece(board@, d, self.maximise),
    {
        let ghost m = board@;
        let ghost maximise = self.maximise;
        let mut a: usize = 0;
        let mut k: usize = 0;
        let mut best_i: usize = 0;
        let mut best_s: Score = Score::Win;
        while a < np
            invariant
                board.wf(),
                board@ == m,
                maximise == self.maximise,
                np == m.pool.len(),
                ne == empties(m).len(),
                0 < np <= 16,
                0 < ne <= 16,
                d >= 1,
                self.children@.len() == np * ne,
                forall|i: int|
                    0 <= i < np * ne ==> (#[trigger] self.children@[i]).score == child_score(
                        m,
                        d,
                        maximise,
                        candidates(m, None)[i],
                    ),
                a <= np,
                k == a * ne,
                best_i < np,
                a >= 1 ==> best_from(m, d, maximise, a as int, best_i as int, best_s) == best_piece(
                    m,
                    d,
                    maximise,
                ),
                a == 0 ==> best_i == 0 && best_s == Score::Win,
            decreases np - a,
        {
            let mut acc: Score = Score::Point(0);
            let mut j: usize = 0;
            while j < ne
                invariant
                    board.wf(),
                    board@ == m,
                    maximise == self.maximise,
                    np == m.pool.len(),
                    ne == empties(m).len(),
                    0 < np <= 16,
                    0 < ne <= 16,
                    d >= 1,
                    self.children@.len() == np * ne,
                    forall|i: int|
                        0 <= i < np * ne ==> (#[trigger] self.children@[i]).score == child_score(
                            m,
                            d,
                            maximise,
                            candidates(m, None)[i],
                        ),
                    a < np,
                    j <= ne,
                    k == a * ne + j,
                    agg_row(m, d, maximise, a as int, j as int, acc) == agg(m, d, maximise, a as int),
                decreases ne - j,
            {
                proof {
                    assert(k < np * ne) by (nonlinear_arith)
                        requires
                            k == a * ne + j,
                            0 <= a < np,
                            0 <= j < ne,
                    ;
                    assert(np * ne <= 256) by (nonlinear_arith)
                        requires
                            0 < np <= 16,
                            0 < ne <= 16,
                    ;
                    vstd::arithmetic::div_mod::lemma_fundamental_div_mod_converse_div(
                        k as int,
                        ne as int,
                        a as int,
                        j as int,
                    );
                    vstd::arithmetic::div_mod::lemma_fundamental_div_mod_converse_mod(
                        k as int,
                        ne as int,
                        a as int,
                        j as int,
                    );
                    assert(candidates(m, None)[k as int] == (Move {
                        piece: m.pool[a as int],
                        cell: empties(m)[j as int],
                    }));
                }
                let cs = self.children[k].score;
                acc = Score::max_of(acc, cs);
                k += 1;
                j += 1;
            }
            proof {
                assert((a + 1) * ne == a * ne + ne) by (nonlinear_arith);
            }
            if a == 0 {
                best_i = 0;
                best_s = acc;
            } else if acc.lt(&best_s) {
                best_i = a;
                best_s = acc;
            }
            a += 1;
        }
        (best_i, best_s)
    }

    /// The piece to hand the opponent: the search is run unconstrained, its
    /// root children are grouped by piece, each piece is valued by the best
    /// score the opponent could then reach, and the first piece minimising
    /// that value is chosen.  When every piece hands the opponent a forced
    /// win and depth remains, the search is retried one level shallower; the
    /// original depth is restored before returning.
    pub fn choose_piece_for_opponent(&mut self, board: &Board) -> (p: Piece)
        requires
            board.wf(),
            old(self).depth >= 1,
            board@.pool.len() > 0,
            empties(board@).len() > 0,
            old(self).piece is None,
            old(self).children@.len() > 0 || (old(self).selected_move is None && old(self).score
                == init_score(old(self).maximise)),
        ensures
            board@.pool.contains(p),
            p == choose_piece_spec(board@, old(self).depth as nat, old(self).maximise),
            final(self).depth == old(self).depth,
            final(self).maximise == old(self).maximise,
    {
        let ghost m = board@;
        let ghost maximise = self.maximise;
        let initial_depth = self.depth;
        let np = board.available_pieces.len();
        let ne = board.get_empty_cells().len();
        proof {
            lemma_pool_len(m);
            lemma_empties(m);
        }
        let mut chosen_index: usize = 0;
        let mut worst: Score = Score::Win;
        while worst.is_win() && self.depth > 0
            invariant
                board.wf(),
                board@ == m,
                np == m.pool.len(),
                ne == empties(m).len(),
                0 < np <= 16,
                0 < ne <= 16,
                self.maximise == maximise,
                self.piece is None,
                self.depth <= initial_depth,
                initial_depth >= 1,
                self.children@.len() > 0 || (self.selected_move is None && self.score == init_score(
                    maximise,
                )),
                chosen_index < np,
                choose_piece_spec(m, initial_depth as nat, maximise) == (if worst is Win
                    && self.depth >= 1 {
                    choose_piece_spec(m, self.depth as nat, maximise)
                } else {
                    m.pool[chosen_index as int]
                }),
            decreases (if worst is Win {
                self.depth + 1
            } else {
                0
            }),
        {
            let ghost d = self.depth as nat;
            self.reset();
            self.minmax(board);
            proof {
                assert(m.can_play());
                assert(candidates(m, None).len() == np * ne);
                assert(0 < np * ne) by (nonlinear_arith)
                    requires
                        0 < np,
                        0 < ne,
                ;
            }
            let bp = self.best_piece_of_children(board, np, ne, Ghost(d));
            chosen_index = bp.0;
            worst = bp.1;
            proof {
                assert((chosen_index as int, worst) == best_piece(m, d, maximise));
            }
            if worst.is_win() {
                self.depth = self.depth - 1;
            }
        }
        self.depth = initial_depth;
        proof {
            assert(m.pool.contains(m.pool[chosen_index as int]));
        }
        board.available_pieces[chosen_index]
    }
}

/// The search depth for a number of removed pieces: 2 up to seven, 3 up to
/// ten, 4 up to fifteen, and 0 beyond.
pub open spec fn adequat_depth(n: int) -> int {
    if n <= 7 {
        2
    } else if n <= 10 {
        3
    } else if n <= 15 {
        4
    } else {
        0
    }
}

} // verus!
