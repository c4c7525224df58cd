//! Pieces and their four binary attributes.
//!
//! A piece combines a colour, a hole, a height and a shape; there are exactly
//! 16 distinct pieces.  Each piece has a canonical index in `0..16` given by
//! the generation order (colour first, shape last), and a four-letter textual
//! encoding, one letter per attribute.

use vstd::prelude::*;
use vstd::string::{StrSliceExecFns, StringExecFns};

verus! {

/// The colour attribute of a piece.
#[derive(Debug, Clone, Copy, PartialEq, Eq, Structural)]
pub enum Color {
    White,
    Dark,
}

/// The hole attribute of a piece.
#[derive(Debug, Clone, Copy, PartialEq, Eq, Structural)]
pub enum Hole {
    Empty,
    Full,
}

/// The height attribute of a piece.
#[derive(Debug, Clone, Copy, PartialEq, Eq, Structural)]
pub enum Height {
    Small,
    Tall,
}

/// The shape attribute of a piece.
#[derive(Debug, Clone, Copy, PartialEq, Eq, Structural)]
pub enum Shape {
    Circle,
    Square,
}

/// A game piece: one value for each of the four attributes.
#[derive(Debug, Clone, Copy, PartialEq, Eq, Structural)]
pub struct Piece {
    pub color: Color,
    pub hole: Hole,
    pub height: Height,
    pub shape: Shape,
}

impl Color {
    /// Position of this value within its attribute: `White` before `Dark`.
    pub open spec fn rank(self) -> int {
        match self {
            Color::White => 0,
            Color::Dark => 1,
        }
    }

    /// The letter that stands for this value in a piece's text.
    pub open spec fn acronym_spec(self) -> char {
        match self {
            Color::White => 'W',
            Color::Dark => 'D',
        }
    }

    /// The letter that stands for this value in a piece's text.
    pub fn acronym(&self) -> (s: &'static str)
        ensures
            s@ =~= seq![self.acronym_spec()],
    {
        proof {
            reveal_strlit("W");
            reveal_strlit("D");
        }
        match self {
            Color::White => "W",
            Color::Dark => "D",
        }
    }

    /// The full name of this value.
    pub fn name(&self) -> (s: &'static str) {
        match self {
            Color::White => "White",
            Color::Dark => "Dark",
        }
    }
}

impl Hole {
    /// Position of this value within its attribute: `Empty` before `Full`.
    pub open spec fn rank(self) -> int {
        match self {
            Hole::Empty => 0,
            Hole::Full => 1,
        }
    }

    /// The letter that stands for this value in a piece's text.
    pub open spec fn acronym_spec(self) -> char {
        match self {
            Hole::Empty => 'E',
            Hole::Full => 'F',
        }
    }

    /// The letter that stands for this value in a piece's text.
    pub fn acronym(&self) -> (s: &'static str)
        ensures
            s@ =~= seq![self.acronym_spec()],
    {
        proof {
            reveal_strlit("E");
            reveal_strlit("F");
        }
        match self {
            Hole::Empty => "E",
            Hole::Full => "F",
        }
    }

    /// The full name of this value.
    pub fn name(&self) -> (s: &'static str) {
        match self {
            Hole::Empty => "Empty",
            Hole::Full => "Full",
        }
    }
}

impl Height {
    /// Position of this value within its attribute: `Small` before `Tall`.
    pub open spec fn rank(self) -> int {
        match self {
            Height::Small => 0,
            Height::Tall => 1,
        }
    }

    /// The letter that stands for this value in a piece's text.
    pub open spec fn acronym_spec(self) -> char {
        match self {
            Height::Small => 'X',
            Height::Tall => 'T',
        }
    }

    /// The letter that stands for this value in a piece's text.
    pub fn acronym(&self) -> (s: &'static str)
        ensures
            s@ =~= seq![self.acronym_spec()],
    {
        proof {
            reveal_strlit("X");
            reveal_strlit("T");
        }
        match self {
            Height::Small => "X",
            Height::Tall => "T",
        }
    }

    /// The full name of this value.
    pub fn name(&self) -> (s: &'static str) {
        match self {
            Height::Small => "Small",
            Height::Tall => "Tall",
        }
    }
}

impl Shape {
    /// Position of this value within its attribute: `Circle` before `Square`.
    pub open spec fn rank(self) -> int {
        match self {
            Shape::Circle => 0,
            Shape::Square => 1,
        }
    }

    /// The letter that stands for this value in a piece's text.
    pub open spec fn acronym_spec(self) -> char {
        match self {
            Shape::Circle => 'C',
            Shape::Square => 'S',
        }
    }

    /// The letter that stands for this value in a piece's text.
    pub fn acronym(&self) -> (s: &'static str)
        ensures
            s@ =~= seq![self.acronym_spec()],
    {
        proof {
            reveal_strlit("C");
            reveal_strlit("S");
        }
        match self {
            Shape::Circle => "C",
            Shape::Square => "S",
        }
    }

    /// The full name of this value.
    pub fn name(&self) -> (s: &'static str) {
        match self {
            Shape::Circle => "Circle",
            Shape::Square => "Square",
        }
    }
}

/// The eight attribute values a line of pieces can have in common, numbered
/// `0..8`: dark, white, tall, small, full, empty, circle, square.
pub open spec fn piece_has_attr(p: Piece, a: int) -> bool {
    if a == 0 {
        p.color == Color::Dark
    } else if a == 1 {
        p.color == Color::White
    } else if a == 2 {
        p.height == Height::Tall
    } else if a == 3 {
        p.height == Height::Small
    } else if a == 4 {
        p.hole == Hole::Full
    } else if a == 5 {
        p.hole == Hole::Empty
    } else if a == 6 {
        p.shape == Shape::Circle
    } else {
        p.shape == Shape::Square
    }
}

/// Every piece of the sequence holds attribute value `a`.
pub open spec fn all_share_attr(s: Seq<Piece>, a: int) -> bool {
    forall|k: int| 0 <= k < s.len() ==> piece_has_attr(#[trigger] s[k], a)
}

/// The sequence is a winning set: at least four pieces, all sharing one of
/// the eight attribute values.
pub open spec fn winning_pieces(s: Seq<Piece>) -> bool {
    s.len() >= 4 && exists|a: int| 0 <= a < 8 && all_share_attr(s, a)
}

/// Whether a single character parses, case-insensitively, as a colour.
pub open spec fn color_of_char(c: char) -> Option<Color> {
    if c == 'W' || c == 'w' {
        Some(Color::White)
    } else if c == 'D' || c == 'd' {
        Some(Color::Dark)
    } else {
        None
    }
}

/// Whether a single character parses, case-insensitively, as a hole value.
pub open spec fn hole_of_char(c: char) -> Option<Hole> {
    if c == 'E' || c == 'e' {
        Some(Hole::Empty)
    } else if c == 'F' || c == 'f' {
        Some(Hole::Full)
    } else {
        None
    }
}

/// Whether a single character parses, case-insensitively, as a height.
pub open spec fn height_of_char(c: char) -> Option<Height> {
    if c == 'X' || c == 'x' {
        Some(Height::Small)
    } else if c == 'T' || c == 't' {
        Some(Height::Tall)
    } else {
        None
    }
}

/// Whether a single character parses, case-insensitively, as a shape.
pub open spec fn shape_of_char(c: char) -> Option<Shape> {
    if c == 'C' || c == 'c' {
        Some(Shape::Circle)
    } else if c == 'S' || c == 's' {
        Some(Shape::Square)
    } else {
        None
    }
}

/// The piece encoded by a character sequence: exactly four characters, one
/// valid letter per attribute in the order colour, hole, height, shape.
pub open spec fn piece_of_text(t: Seq<char>) -> Option<Piece> {
    if t.len() == 4 {
        match (color_of_char(t[0]), hole_of_char(t[1]), height_of_char(t[2]), shape_of_char(t[3])) {
            (Some(color), Some(hole), Some(height), Some(shape)) => Some(
                Piece { color, hole, height, shape },
            ),
            _ => None,
        }
    } else {
        None
    }
}

impl Piece {
    /// The canonical index of a piece, following the generation order:
    /// colour varies slowest, then hole, then height, then shape.
    pub open spec fn index_spec(self) -> int {
        self.color.rank() * 8 + self.hole.rank() * 4 + self.height.rank() * 2 + self.shape.rank()
    }

    /// The four-letter encoding of a piece, one letter per attribute in the
    /// fixed order colour, hole, height, shape.
    pub open spec fn text_spec(self) -> Seq<char> {
        seq![
            self.color.acronym_spec(),
            self.hole.acronym_spec(),
            self.height.acronym_spec(),
            self.shape.acronym_spec(),
        ]
    }

    /// Create a new piece from its four attributes.
    pub fn new(color: Color, hole: Hole, height: Height, shape: Shape) -> (p: Piece)
        ensures
            p == (Piece { color, hole, height, shape }),
    {
        Piece { color, hole, height, shape }
    }

    /// The canonical index of this piece, in `0..16`.
    pub fn piece_index(&self) -> (i: usize)
        ensures
            i == self.index_spec(),
            i < 16,
    {
        let c: usize = match self.color {
            Color::White => 0,
            Color::Dark => 1,
        };
        let h: usize = match self.hole {
            Hole::Empty => 0,
            Hole::Full => 1,
        };
        let t: usize = match self.height {
            Height::Small => 0,
            Height::Tall => 1,
        };
        let s: usize = match self.shape {
            Shape::Circle => 0,
            Shape::Square => 1,
        };
        c * 8 + h * 4 + t * 2 + s
    }

    /// The piece whose canonical index is `i`.
    pub fn of_index(i: usize) -> (p: Piece)
        requires
            i < 16,
        ensures
            p.index_spec() == i,
    {
        let color = if i >= 8 {
            Color::Dark
        } else {
            Color::White
        };
        let r1 = if i >= 8 {
            i - 8
        } else {
            i
        };
        let hole = if r1 >= 4 {
            Hole::Full
        } else {
            Hole::Empty
        };
        let r2 = if r1 >= 4 {
            r1 - 4
        } else {
            r1
        };
        let height = if r2 >= 2 {
            Height::Tall
        } else {
            Height::Small
        };
        let r3 = if r2 >= 2 {
            r2 - 2
        } else {
            r2
        };
        let shape = if r3 == 1 {
            Shape::Square
        } else {
            Shape::Circle
        };
        Piece { color, hole, height, shape }
    }

    /// Whether this piece holds attribute value `a` (see [`piece_has_attr`]).
    pub fn has_attribute(&self, a: usize) -> (b: bool)
        requires
            a < 8,
        ensures
            b == piece_has_attr(*self, a as int),
    {
        if a == 0 {
            matches!(self.color, Color::Dark)
        } else if a == 1 {
            matches!(self.color, Color::White)
        } else if a == 2 {
            matches!(self.height, Height::Tall)
        } else if a == 3 {
            matches!(self.height, Height::Small)
        } else if a == 4 {
            matches!(self.hole, Hole::Full)
        } else if a == 5 {
            matches!(self.hole, Hole::Empty)
        } else if a == 6 {
            matches!(self.shape, Shape::Circle)
        } else {
            matches!(self.shape, Shape::Square)
        }
    }

    /// Whether the given pieces form a winning set: at least four of them,
    /// all sharing one of the eight attribute values.
    pub fn check_piece_is_winning(pieces: &Vec<Piece>) -> (win: bool)
        ensures
            win == winning_pieces(pieces@),
    {
        if pieces.len() < 4 {
            return false;
        }
        let mut a: usize = 0;
        while a < 8
            invariant
                a <= 8,
                pieces@.len() >= 4,
                forall|b: int| 0 <= b < a ==> !all_share_attr(pieces@, b),
            decreases 8 - a,
        {
            let mut k: usize = 0;
            let mut shared = true;
            while k < pieces.len()
                invariant
                    a < 8,
                    k <= pieces@.len(),
                    shared == (forall|j: int|
                        0 <= j < k ==> piece_has_attr(#[trigger] pieces@[j], a as int)),
                decreases pieces@.len() - k,
            {
                if !pieces[k].has_attribute(a) {
                    shared = false;
                }
                k += 1;
            }
            if shared {
                proof {
                    assert(all_share_attr(pieces@, a as int));
                }
                return true;
            }
            a += 1;
        }
        false
    }

    /// The four-letter encoding of this piece.
    pub fn as_text(&self) -> (r: String)
        ensures
            r@ == self.text_spec(),
    {
        let r = String::from_str(self.color.acronym()).concat(self.hole.acronym()).concat(
            self.height.acronym(),
        ).concat(self.shape.acronym());
        proof {
            assert(r@ =~= self.text_spec());
        }
        r
    }

    /// Parse the four-letter encoding of a piece, case-insensitively.
    /// Returns `None` for any other length or for an unknown letter.
    pub fn from_text(s: &str) -> (r: Option<Piece>)
        ensures
            r == piece_of_text(s@),
    {
        if s.unicode_len() != 4 {
            return None;
        }
        let c0 = s.get_char(0);
        let c1 = s.get_char(1);
        let c2 = s.get_char(2);
        let c3 = s.get_char(3);
        let color = if c0 == 'W' || c0 == 'w' {
            Color::White
        } else if c0 == 'D' || c0 == 'd' {
            Color::Dark
        } else {
            return None;
        };
        let hole = if c1 == 'E' || c1 == 'e' {
            Hole::Empty
        } else if c1 == 'F' || c1 == 'f' {
            Hole::Full
        } else {
            return None;
        };
        let height = if c2 == 'X' || c2 == 'x' {
            Height::Small
        } else if c2 == 'T' || c2 == 't' {
            Height::Tall
        } else {
            return None;
        };
        let shape = if c3 == 'C' || c3 == 'c' {
            Shape::Circle
        } else if c3 == 'S' || c3 == 's' {
            Shape::Square
        } else {
            return None;
        };
        Some(Piece { color, hole, height, shape })
    }

    /// Parse a piece from four characters, case-insensitively.
    pub fn from_chars(c: [char; 4]) -> (r: Option<Piece>)
        ensures
            r == piece_of_text(c@),
    {
        let color = if c[0] == 'W' || c[0] == 'w' {
            Color::White
        } else if c[0] == 'D' || c[0] == 'd' {
            Color::Dark
        } else {
            return None;
        };
        let hole = if c[1] == 'E' || c[1] == 'e' {
            Hole::Empty
        } else if c[1] == 'F' || c[1] == 'f' {
            Hole::Full
        } else {
            return None;
        };
        let height = if c[2] == 'X' || c[2] == 'x' {
            Height::Small
        } else if c[2] == 'T' || c[2] == 't' {
            Height::Tall
        } else {
            return None;
        };
        let shape = if c[3] == 'C' || c[3] == 'c' {
            Shape::Circle
        } else if c[3] == 'S' || c[3] == 's' {
            Shape::Square
        } else {
            return None;
        };
        Some(Piece { color, hole, height, shape })
    }
}

} // verus!
