//! Cell colours.

use crate::dice::roll;
use vstd::prelude::*;

verus! {

/// What a cell of the playfield holds: nothing, or a block of some colour.
///
/// `Empty` marks a free cell and `Gray` is kept for the landing shadow;
/// neither is ever drawn for a piece.
#[derive(Debug, Clone, Copy, PartialEq, Eq, Structural)]
pub enum Color {
    Empty,
    Gray,
    White,
    Red,
    Cyan,
    Yellow,
    Green,
    Purple,
}

impl Default for Color {
    fn default() -> (c: Color)
        ensures
            c == Color::Empty,
    {
        Color::Empty
    }
}

impl Color {
    /// How many colours a piece can be drawn in.
    pub const PLAYABLE: i32 = 6;

    /// Whether this is the colour of a free cell.
    pub open spec fn spec_is_empty(&self) -> bool {
        self == Color::Empty
    }

    /// Whether this is the colour of a free cell.
    #[verifier::when_used_as_spec(spec_is_empty)]
    pub fn is_empty(&self) -> (empty: bool)
        ensures
            empty == self.spec_is_empty(),
    {
        matches!(self, Color::Empty)
    }

    /// Whether a piece may be drawn in this colour.
    pub open spec fn is_playable(self) -> bool {
        self != Color::Empty && self != Color::Gray
    }

    /// The colours a piece can be drawn in, in the order of the draw.
    pub open spec fn palette() -> Seq<Color> {
        seq![
            Color::White,
            Color::Red,
            Color::Cyan,
            Color::Yellow,
            Color::Green,
            Color::Purple,
        ]
    }

    /// The playable colour picked by a draw `n` from 1 to `PLAYABLE`.
    pub fn of_roll(n: i32) -> (c: Color)
        requires
            1 <= n <= Color::PLAYABLE,
        ensures
            c == Color::palette()[n - 1],
            c.is_playable(),
    {
        match n {
            1 => Color::White,
            2 => Color::Red,
            3 => Color::Cyan,
            4 => Color::Yellow,
            5 => Color::Green,
            _ => Color::Purple,
        }
    }

    /// Draws one of the playable colours at random, each equally likely.
    pub fn rand() -> (c: Color)
        ensures
            c.is_playable(),
            Color::palette().contains(c),
    {
        let n: i32 = roll(1, Color::PLAYABLE);
        Color::of_roll(n)
    }
}

} // verus!
