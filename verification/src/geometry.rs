//! Positions and sizes in grid-cell units.

use std::ops::Add;
use std::ops::Neg;
use vstd::prelude::*;
use vstd::std_specs::ops::AddSpecImpl;
use vstd::std_specs::ops::NegSpecImpl;

verus! {

/// A cell coordinate: column first, then row. Rows grow downwards.
#[derive(Debug, Clone, Copy, PartialEq, Eq, Structural)]
pub struct Pos(pub i16, pub i16);

/// An extent in cells: width first, then height.
#[derive(Debug, Clone, Copy, PartialEq, Eq, Structural)]
pub struct Size(pub i16, pub i16);

/// Whether `v` can be held in an `i16`.
pub open spec fn fits_i16(v: int) -> bool {
    i16::MIN <= v <= i16::MAX
}

impl Pos {
    /// Left margin of the playfield on the screen, in screen columns.
    pub const MARGIN_LEFT: i16 = 5;

    /// Top margin of the playfield on the screen, in screen rows.
    pub const MARGIN_TOP: i16 = 5;

    /// The screen column of this position: a cell is two characters wide.
    pub open spec fn screen_column(self) -> int {
        self.0 * 2 + Pos::MARGIN_LEFT
    }

    /// The screen row of this position.
    pub open spec fn screen_row(self) -> int {
        self.1 + Pos::MARGIN_TOP
    }

    /// Maps a logical position to the coordinate at which it is drawn.
    pub fn term_pos(&self) -> (at: Pos)
        requires
            fits_i16(self.0 * 2),
            fits_i16(self.screen_column()),
            fits_i16(self.screen_row()),
        ensures
            at.0 == self.screen_column(),
            at.1 == self.screen_row(),
    {
        Pos(self.0 * 2 + Pos::MARGIN_LEFT, self.1 + Pos::MARGIN_TOP)
    }
}

impl Default for Pos {
    fn default() -> (p: Pos)
        ensures
            p == Pos(0, 0),
    {
        Pos(0, 0)
    }
}

impl AddSpecImpl for Pos {
    open spec fn obeys_add_spec() -> bool {
        true
    }

    open spec fn add_req(self, rhs: Pos) -> bool {
        fits_i16(self.0 + rhs.0) && fits_i16(self.1 + rhs.1)
    }

    open spec fn add_spec(self, rhs: Pos) -> Pos {
        Pos((self.0 + rhs.0) as i16, (self.1 + rhs.1) as i16)
    }
}

impl Add for Pos {
    type Output = Pos;

    fn add(self, rhs: Pos) -> (sum: Pos) {
        Pos(self.0 + rhs.0, self.1 + rhs.1)
    }
}

impl NegSpecImpl for Pos {
    open spec fn obeys_neg_spec() -> bool {
        true
    }

    open spec fn neg_req(self) -> bool {
        self.0 > i16::MIN && self.1 > i16::MIN
    }

    open spec fn neg_spec(self) -> Pos {
        Pos((-self.0) as i16, (-self.1) as i16)
    }
}

impl Neg for Pos {
    type Output = Pos;

    fn neg(self) -> (opposite: Pos) {
        Pos(-self.0, -self.1)
    }
}

impl Size {
    /// The extent on the screen: a cell is two characters wide and one high.
    pub fn term_value(&self) -> (on_screen: Size)
        requires
            fits_i16(self.0 * 2),
        ensures
            on_screen.0 == self.0 * 2,
            on_screen.1 == self.1,
    {
        Size(self.0 * 2, self.1)
    }
}

impl Default for Size {
    fn default() -> (s: Size)
        ensures
            s == Size(0, 0),
    {
        Size(0, 0)
    }
}

impl AddSpecImpl for Size {
    open spec fn obeys_add_spec() -> bool {
        true
    }

    open spec fn add_req(self, rhs: Size) -> bool {
        fits_i16(self.0 + rhs.0) && fits_i16(self.1 + rhs.1)
    }

    open spec fn add_spec(self, rhs: Size) -> Size {
        Size((self.0 + rhs.0) as i16, (self.1 + rhs.1) as i16)
    }
}

impl Add for Size {
    type Output = Size;

    fn add(self, rhs: Size) -> (sum: Size) {
        Size(self.0 + rhs.0, self.1 + rhs.1)
    }
}

} // verus!
