//! The seven tetrominoes and their rotation states.

use crate::dice::roll;
use vstd::prelude::*;

verus! {

/// One rotation state of a tetromino: a 4x4 occupancy mask, row-major.
///
/// The row index is the vertical offset from the piece's origin and the
/// column index the horizontal one. A cell is occupied where its entry is
/// not zero.
#[derive(Debug, Clone, Copy, PartialEq, Eq)]
pub struct ShapeRotation(pub [[u16; 4]; 4]);

impl ShapeRotation {
    /// Whether the mask holds a block `x` columns and `y` rows from the origin.
    pub open spec fn occupied(self, x: int, y: int) -> bool {
        0 <= x < 4 && 0 <= y < 4 && self.0[y][x] != 0
    }

    /// Whether the mask holds a block `x` columns and `y` rows from the origin.
    pub fn is_set(&self, x: usize, y: usize) -> (set: bool)
        ensures
            set == self.occupied(x as int, y as int),
    {
        x < 4 && y < 4 && self.0[y][x] != 0
    }

    /// 1 where the mask is occupied, 0 elsewhere.
    pub open spec fn weight(self, x: int, y: int) -> int {
        if self.occupied(x, y) {
            1
        } else {
            0
        }
    }

    /// The number of occupied cells in row `y`.
    pub open spec fn row_weight(self, y: int) -> int {
        self.weight(0, y) + self.weight(1, y) + self.weight(2, y) + self.weight(3, y)
    }

    /// The number of occupied cells.
    pub open spec fn cells(self) -> int {
        self.row_weight(0) + self.row_weight(1) + self.row_weight(2) + self.row_weight(3)
    }
}

impl Default for ShapeRotation {
    fn default() -> (m: ShapeRotation)
        ensures
            forall|x: int, y: int| !m.occupied(x, y),
    {
        ShapeRotation([[0, 0, 0, 0], [0, 0, 0, 0], [0, 0, 0, 0], [0, 0, 0, 0]])
    }
}

/// A handle to one of the seven tetrominoes of the catalogue.
#[derive(Debug, Clone, Copy, PartialEq, Eq, Structural)]
pub enum Shape {
    I,
    O,
    T,
    L,
    J,
    S,
    Z,
}

impl Shape {
    /// The number of distinct rotation states of this tetromino.
    pub open spec fn spec_len(&self) -> usize {
        match self {
            Shape::I => 2,
            Shape::O => 1,
            Shape::T => 4,
            Shape::L => 4,
            Shape::J => 4,
            Shape::S => 2,
            Shape::Z => 2,
        }
    }

    /// The number of distinct rotation states of this tetromino.
    #[verifier::when_used_as_spec(spec_len)]
    pub fn len(&self) -> (n: usize)
        ensures
            n == self.spec_len(),
    {
        match self {
            Shape::I => 2,
            Shape::O => 1,
            Shape::T => 4,
            Shape::L => 4,
            Shape::J => 4,
            Shape::S => 2,
            Shape::Z => 2,
        }
    }

    /// The rotation states of this tetromino, as the catalogue lists them.
    pub open spec fn masks(self) -> Seq<[[u16; 4]; 4]> {
        match self {
            Shape::I => Shapes::I@,
            Shape::O => Shapes::O@,
            Shape::T => Shapes::T@,
            Shape::L => Shapes::L@,
            Shape::J => Shapes::J@,
            Shape::S => Shapes::S@,
            Shape::Z => Shapes::Z@,
        }
    }

    /// The rotation state at index `r`.
    pub open spec fn mask(self, r: int) -> ShapeRotation {
        ShapeRotation(self.masks()[r])
    }

    /// The rotation state at index `r`.
    pub fn rotation(&self, r: usize) -> (m: ShapeRotation)
        requires
            r < self.len(),
        ensures
            m == self.mask(r as int),
    {
        match self {
            Shape::I => ShapeRotation(Shapes::I[r]),
            Shape::O => ShapeRotation(Shapes::O[r]),
            Shape::T => ShapeRotation(Shapes::T[r]),
            Shape::L => ShapeRotation(Shapes::L[r]),
            Shape::J => ShapeRotation(Shapes::J[r]),
            Shape::S => ShapeRotation(Shapes::S[r]),
            Shape::Z => ShapeRotation(Shapes::Z[r]),
        }
    }
}

/// The catalogue of tetrominoes.
#[non_exhaustive]
pub struct Shapes;

impl Shapes {
    /// The bar: upright, then flat.
    pub const I: [[[u16; 4]; 4]; 2] = [
        [[0, 0, 1, 0], [0, 0, 1, 0], [0, 0, 1, 0], [0, 0, 1, 0]],
        [[0, 0, 0, 0], [1, 1, 1, 1], [0, 0, 0, 0], [0, 0, 0, 0]],
    ];

    /// The square, which looks the same however it is turned.
    pub const O: [[[u16; 4]; 4]; 1] = [[[0, 0, 0, 0], [0, 1, 1, 0], [0, 1, 1, 0], [0, 0, 0, 0]]];

    /// The tee, stem up first, then turning clockwise.
    pub const T: [[[u16; 4]; 4]; 4] = [
        [[0, 1, 0, 0], [1, 1, 1, 0], [0, 0, 0, 0], [0, 0, 0, 0]],
        [[0, 1, 0, 0], [0, 1, 1, 0], [0, 1, 0, 0], [0, 0, 0, 0]],
        [[0, 0, 0, 0], [1, 1, 1, 0], [0, 1, 0, 0], [0, 0, 0, 0]],
        [[0, 1, 0, 0], [1, 1, 0, 0], [0, 1, 0, 0], [0, 0, 0, 0]],
    ];

    /// The ell.
    pub const L: [[[u16; 4]; 4]; 4] = [
        [[0, 1, 0, 0], [0, 1, 0, 0], [0, 1, 1, 0], [0, 0, 0, 0]],
        [[0, 0, 0, 0], [1, 1, 1, 0], [1, 0, 0, 0], [0, 0, 0, 0]],
        [[1, 1, 0, 0], [0, 1, 0, 0], [0, 1, 0, 0], [0, 0, 0, 0]],
        [[0, 0, 1, 0], [1, 1, 1, 0], [0, 0, 0, 0], [0, 0, 0, 0]],
    ];

    /// The jay, the ell's mirror image.
    pub const J: [[[u16; 4]; 4]; 4] = [
        [[0, 1, 0, 0], [0, 1, 0, 0], [1, 1, 0, 0], [0, 0, 0, 0]],
        [[1, 0, 0, 0], [1, 1, 1, 0], [0, 0, 0, 0], [0, 0, 0, 0]],
        [[0, 1, 1, 0], [0, 1, 0, 0], [0, 1, 0, 0], [0, 0, 0, 0]],
        [[0, 0, 0, 0], [1, 1, 1, 0], [0, 0, 1, 0], [0, 0, 0, 0]],
    ];

    /// The ess: flat, then upright.
    pub const S: [[[u16; 4]; 4]; 2] = [
        [[0, 0, 0, 0], [0, 1, 1, 0], [1, 1, 0, 0], [0, 0, 0, 0]],
        [[0, 1, 0, 0], [0, 1, 1, 0], [0, 0, 1, 0], [0, 0, 0, 0]],
    ];

    /// The zed, the ess's mirror image.
    pub const Z: [[[u16; 4]; 4]; 2] = [
        [[0, 0, 0, 0], [1, 1, 0, 0], [0, 1, 1, 0], [0, 0, 0, 0]],
        [[0, 0, 1, 0], [0, 1, 1, 0], [0, 1, 0, 0], [0, 0, 0, 0]],
    ];

    /// How many tetrominoes the catalogue holds.
    pub const COUNT: i32 = 7;

    /// The tetrominoes in the order of the draw.
    pub open spec fn catalogue() -> Seq<Shape> {
        seq![Shape::I, Shape::O, Shape::T, Shape::L, Shape::J, Shape::S, Shape::Z]
    }

    /// The tetromino picked by a draw `n` from 1 to `COUNT`.
    pub fn of_roll(n: i32) -> (shape: Shape)
        requires
            1 <= n <= Shapes::COUNT,
        ensures
            shape == Shapes::catalogue()[n - 1],
    {
        match n {
            1 => Shape::I,
            2 => Shape::O,
            3 => Shape::T,
            4 => Shape::L,
            5 => Shape::J,
            6 => Shape::S,
            _ => Shape::Z,
        }
    }

    /// Draws one of the seven tetrominoes at random, each equally likely.
    pub fn rand() -> (shape: Shape)
        ensures
            Shapes::catalogue().contains(shape),
    {
        let n: i32 = roll(1, Shapes::COUNT);
        Shapes::of_roll(n)
    }
}

/// Every tetromino of the catalogue lists as many rotation states as it
/// says it has.
pub proof fn lemma_catalogue_lengths(shape: Shape)
    ensures
        shape.masks().len() == shape.len(),
        1 <= shape.len() <= 4,
{
}

/// Every rotation state of the catalogue is made of exactly four blocks, and
/// each of its entries is 0 or 1.
pub proof fn lemma_four_blocks(shape: Shape, r: int)
    requires
        0 <= r < shape.len(),
    ensures
        shape.mask(r).cells() == 4,
        forall|x: int, y: int|
            0 <= x < 4 && 0 <= y < 4 ==> shape.mask(r).0[y][x] == 0 || shape.mask(r).0[y][x] == 1,
{
}

/// No tetromino lists a rotation state twice: a shape that looks the same
/// after a turn has fewer states, not repeated ones.
pub proof fn lemma_states_differ(shape: Shape, r: int, s: int)
    requires
        0 <= r < s < shape.len(),
    ensures
        shape.mask(r) != shape.mask(s),
{
}

/// Every rotation state of the catalogue holds a block in its second row, in
/// its second or its third column.
pub proof fn lemma_second_row_block(shape: Shape, r: int)
    requires
        0 <= r < shape.len(),
    ensures
        shape.mask(r).occupied(1, 1) || shape.mask(r).occupied(2, 1),
{
}

} // verus!
