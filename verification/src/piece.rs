//! The falling piece: where it is, how it is turned, and the moves it may make.

use crate::color::Color;
use crate::geometry::fits_i16;
use crate::geometry::Pos;
use crate::grid::Board;
use crate::grid::Grid;
use crate::shape::lemma_second_row_block;
use crate::shape::Shapes;
use crate::shape::Shape;
use crate::shape::ShapeRotation;
use vstd::prelude::*;
use vstd::std_specs::ops::NegSpec;

verus! {

/// A tetromino on or beside the playfield.
#[derive(Debug, Clone, Copy, PartialEq, Eq, Structural)]
pub struct Piece {
    /// The colour its blocks are drawn and locked in; never `Empty`.
    pub color: Color,
    /// Which tetromino it is.
    pub shape: Shape,
    /// Where the origin of its mask lies.
    pub pos: Pos,
    /// The index of its current rotation state, below `shape.len()`.
    pub rotation: usize,
}

impl Piece {
    /// A piece has a colour and shows one of the rotation states of its shape.
    pub open spec fn wf(self) -> bool {
        &&& !self.color.is_empty()
        &&& self.rotation < self.shape.len()
    }

    /// Whether the piece has a colour and shows one of the rotation states
    /// of its shape.
    pub fn is_valid(&self) -> (valid: bool)
        ensures
            valid == self.wf(),
    {
        !self.color.is_empty() && self.rotation < self.shape.len()
    }

    /// The rotation state the piece shows.
    pub open spec fn mask(self) -> ShapeRotation {
        self.shape.mask(self.rotation as int)
    }

    /// Whether the piece holds a block in column `col` of row `row`.
    pub open spec fn covers(self, col: int, row: int) -> bool {
        self.mask().occupied(col - self.pos.0, row - self.pos.1)
    }

    /// Whether the piece, where it is, stands clear of the walls, the floor
    /// and every taken cell of `board`.
    pub open spec fn fits(self, board: Board) -> bool {
        !board.collides(self.mask(), self.pos.0 as int, self.pos.1 as int)
    }

    /// Whether the piece would stand clear after a move by `value`.
    pub open spec fn can_move(self, board: Board, value: Pos) -> bool {
        !board.collides(self.mask(), self.pos.0 + value.0, self.pos.1 + value.1)
    }

    /// The piece after a move by `value`.
    pub open spec fn moved(self, value: Pos) -> Piece {
        Piece { pos: Pos((self.pos.0 + value.0) as i16, (self.pos.1 + value.1) as i16), ..self }
    }

    /// Whether the piece would stand clear in rotation state `rotation`,
    /// `dx` columns to the right of where it is.
    pub open spec fn can_turn(self, board: Board, rotation: usize, dx: int) -> bool {
        !board.collides(self.shape.mask(rotation as int), self.pos.0 + dx, self.pos.1 as int)
    }

    /// The piece in rotation state `rotation`, `dx` columns to the right of
    /// where it is.
    pub open spec fn turned(self, rotation: usize, dx: int) -> Piece {
        Piece { rotation, pos: Pos((self.pos.0 + dx) as i16, self.pos.1), ..self }
    }

    /// The sideways step with which a turn to `rotation` succeeds: none if
    /// it fits in place, else one column to the right, else one to the left.
    /// `None` if the turn fits in none of the three places.
    pub open spec fn kick(self, board: Board, rotation: usize) -> Option<int> {
        if self.can_turn(board, rotation, 0) {
            Some(0int)
        } else if self.can_turn(board, rotation, 1) {
            Some(1int)
        } else if self.can_turn(board, rotation, -1) {
            Some(-1int)
        } else {
            None
        }
    }

    /// The piece at rest after falling straight down as far as it can.
    pub open spec fn landed(self, board: Board) -> Piece {
        Piece {
            pos: Pos(
                self.pos.0,
                board.landing_row(self.mask(), self.pos.0 as int, self.pos.1 as int) as i16,
            ),
            ..self
        }
    }

    /// The slot beside the playfield in which the next piece waits.
    pub open spec fn staging_slot() -> Pos {
        Pos((Grid::WIDTH + 2) as i16, 1)
    }

    /// The slot beside the playfield in which the piece set aside is shown.
    pub open spec fn hold_slot() -> Pos {
        Pos((Grid::WIDTH + 2) as i16, 7)
    }

    /// The place above the playfield from which a piece starts to fall.
    pub open spec fn top_slot() -> Pos {
        Pos((Grid::WIDTH / 2) as i16, -4i16)
    }

    /// Whether the piece waits in the staging slot, unturned and in a colour
    /// of the palette.
    pub open spec fn is_staged(self) -> bool {
        &&& self.pos == Piece::staging_slot()
        &&& self.rotation == 0
        &&& self.color.is_playable()
    }

    /// A piece of the given shape and colour, unturned, in the staging slot.
    pub open spec fn spawned(shape: Shape, color: Color) -> Piece {
        Piece { color, shape, pos: Piece::staging_slot(), rotation: 0 }
    }

    /// A piece of the given shape and colour, unturned, in the staging slot.
    pub fn spawn(shape: Shape, color: Color) -> (piece: Piece)
        ensures
            piece == Piece::spawned(shape, color),
    {
        Piece { color, shape, pos: Pos(Grid::WIDTH + 2, 1), rotation: 0 }
    }

    /// A piece of a random shape and colour, unturned, in the staging slot.
    pub fn new() -> (piece: Piece)
        ensures
            piece.is_staged(),
            piece.wf(),
    {
        let shape = Shapes::rand();
        let color = Color::rand();
        Piece::spawn(shape, color)
    }

    /// The slot beside the playfield in which the piece set aside is shown.
    pub fn hold_piece_pos() -> (slot: Pos)
        ensures
            slot == Piece::hold_slot(),
    {
        Pos(Grid::WIDTH + 2, 7)
    }

    /// Puts the piece above the playfield, in the middle, from where it
    /// falls into view.
    pub fn move_top(&mut self)
        ensures
            *final(self) == (Piece { pos: Piece::top_slot(), ..*old(self) }),
    {
        self.pos = Pos(Grid::WIDTH / 2, -4);
    }

    /// Moves the piece by `value`, whatever stands in the way.
    pub fn move_by(&mut self, value: Pos)
        requires
            fits_i16(old(self).pos.0 + value.0),
            fits_i16(old(self).pos.1 + value.1),
        ensures
            *final(self) == old(self).moved(value),
    {
        self.pos = self.pos + value;
    }

    /// Moves the piece by `value` if it stands clear there, and says whether
    /// it did. A piece that cannot move stays as it is.
    ///
    /// A target row above what an `i16` can hold is ruled out; every other
    /// target beyond its range lies beside or below the board.
    pub fn try_move(&mut self, grid: &Grid, value: Pos) -> (moved: bool)
        requires
            old(self).rotation < old(self).shape.len(),
            old(self).pos.1 + value.1 >= i16::MIN,
        ensures
            moved == old(self).can_move(grid@, value),
            moved ==> *final(self) == old(self).moved(value),
            moved ==> fits_i16(old(self).pos.0 + value.0) && fits_i16(old(self).pos.1 + value.1),
            !moved ==> *final(self) == *old(self),
    {
        let col: i32 = self.pos.0 as i32 + value.0 as i32;
        let row: i32 = self.pos.1 as i32 + value.1 as i32;
        let mask = self.shape_rotation();
        if grid.check_collision_at(&mask, col, row) {
            false
        } else {
            proof {
                lemma_clear_is_near(grid@, self.shape, self.rotation as int, col as int, row as int);
            }
            self.pos = Pos(col as i16, row as i16);
            true
        }
    }

    /// Lets the piece fall straight down until it rests on the floor or on a
    /// taken cell. It is not locked.
    pub fn drop(&mut self, grid: &Grid)
        requires
            old(self).rotation < old(self).shape.len(),
        ensures
            *final(self) == old(self).landed(grid@),
    {
        loop
            invariant
                self.rotation < self.shape.len(),
                self.landed(grid@) == old(self).landed(grid@),
            ensures
                *self == old(self).landed(grid@),
            decreases Grid::HEIGHT - self.pos.1,
        {
            let ghost before = *self;
            if !self.try_move(grid, Pos(0, 1)) {
                break ;
            }
            proof {
                lemma_clear_is_near(
                    grid@,
                    before.shape,
                    before.rotation as int,
                    before.pos.0 as int,
                    before.pos.1 + 1,
                );
            }
        }
    }

    /// Turns the piece to rotation state `rotation` if it stands clear so,
    /// and says whether it did. A piece that cannot turn stays as it is.
    pub fn try_rotate(&mut self, grid: &Grid, rotation: usize) -> (turned: bool)
        requires
            rotation < old(self).shape.len(),
        ensures
            turned == old(self).can_turn(grid@, rotation, 0),
            turned ==> *final(self) == old(self).turned(rotation, 0),
            !turned ==> *final(self) == *old(self),
    {
        let old_rotation = self.rotation;
        self.rotation = rotation;
        if grid.check_collision(self) {
            self.rotation = old_rotation;
            false
        } else {
            true
        }
    }

    /// Turns the piece to rotation state `rotation` one column to the side,
    /// `dx` being 1 or -1, if it stands clear there, and says whether it did.
    fn try_rotate_beside(&mut self, grid: &Grid, rotation: usize, dx: i16) -> (turned: bool)
        requires
            rotation < old(self).shape.len(),
            dx == 1 || dx == -1,
        ensures
            turned == old(self).can_turn(grid@, rotation, dx as int),
            turned ==> *final(self) == old(self).turned(rotation, dx as int),
            !turned ==> *final(self) == *old(self),
    {
        let col: i32 = self.pos.0 as i32 + dx as i32;
        let mask = self.shape.rotation(rotation);
        if grid.check_collision_at(&mask, col, self.pos.1 as i32) {
            false
        } else {
            proof {
                lemma_clear_is_near(grid@, self.shape, rotation as int, col as int, self.pos.1 as int);
            }
            self.pos = Pos(col as i16, self.pos.1);
            self.rotation = rotation;
            true
        }
    }

    /// Turns the piece to rotation state `rotation`, pushing it off a wall or
    /// a neighbour where needed: the turn is tried in place, then one column
    /// to the right, then one column to the left, and the first that stands
    /// clear is kept. Says whether the piece turned; one that cannot stays as
    /// it is.
    pub fn try_rotate_with_bounce(&mut self, grid: &Grid, rotation: usize) -> (turned: bool)
        requires
            rotation < old(self).shape.len(),
        ensures
            turned == old(self).kick(grid@, rotation).is_some(),
            turned ==> *final(self) == old(self).turned(
                rotation,
                old(self).kick(grid@, rotation).unwrap(),
            ),
            !turned ==> *final(self) == *old(self),
    {
        if self.try_rotate(grid, rotation) {
            return true;
        }
        if self.try_rotate_beside(grid, rotation, 1) {
            return true;
        }
        if self.try_rotate_beside(grid, rotation, -1) {
            return true;
        }
        false
    }

    /// The rotation state one quarter turn clockwise from the current one.
    pub open spec fn spec_clockwise(&self) -> usize {
        ((self.rotation + 1) % (self.shape.len() as int)) as usize
    }

    /// The rotation state one quarter turn clockwise from the current one.
    #[verifier::when_used_as_spec(spec_clockwise)]
    pub fn clockwise(&self) -> (rotation: usize)
        requires
            self.rotation < self.shape.len(),
        ensures
            rotation == self.spec_clockwise(),
            rotation < self.shape.len(),
    {
        (self.rotation + 1) % self.shape.len()
    }

    /// The rotation state one quarter turn anticlockwise from the current one.
    pub open spec fn spec_anti_clockwise(&self) -> usize {
        ((self.rotation - 1) % (self.shape.len() as int)) as usize
    }

    /// The rotation state one quarter turn anticlockwise from the current one.
    #[verifier::when_used_as_spec(spec_anti_clockwise)]
    pub fn anti_clockwise(&self) -> (rotation: usize)
        requires
            self.rotation < self.shape.len(),
        ensures
            rotation == self.spec_anti_clockwise(),
            rotation < self.shape.len(),
    {
        if self.rotation == 0 {
            self.shape.len() - 1
        } else {
            self.rotation - 1
        }
    }

    /// The rotation state half a turn from the current one.
    pub open spec fn spec_flipped(&self) -> usize {
        ((self.rotation + 2) % (self.shape.len() as int)) as usize
    }

    /// The rotation state half a turn from the current one.
    #[verifier::when_used_as_spec(spec_flipped)]
    pub fn flipped(&self) -> (rotation: usize)
        requires
            self.rotation < self.shape.len(),
        ensures
            rotation == self.spec_flipped(),
            rotation < self.shape.len(),
    {
        (self.rotation + 2) % self.shape.len()
    }

    /// The piece after `n` quarter turns clockwise, each taken from the
    /// rotation state the one before led to.
    pub open spec fn spun(self, n: nat) -> Piece
        decreases n,
    {
        if n == 0 {
            self
        } else {
            let before = self.spun((n - 1) as nat);
            Piece { rotation: before.clockwise(), ..before }
        }
    }

    /// The rotation state the piece shows.
    pub fn shape_rotation(&self) -> (m: ShapeRotation)
        requires
            self.rotation < self.shape.len(),
        ensures
            m == self.mask(),
    {
        self.shape.rotation(self.rotation)
    }
}

/// A rotation state that stands clear of the walls and the floor has its
/// origin at most three columns left of the board, inside its width, and
/// above its last row.
pub proof fn lemma_clear_is_near(board: Board, shape: Shape, rotation: int, col: int, row: int)
    requires
        0 <= rotation < shape.len(),
        !board.collides(shape.mask(rotation), col, row),
    ensures
        -3 < col < Grid::WIDTH,
        row < Grid::HEIGHT - 1,
{
    lemma_second_row_block(shape, rotation);
    let mask = shape.mask(rotation);
    if mask.occupied(1, 1) {
        assert(!board.blocked(col + 1, row + 1));
    } else {
        assert(mask.occupied(2, 1));
        assert(!board.blocked(col + 2, row + 1));
    }
}

/// A move that succeeded is undone by the opposite move: from a place where
/// the piece stood clear, moving by `value` and then by its opposite
/// succeeds both times and brings the piece back to where it was.
pub proof fn lemma_move_is_reversible(piece: Piece, board: Board, value: Pos)
    requires
        piece.rotation < piece.shape.len(),
        piece.fits(board),
        piece.pos.1 + value.1 >= i16::MIN,
        piece.can_move(board, value),
        value.neg_req(),
    ensures
        piece.moved(value).can_move(board, value.neg_spec()),
        piece.moved(value).moved(value.neg_spec()) == piece,
{
    lemma_clear_is_near(
        board,
        piece.shape,
        piece.rotation as int,
        piece.pos.0 + value.0,
        piece.pos.1 + value.1,
    );
    lemma_clear_is_near(
        board,
        piece.shape,
        piece.rotation as int,
        piece.pos.0 as int,
        piece.pos.1 as int,
    );
}

/// A piece that stands clear lies within the walls and above the floor:
/// each of its blocks is in a column of the board and in a row above the
/// floor. Rows above the board are allowed.
pub proof fn lemma_clear_piece_in_bounds(piece: Piece, board: Board)
    requires
        piece.fits(board),
    ensures
        forall|col: int, row: int| #[trigger]
            piece.covers(col, row) ==> 0 <= col < Grid::WIDTH && row < Grid::HEIGHT,
{
    assert forall|col: int, row: int| #[trigger] piece.covers(col, row) implies 0 <= col
        < Grid::WIDTH && row < Grid::HEIGHT by {
        let x = col - piece.pos.0;
        let y = row - piece.pos.1;
        assert(piece.mask().occupied(x, y));
        assert(!board.blocked(piece.pos.0 + x, piece.pos.1 + y));
    }
}

/// A piece in the top slot stands clear of every board: it lies between the
/// walls and wholly above the top row.
pub proof fn lemma_top_slot_is_clear(piece: Piece, board: Board)
    requires
        piece.pos == Piece::top_slot(),
    ensures
        piece.fits(board),
{
    assert forall|x: int, y: int| #[trigger] piece.mask().occupied(x, y) implies !board.blocked(
        piece.pos.0 + x,
        piece.pos.1 + y,
    ) by {}
}

/// Where a falling piece comes to rest: not above where it started, with
/// every step of the fall clear and the next step down barred. A piece that
/// stood clear rests clear, and a piece at rest falls no further.
pub proof fn lemma_landing(piece: Piece, board: Board)
    requires
        piece.rotation < piece.shape.len(),
    ensures
        piece.landed(board).pos.1 >= piece.pos.1,
        piece.landed(board).pos.0 == piece.pos.0,
        forall|k: int|
            piece.pos.1 < k <= piece.landed(board).pos.1 ==> !#[trigger] board.collides(
                piece.mask(),
                piece.pos.0 as int,
                k,
            ),
        board.collides(piece.mask(), piece.pos.0 as int, piece.landed(board).pos.1 + 1),
        piece.fits(board) ==> piece.landed(board).fits(board),
        piece.landed(board).landed(board) == piece.landed(board),
{
    lemma_landing_row(board, piece.shape, piece.rotation as int, piece.pos.0 as int, piece.pos.1 as int);
}

/// The landing row of a rotation state of the catalogue that falls from
/// `(col, row)`: it is `row` or below, short of the floor unless the fall
/// began lower, reached by clear steps only, and the step below it is barred.
pub proof fn lemma_landing_row(board: Board, shape: Shape, rotation: int, col: int, row: int)
    requires
        0 <= rotation < shape.len(),
    ensures
        board.landing_row(shape.mask(rotation), col, row) >= row,
        board.landing_row(shape.mask(rotation), col, row) < Grid::HEIGHT - 1 || board.landing_row(
            shape.mask(rotation),
            col,
            row,
        ) == row,
        forall|k: int|
            row < k <= board.landing_row(shape.mask(rotation), col, row) ==> !#[trigger] board.collides(
                shape.mask(rotation),
                col,
                k,
            ),
        board.collides(
            shape.mask(rotation),
            col,
            board.landing_row(shape.mask(rotation), col, row) + 1,
        ),
    decreases Grid::HEIGHT - row,
{
    let mask = shape.mask(rotation);
    if row >= Grid::HEIGHT || board.collides(mask, col, row + 1) {
        if !board.collides(mask, col, row + 1) {
            lemma_clear_is_near(board, shape, rotation, col, row + 1);
        }
    } else {
        lemma_clear_is_near(board, shape, rotation, col, row + 1);
        lemma_landing_row(board, shape, rotation, col, row + 1);
    }
}

/// After `n` quarter turns clockwise the piece shows the rotation state `n`
/// places on, counted round the states its shape has; nothing else of it
/// has changed.
pub proof fn lemma_spun(piece: Piece, n: nat)
    requires
        piece.rotation < piece.shape.len(),
    ensures
        piece.spun(n) == (Piece {
            rotation: ((piece.rotation + n) % (piece.shape.len() as int)) as usize,
            ..piece
        }),
    decreases n,
{
    let len = piece.shape.len() as int;
    if n > 0 {
        lemma_spun(piece, (n - 1) as nat);
        let r = (piece.rotation + n - 1) % len;
        assert((r + 1) % len == (piece.rotation + n) % len) by (nonlinear_arith)
            requires
                len > 0,
                r == (piece.rotation + n - 1) % len,
        ;
    } else {
        assert(piece.rotation as int % len == piece.rotation) by (nonlinear_arith)
            requires
                0 <= piece.rotation < len,
        ;
    }
}

/// As many quarter turns clockwise as the shape has rotation states bring
/// the piece back to the state it showed; a shape with a single state shows
/// it after any number of turns.
pub proof fn lemma_turns_cycle(piece: Piece, n: nat)
    requires
        piece.rotation < piece.shape.len(),
    ensures
        piece.spun(piece.shape.len() as nat) == piece,
        piece.shape.len() == 1 ==> piece.spun(n).rotation == 0,
{
    let len = piece.shape.len() as int;
    lemma_spun(piece, len as nat);
    lemma_spun(piece, n);
    assert((piece.rotation + len) % len == piece.rotation) by (nonlinear_arith)
        requires
            0 <= piece.rotation < len,
    ;
}

/// Each of the three turns leads to a rotation state that the shape has.
pub proof fn lemma_turns_in_range(piece: Piece)
    requires
        piece.rotation < piece.shape.len(),
    ensures
        piece.clockwise() < piece.shape.len(),
        piece.anti_clockwise() < piece.shape.len(),
        piece.flipped() < piece.shape.len(),
{
    let len = piece.shape.len() as int;
    let r = piece.rotation as int;
    assert(0 <= (r + 1) % len < len && 0 <= (r - 1) % len < len && 0 <= (r + 2) % len < len)
        by (nonlinear_arith)
        requires
            len > 0,
    ;
}

/// A quarter turn anticlockwise undoes a quarter turn clockwise, and half a
/// turn is two quarter turns clockwise.
pub proof fn lemma_turns_compose(piece: Piece)
    requires
        piece.rotation < piece.shape.len(),
    ensures
        (Piece { rotation: piece.clockwise(), ..piece }).anti_clockwise() == piece.rotation,
        (Piece { rotation: piece.anti_clockwise(), ..piece }).clockwise() == piece.rotation,
        (Piece { rotation: piece.clockwise(), ..piece }).clockwise() == piece.flipped(),
{
    let len = piece.shape.len() as int;
    let r = piece.rotation as int;
    assert(((r + 1) % len - 1) % len == r && ((r - 1) % len + 1) % len == r && ((r + 1) % len + 1)
        % len == (r + 2) % len) by {
        lemma_small_mod(r, len);
    }
}

/// Steps of one and two round a cycle of `len` states.
proof fn lemma_small_mod(r: int, len: int)
    requires
        0 <= r < len,
    ensures
        ((r + 1) % len - 1) % len == r,
        ((r - 1) % len + 1) % len == r,
        ((r + 1) % len + 1) % len == (r + 2) % len,
{
    lemma_mod_basics(r + 1, len);
    lemma_mod_basics(r - 1, len);
    lemma_mod_basics((r + 1) % len - 1, len);
    lemma_mod_basics((r - 1) % len + 1, len);
    if r + 1 == len {
        vstd::arithmetic::div_mod::lemma_mod_add_multiples_vanish(1, len);
    } else {
        lemma_mod_basics(r + 2, len);
    }
}

/// The value of `x % len` one step either side of a cycle of `len` states.
proof fn lemma_mod_basics(x: int, len: int)
    requires
        -1 <= x <= len,
        0 < len,
    ensures
        x % len == if x == -1 {
            len - 1
        } else if x == len {
            0
        } else {
            x
        },
{
    if x == -1 {
        vstd::arithmetic::div_mod::lemma_mod_add_multiples_vanish(x, len);
        vstd::arithmetic::div_mod::lemma_small_mod((len + x) as nat, len as nat);
    } else if x == len {
        vstd::arithmetic::div_mod::lemma_mod_self_0(len);
    } else {
        vstd::arithmetic::div_mod::lemma_small_mod(x as nat, len as nat);
    }
}

} // verus!
