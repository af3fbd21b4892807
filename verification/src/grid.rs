//! The playfield: which cells are taken, where a piece fits, and how full
//! rows leave.

use crate::color::Color;
use crate::piece::Piece;
use crate::shape::ShapeRotation;
use vstd::prelude::*;

verus! {

/// The playfield as a mathematical value: its rows from top to bottom, each
/// a sequence of cells from left to right.
pub struct Board {
    pub rows: Seq<Seq<Color>>,
}

impl Board {
    /// A board has `Grid::HEIGHT` rows of `Grid::WIDTH` cells.
    pub open spec fn wf(self) -> bool {
        &&& self.rows.len() == Grid::HEIGHT
        &&& forall|row: int| 0 <= row < Grid::HEIGHT ==> (#[trigger] self.rows[row]).len() == Grid::WIDTH
    }

    /// Whether `(col, row)` names a cell of the board.
    pub open spec fn holds(col: int, row: int) -> bool {
        0 <= col < Grid::WIDTH && 0 <= row < Grid::HEIGHT
    }

    /// The colour in column `col` of row `row`.
    pub open spec fn cell(self, col: int, row: int) -> Color {
        self.rows[row][col]
    }

    /// Whether a block may not stand at `(col, row)`: the place lies beside
    /// or below the board, or its cell is taken. Above the board everything
    /// is free.
    pub open spec fn blocked(self, col: int, row: int) -> bool {
        ||| col < 0
        ||| col >= Grid::WIDTH
        ||| row >= Grid::HEIGHT
        ||| (row >= 0 && !self.cell(col, row).is_empty())
    }

    /// Whether `mask`, with its origin at `(col, row)`, has a block where
    /// none may stand.
    pub open spec fn collides(self, mask: ShapeRotation, col: int, row: int) -> bool {
        exists|x: int, y: int| #[trigger] mask.occupied(x, y) && self.blocked(col + x, row + y)
    }

    /// The board after `mask`, with its origin at `(col, row)`, has been
    /// written into it in `color`. Blocks outside the board leave no mark.
    pub open spec fn emplaced(self, mask: ShapeRotation, col: int, row: int, color: Color) -> Board {
        Board {
            rows: Seq::new(
                Grid::HEIGHT as nat,
                |r: int|
                    Seq::new(
                        Grid::WIDTH as nat,
                        |c: int|
                            if mask.occupied(c - col, r - row) {
                                color
                            } else {
                                self.cell(c, r)
                            },
                    ),
            ),
        }
    }

    /// The row at which `mask` comes to rest when it falls straight down
    /// from `(col, row)`: the first row, from `row` on, from which the next
    /// step down is barred.
    pub open spec fn landing_row(self, mask: ShapeRotation, col: int, row: int) -> int
        decreases Grid::HEIGHT - row,
    {
        if row >= Grid::HEIGHT || self.collides(mask, col, row + 1) {
            row
        } else {
            self.landing_row(mask, col, row + 1)
        }
    }

    /// Whether no cell of `cells` is free.
    pub open spec fn row_is_full(cells: Seq<Color>) -> bool {
        forall|c: int| 0 <= c < cells.len() ==> !(#[trigger] cells[c]).is_empty()
    }

    /// Whether no cell of row `row` is free.
    pub open spec fn full(self, row: int) -> bool {
        Board::row_is_full(self.rows[row])
    }

    /// A row of free cells.
    pub open spec fn blank_row() -> Seq<Color> {
        Seq::new(Grid::WIDTH as nat, |c: int| Color::Empty)
    }

    /// The board on which every cell is free.
    pub open spec fn blank() -> Board {
        Board { rows: Seq::new(Grid::HEIGHT as nat, |row: int| Board::blank_row()) }
    }

    /// The board after row `row` has left it: the rows above it have moved
    /// down by one, and a blank row has come in at the top.
    pub open spec fn without_row(self, row: int) -> Board {
        Board { rows: self.rows.remove(row).insert(0, Board::blank_row()) }
    }

    /// The test by which a row stays when the full rows leave.
    pub open spec fn keeps() -> spec_fn(Seq<Color>) -> bool {
        |cells: Seq<Color>| !Board::row_is_full(cells)
    }

    /// The number of full rows from row `row` down to the floor.
    pub open spec fn full_rows_from(self, row: int) -> int
        decreases self.rows.len() - row,
    {
        if row >= self.rows.len() {
            0
        } else if self.full(row) {
            1 + self.full_rows_from(row + 1)
        } else {
            self.full_rows_from(row + 1)
        }
    }

    /// The board after all its full rows have left it: the other rows stand
    /// at the bottom in their old order, below as many blank rows as full
    /// rows have left.
    pub open spec fn compacted(self) -> Board {
        let kept = self.rows.filter(Board::keeps());
        Board {
            rows: Seq::new((self.rows.len() - kept.len()) as nat, |r: int| Board::blank_row())
                + kept,
        }
    }
}

/// The playfield: `HEIGHT` rows of `WIDTH` cells, row 0 at the top.
#[derive(Debug, Clone, Copy, PartialEq, Eq)]
pub struct Grid(pub [[Color; 8]; 16]);

impl View for Grid {
    type V = Board;

    open spec fn view(&self) -> Board {
        Board { rows: Seq::new(16, |row: int| self.0[row]@) }
    }
}

impl Grid {
    /// The number of columns.
    pub const WIDTH: i16 = 8;

    /// The number of rows.
    pub const HEIGHT: i16 = 16;

    /// The colour in column `col` of row `row`.
    pub fn cell(&self, col: usize, row: usize) -> (c: Color)
        requires
            Board::holds(col as int, row as int),
        ensures
            c == self@.cell(col as int, row as int),
    {
        self.0[row][col]
    }

    /// Writes `color` into column `col` of row `row`.
    fn paint(&mut self, col: usize, row: usize, color: Color)
        requires
            Board::holds(col as int, row as int),
        ensures
            final(self)@.cell(col as int, row as int) == color,
            forall|c: int, r: int|
                Board::holds(c, r) && (c != col || r != row) ==> #[trigger] final(self)@.cell(c, r)
                    == old(self)@.cell(c, r),
    {
        self.0[row][col] = color;
    }

    /// Whether `mask`, with its origin at `(col, row)`, would leave the board
    /// sideways or through the floor, or meet a cell that is taken.
    pub fn check_collision_at(&self, mask: &ShapeRotation, col: i32, row: i32) -> (hit: bool)
        ensures
            hit == self@.collides(*mask, col as int, row as int),
    {
        for y in 0..4usize
            invariant
                forall|x: int, v: int|
                    0 <= v < y && #[trigger] mask.occupied(x, v) ==> !self@.blocked(col + x, row + v),
        {
            for x in 0..4usize
                invariant
                    0 <= y < 4,
                    forall|u: int, v: int|
                        0 <= v < y && #[trigger] mask.occupied(u, v) ==> !self@.blocked(
                            col + u,
                            row + v,
                        ),
                    forall|u: int|
                        0 <= u < x && #[trigger] mask.occupied(u, y as int) ==> !self@.blocked(
                            col + u,
                            row + y,
                        ),
            {
                if mask.is_set(x, y) {
                    let g_x: i64 = col as i64 + x as i64;
                    let g_y: i64 = row as i64 + y as i64;
                    if g_x < 0 || g_x >= Grid::WIDTH as i64 || g_y >= Grid::HEIGHT as i64 {
                        assert(mask.occupied(x as int, y as int) && self@.blocked(col + x, row + y));
                        return true;
                    }
                    if g_y >= 0 && !self.cell(g_x as usize, g_y as usize).is_empty() {
                        assert(mask.occupied(x as int, y as int) && self@.blocked(col + x, row + y));
                        return true;
                    }
                }
            }
        }
        false
    }

    /// Whether `block` has left the board sideways or through the floor, or
    /// overlaps a cell that is taken. Blocks above the top row are free.
    pub fn check_collision(&self, block: &Piece) -> (hit: bool)
        requires
            block.rotation < block.shape.len(),
        ensures
            hit == self@.collides(block.mask(), block.pos.0 as int, block.pos.1 as int),
    {
        let mask = block.shape_rotation();
        self.check_collision_at(&mask, block.pos.0 as i32, block.pos.1 as i32)
    }

    /// Locks `block` into the grid: every cell under one of its blocks takes
    /// the piece's colour. Blocks that lie outside the grid leave no mark.
    pub fn emplace(&mut self, block: &Piece)
        requires
            block.wf(),
        ensures
            final(self)@ == old(self)@.emplaced(
                block.mask(),
                block.pos.0 as int,
                block.pos.1 as int,
                block.color,
            ),
    {
        let mask = block.shape_rotation();
        let ghost col = block.pos.0 as int;
        let ghost row = block.pos.1 as int;
        for y in 0..4usize
            invariant
                mask == block.mask(),
                col == block.pos.0,
                row == block.pos.1,
                forall|c: int, r: int|
                    Board::holds(c, r) ==> #[trigger] self@.cell(c, r) == if mask.occupied(
                        c - col,
                        r - row,
                    ) && r - row < y {
                        block.color
                    } else {
                        old(self)@.cell(c, r)
                    },
        {
            for x in 0..4usize
                invariant
                    0 <= y < 4,
                    mask == block.mask(),
                    col == block.pos.0,
                    row == block.pos.1,
                    forall|c: int, r: int|
                        Board::holds(c, r) ==> #[trigger] self@.cell(c, r) == if mask.occupied(
                            c - col,
                            r - row,
                        ) && (r - row < y || (r - row == y && c - col < x)) {
                            block.color
                        } else {
                            old(self)@.cell(c, r)
                        },
            {
                if mask.is_set(x, y) {
                    let g_x: i32 = block.pos.0 as i32 + x as i32;
                    let g_y: i32 = block.pos.1 as i32 + y as i32;
                    if 0 <= g_x && g_x < Grid::WIDTH as i32 && 0 <= g_y && g_y < Grid::HEIGHT as i32 {
                        self.paint(g_x as usize, g_y as usize, block.color);
                    }
                }
            }
        }
        proof {
            let target = old(self)@.emplaced(mask, col, row, block.color);
            assert forall|r: int| 0 <= r < Grid::HEIGHT implies self@.rows[r] =~= target.rows[r] by {
                assert forall|c: int| 0 <= c < Grid::WIDTH implies self@.rows[r][c]
                    == target.rows[r][c] by {
                    assert(Board::holds(c, r));
                    assert(self@.cell(c, r) == target.cell(c, r));
                }
            }
            assert(self@.rows =~= target.rows);
        }
    }

    /// Whether no cell of row `row` is free.
    pub fn is_line_full(&self, row: usize) -> (full: bool)
        requires
            row < Grid::HEIGHT,
        ensures
            full == self@.full(row as int),
    {
        for col in 0..8usize
            invariant
                row < Grid::HEIGHT,
                forall|c: int| 0 <= c < col ==> !(#[trigger] self@.rows[row as int][c]).is_empty(),
        {
            if self.0[row][col].is_empty() {
                return false;
            }
        }
        true
    }

    /// Puts `cells` in the place of row `row`.
    fn set_line(&mut self, row: usize, cells: [Color; 8])
        requires
            row < Grid::HEIGHT,
        ensures
            final(self)@.rows == old(self)@.rows.update(row as int, cells@),
    {
        self.0[row] = cells;
        assert(self@.rows =~= old(self)@.rows.update(row as int, cells@));
    }

    /// Takes row `row` out: the rows above it move down by one, and a blank
    /// row comes in at the top.
    pub fn remove_line(&mut self, row: usize)
        requires
            row < Grid::HEIGHT,
        ensures
            final(self)@ == old(self)@.without_row(row as int),
    {
        let mut r: usize = row;
        while r > 0
            invariant
                r <= row < Grid::HEIGHT,
                self@.rows.len() == Grid::HEIGHT,
                forall|k: int| 0 <= k <= r ==> self@.rows[k] == old(self)@.rows[k],
                forall|k: int| r < k <= row ==> self@.rows[k] == old(self)@.rows[k - 1],
                forall|k: int| row < k < Grid::HEIGHT ==> self@.rows[k] == old(self)@.rows[k],
            decreases r,
        {
            let above = self.0[r - 1];
            self.set_line(r, above);
            r -= 1;
        }
        let blank = [Color::Empty; 8];
        self.set_line(0, blank);
        proof {
            assert(blank@ =~= Board::blank_row());
            assert(self@.rows =~= old(self)@.without_row(row as int).rows);
        }
    }

    /// Takes every full row out, from the top down: each time the rows above
    /// move down by one and a blank row comes in at the top.
    pub fn remove_full_lines(&mut self)
        ensures
            final(self)@ == old(self)@.compacted(),
    {
        let ghost keep = Board::keeps();
        for y in 0..16usize
            invariant
                keep == Board::keeps(),
                self@.rows.len() == Grid::HEIGHT,
                forall|k: int| y <= k < Grid::HEIGHT ==> self@.rows[k] == old(self)@.rows[k],
                self@.rows.take(y as int) == Seq::new(
                    (y - old(self)@.rows.take(y as int).filter(keep).len()) as nat,
                    |r: int| Board::blank_row(),
                ) + old(self)@.rows.take(y as int).filter(keep),
        {
            let ghost before = self@;
            let ghost seen = old(self)@.rows.take(y as int);
            let ghost grown = old(self)@.rows.take(y + 1);
            proof {
                reveal(Seq::filter);
                seen.lemma_filter_len(keep);
                assert(grown.drop_last() =~= seen);
                assert(grown.last() == old(self)@.rows[y as int]);
            }
            if self.is_line_full(y) {
                self.remove_line(y);
                proof {
                    assert(grown.filter(keep) == seen.filter(keep));
                    assert(self@.rows.take(y + 1) =~= Seq::new(
                        (y + 1 - grown.filter(keep).len()) as nat,
                        |r: int| Board::blank_row(),
                    ) + grown.filter(keep)) by {
                        assert forall|k: int| 0 < k <= y implies self@.rows[k] == before.rows.take(
                            y as int,
                        )[k - 1] by {}
                    }
                }
            } else {
                proof {
                    assert(grown.filter(keep) == seen.filter(keep).push(grown.last()));
                    assert(self@.rows.take(y + 1) =~= self@.rows.take(y as int).push(
                        self@.rows[y as int],
                    ));
                    assert(self@.rows.take(y + 1) =~= Seq::new(
                        (y + 1 - grown.filter(keep).len()) as nat,
                        |r: int| Board::blank_row(),
                    ) + grown.filter(keep));
                }
            }
        }
        proof {
            assert(self@.rows.take(16) =~= self@.rows);
            assert(old(self)@.rows.take(16) =~= old(self)@.rows);
        }
    }
}

impl Default for Grid {
    fn default() -> (g: Grid)
        ensures
            g@ == Board::blank(),
    {
        let g = Grid([[Color::Empty; 8]; 16]);
        proof {
            assert forall|row: int| 0 <= row < Grid::HEIGHT implies g@.rows[row]
                =~= Board::blank_row() by {}
            assert(g@.rows =~= Board::blank().rows);
        }
        g
    }
}

/// The view of a grid is a board of the full height and width.
pub proof fn lemma_view_wf(grid: Grid)
    ensures
        grid@.wf(),
{
}

/// Writing a rotation state into a board leaves it a board.
pub proof fn lemma_emplaced_wf(board: Board, mask: ShapeRotation, col: int, row: int, color: Color)
    ensures
        board.emplaced(mask, col, row, color).wf(),
{
}

/// Of the rows from `row` down, as many stay as are not full.
pub proof fn lemma_kept_below(board: Board, row: int)
    requires
        0 <= row <= board.rows.len(),
    ensures
        board.rows.skip(row).filter(Board::keeps()).len() == board.rows.len() - row
            - board.full_rows_from(row),
        0 <= board.full_rows_from(row) <= board.rows.len() - row,
    decreases board.rows.len() - row,
{
    reveal(Seq::filter);
    let keep = Board::keeps();
    if row < board.rows.len() {
        lemma_kept_below(board, row + 1);
        let head = seq![board.rows[row]];
        let tail = board.rows.skip(row + 1);
        assert(board.rows.skip(row) =~= head + tail);
        Seq::filter_distributes_over_add(head, tail, keep);
        let none = Seq::<Seq<Color>>::empty();
        assert(head.drop_last() =~= none);
        assert(none.filter(keep) =~= none);
        assert(head.last() == board.rows[row]);
        assert(keep(board.rows[row]) == !board.full(row));
        assert(head.filter(keep).len() == if board.full(row) {
            0int
        } else {
            1int
        });
    } else {
        assert(board.rows.skip(row).len() == 0);
    }
}

/// When the full rows leave, a row that is not full comes to stand as many
/// rows lower as there were full rows below it, and as many blank rows as
/// full rows have left stand at the top.
pub proof fn lemma_compacted_rows(board: Board, row: int)
    requires
        board.wf(),
        0 <= row < Grid::HEIGHT,
    ensures
        !board.full(row) ==> board.compacted().rows[row + board.full_rows_from(row + 1)]
            == board.rows[row],
        !board.full(row) ==> row + board.full_rows_from(row + 1) < Grid::HEIGHT,
        row < board.full_rows_from(0) ==> board.compacted().rows[row] == Board::blank_row(),
        board.compacted().rows.len() == Grid::HEIGHT,
{
    reveal(Seq::filter);
    let keep = Board::keeps();
    let kept = board.rows.filter(keep);
    board.rows.lemma_filter_len(keep);
    lemma_kept_below(board, 0);
    assert(board.rows.skip(0) =~= board.rows);
    if !board.full(row) {
        let upper = board.rows.take(row + 1);
        let lower = board.rows.skip(row + 1);
        assert(board.rows =~= upper + lower);
        Seq::filter_distributes_over_add(upper, lower, keep);
        lemma_kept_below(board, row + 1);
        upper.lemma_filter_len(keep);
        assert(upper.last() == board.rows[row]);
        assert(keep(upper.last()));
        assert(upper.filter(keep).last() == board.rows[row]);
    }
}

/// After the full rows have left, the board is a board still and none of
/// its rows is full.
pub proof fn lemma_compacted_wf(board: Board)
    requires
        board.wf(),
    ensures
        board.compacted().wf(),
        forall|row: int| 0 <= row < Grid::HEIGHT ==> !#[trigger] board.compacted().full(row),
{
    let keep = Board::keeps();
    let kept = board.rows.filter(keep);
    let blanks = board.rows.len() - kept.len();
    board.rows.lemma_filter_len(keep);
    assert(Board::blank_row()[0].is_empty());
    assert forall|row: int| 0 <= row < Grid::HEIGHT implies (#[trigger] board.compacted().rows[row]).len()
        == Grid::WIDTH && !Board::row_is_full(board.compacted().rows[row]) by {
        if row >= blanks {
            let cells = kept[row - blanks];
            assert(board.compacted().rows[row] == cells);
            board.rows.lemma_filter_pred(keep, row - blanks);
            assert(kept.contains(cells));
            board.rows.lemma_filter_contains_rev(keep, cells);
            let k = choose|k: int| 0 <= k < board.rows.len() && board.rows[k] == cells;
            assert(board.rows[k].len() == Grid::WIDTH);
        }
    }
}

/// Taking the full rows out of a board that has none changes nothing; so a
/// second clearing right after a first leaves the board as it is.
pub proof fn lemma_compacted_twice(board: Board)
    requires
        board.wf(),
    ensures
        (forall|row: int| 0 <= row < Grid::HEIGHT ==> !#[trigger] board.full(row))
            ==> board.compacted() == board,
        board.compacted().compacted() == board.compacted(),
{
    if forall|row: int| 0 <= row < Grid::HEIGHT ==> !#[trigger] board.full(row) {
        lemma_nothing_to_clear(board);
    }
    lemma_compacted_wf(board);
    lemma_nothing_to_clear(board.compacted());
}

/// A board without a full row is left as it is when the full rows leave.
proof fn lemma_nothing_to_clear(board: Board)
    requires
        board.wf(),
        forall|row: int| 0 <= row < Grid::HEIGHT ==> !#[trigger] board.full(row),
    ensures
        board.compacted() == board,
{
    lemma_no_full_rows_from(board, 0);
    assert forall|row: int| 0 <= row < Grid::HEIGHT implies board.compacted().rows[row]
        == board.rows[row] by {
        lemma_no_full_rows_from(board, row + 1);
        lemma_compacted_rows(board, row);
    }
    lemma_compacted_rows(board, 0);
    assert(board.compacted().rows =~= board.rows);
}

/// Where no row is full, the count of full rows is zero from every row on.
proof fn lemma_no_full_rows_from(board: Board, row: int)
    requires
        board.wf(),
        0 <= row <= Grid::HEIGHT,
        forall|r: int| 0 <= r < Grid::HEIGHT ==> !#[trigger] board.full(r),
    ensures
        board.full_rows_from(row) == 0,
    decreases Grid::HEIGHT - row,
{
    if row < Grid::HEIGHT {
        lemma_no_full_rows_from(board, row + 1);
    }
}

/// Where row `full` is the only full row, the count of full rows is one
/// from any row at or above it and zero from any row below it.
proof fn lemma_one_full_row_from(board: Board, full: int, row: int)
    requires
        board.wf(),
        0 <= full < Grid::HEIGHT,
        0 <= row <= Grid::HEIGHT,
        forall|r: int| 0 <= r < Grid::HEIGHT ==> (#[trigger] board.full(r) <==> r == full),
    ensures
        board.full_rows_from(row) == if row <= full {
            1int
        } else {
            0int
        },
    decreases Grid::HEIGHT - row,
{
    if row < Grid::HEIGHT {
        lemma_one_full_row_from(board, full, row + 1);
    }
}

/// Clearing a board on which exactly one row is full takes that row out:
/// the rows above it come down by one, the rows below it stay, and the top
/// row is blank.
pub proof fn lemma_single_line_clear(board: Board, full: int)
    requires
        board.wf(),
        0 <= full < Grid::HEIGHT,
        forall|r: int| 0 <= r < Grid::HEIGHT ==> (#[trigger] board.full(r) <==> r == full),
    ensures
        board.compacted() == board.without_row(full),
        board.compacted().rows[0] == Board::blank_row(),
        forall|r: int| 0 < r <= full ==> #[trigger] board.compacted().rows[r] == board.rows[r - 1],
        forall|r: int|
            full < r < Grid::HEIGHT ==> #[trigger] board.compacted().rows[r] == board.rows[r],
{
    let target = board.without_row(full);
    lemma_compacted_rows(board, 0);
    lemma_one_full_row_from(board, full, 0);
    assert forall|r: int| 0 <= r < Grid::HEIGHT implies board.compacted().rows[r]
        == target.rows[r] by {
        if r == 0 {
        } else if r <= full {
            lemma_one_full_row_from(board, full, r);
            lemma_compacted_rows(board, r - 1);
        } else {
            lemma_one_full_row_from(board, full, r + 1);
            lemma_compacted_rows(board, r);
        }
    }
    assert(board.compacted().rows =~= target.rows);
}

} // verus!
