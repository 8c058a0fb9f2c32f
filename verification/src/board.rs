//! The board: the grid of settled cells, where a piece can be, how a piece
//! settles, and how complete rows go.

use crate::piece::{Piece, PALETTE_SIZE, SPAWN_Y};
use crate::shape::{lemma_middle_row_occupied, BLANK, TEMPLATEHEIGHT, TEMPLATEWIDTH};
use vstd::prelude::*;

verus! {

/// Number of columns of the board.
pub const BOARDWIDTH: usize = 10;

/// Number of rows of the board.
pub const BOARDHEIGHT: usize = 20;

/// One row of cells, left to right: each empty or holding a color.
pub type Row = Seq<Option<usize>>;

/// The rows of a board, top to bottom.
pub type Grid = Seq<Row>;

/// A grid of the board's dimensions.
pub open spec fn is_grid(g: Grid) -> bool {
    &&& g.len() == BOARDHEIGHT
    &&& forall|y: int| 0 <= y < BOARDHEIGHT ==> (#[trigger] g[y]).len() == BOARDWIDTH
}

/// A row without a settled cell.
pub open spec fn empty_row() -> Row {
    Seq::new(BOARDWIDTH as nat, |x: int| None)
}

/// `n` rows without a settled cell.
pub open spec fn empty_rows(n: nat) -> Grid {
    Seq::new(n, |y: int| empty_row())
}

/// A board without a settled cell, as a grid.
pub open spec fn empty_grid() -> Grid {
    empty_rows(BOARDHEIGHT as nat)
}

/// Every settled cell holds a color of the palette.
pub open spec fn in_palette(g: Grid) -> bool {
    forall|x: int, y: int|
        0 <= x < BOARDWIDTH && 0 <= y < BOARDHEIGHT ==> match #[trigger] g[y][x] {
            Some(color) => color < PALETTE_SIZE,
            None => true,
        }
}

/// The cell `(x, y)` lies on the board and is empty.
pub open spec fn cell_free(g: Grid, x: int, y: int) -> bool {
    &&& 0 <= x < BOARDWIDTH
    &&& 0 <= y < BOARDHEIGHT
    &&& g[y][x] is None
}

/// A piece may occupy the cell `(x, y)`: it lies above the board's top row,
/// or on the board and empty.
pub open spec fn cell_fits(g: Grid, x: int, y: int) -> bool {
    y < 0 || cell_free(g, x, y)
}

/// The piece, moved by `dx` columns and `dy` rows, can be where it then is:
/// each of its occupied cells fits.
pub open spec fn valid_position(g: Grid, p: Piece, dx: int, dy: int) -> bool {
    forall|cx: int, cy: int| #[trigger]
        p.filled(cx, cy) ==> cell_fits(g, p.x + cx + dx, p.y + cy + dy)
}

/// The grid with the piece settled into it: the cells of the board that the
/// piece occupies take its color, the others stay.
pub open spec fn merged(g: Grid, p: Piece) -> Grid {
    Seq::new(
        BOARDHEIGHT as nat,
        |y: int|
            Seq::new(
                BOARDWIDTH as nat,
                |x: int|
                    if p.covers(x, y) {
                        Some(p.color)
                    } else {
                        g[y][x]
                    },
            ),
    )
}

/// A row is complete when none of its cells is empty.
pub open spec fn row_complete(row: Row) -> bool {
    forall|x: int| 0 <= x < BOARDWIDTH ==> (#[trigger] row[x]) is Some
}

/// The rows that are not complete, in their order.
pub open spec fn kept_rows(rows: Grid) -> Grid
    decreases rows.len(),
{
    if rows.len() == 0 {
        rows
    } else if row_complete(rows.last()) {
        kept_rows(rows.drop_last())
    } else {
        kept_rows(rows.drop_last()).push(rows.last())
    }
}

/// How many rows are complete.
pub open spec fn complete_count(g: Grid) -> nat {
    (g.len() - kept_rows(g).len()) as nat
}

/// The grid once its complete rows are gone: the other rows have moved down
/// to the bottom, in their order, and as many empty rows stand on top.
pub open spec fn collapsed(g: Grid) -> Grid {
    empty_rows(complete_count(g)) + kept_rows(g)
}

/// The grid once row `y` is gone: the rows above it have moved down by one
/// and an empty row stands on top.
pub open spec fn without_row(g: Grid, y: int) -> Grid {
    Seq::new(
        g.len(),
        |j: int|
            if j == 0 {
                empty_row()
            } else if j <= y {
                g[j - 1]
            } else {
                g[j]
            },
    )
}

/// The settled cells of the game: `BOARDWIDTH` columns of `BOARDHEIGHT`
/// cells, a cell `(x, y)` at `self.0[x][y]`, row 0 on top.
#[derive(Clone, Copy, Debug)]
pub struct Board(pub [[Option<usize>; BOARDHEIGHT]; BOARDWIDTH]);

impl View for Board {
    type V = Grid;

    /// The board's rows, top to bottom.
    open spec fn view(&self) -> Grid {
        Seq::new(
            BOARDHEIGHT as nat,
            |y: int| Seq::new(BOARDWIDTH as nat, |x: int| self.0[x][y]),
        )
    }
}

impl Board {
    /// A board without a settled cell.
    pub fn new() -> (b: Board)
        ensures
            b@ == empty_grid(),
    {
        let b = Board([[None; BOARDHEIGHT]; BOARDWIDTH]);
        assert(b@ =~~= empty_grid());
        b
    }

    /// Whether column `x` exists and row `y` is not below the floor. Rows
    /// above the top are let through: a piece may hang above the board.
    pub fn contains(&self, x: i128, y: i128) -> (inside: bool)
        ensures
            inside == (0 <= x < BOARDWIDTH && y < BOARDHEIGHT),
    {
        x >= 0 && x < BOARDWIDTH as i128 && y < BOARDHEIGHT as i128
    }

    /// Whether the piece, moved by `adj_x` columns and `adj_y` rows, can be
    /// where it then is. Occupied cells above the board's top row are let
    /// through; every other one must lie on the board, on an empty cell.
    pub fn is_valid_position(&self, piece: &Piece, adj_x: isize, adj_y: isize) -> (valid: bool)
        requires
            piece.rotation < piece.shape.spec_rotation_count(),
        ensures
            valid == valid_position(self@, *piece, adj_x as int, adj_y as int),
    {
        let template = piece.shape.template();
        let cells: [[u8; 5]; 5] = template[piece.rotation];
        let mut x: usize = 0;
        while x < TEMPLATEWIDTH
            invariant
                x <= TEMPLATEWIDTH,
                piece.rotation < piece.shape.spec_rotation_count(),
                cells == piece.shape.spec_template()[piece.rotation as int],
                forall|cx: int, cy: int|
                    cx < x && #[trigger] piece.filled(cx, cy) ==> cell_fits(
                        self@,
                        piece.x + cx + adj_x,
                        piece.y + cy + adj_y,
                    ),
            decreases TEMPLATEWIDTH - x,
        {
            let mut y: usize = 0;
            while y < TEMPLATEHEIGHT
                invariant
                    x < TEMPLATEWIDTH,
                    y <= TEMPLATEHEIGHT,
                    piece.rotation < piece.shape.spec_rotation_count(),
                    cells == piece.shape.spec_template()[piece.rotation as int],
                    forall|cx: int, cy: int|
                        (cx < x || (cx == x && cy < y)) && #[trigger] piece.filled(cx, cy)
                            ==> cell_fits(self@, piece.x + cx + adj_x, piece.y + cy + adj_y),
                decreases TEMPLATEHEIGHT - y,
            {
                if cells[y][x] != BLANK {
                    let new_x: i128 = x as i128 + piece.x as i128 + adj_x as i128;
                    let new_y: i128 = y as i128 + piece.y as i128 + adj_y as i128;
                    if new_y >= 0 {
                        if !self.contains(new_x, new_y) {
                            assert(piece.filled(x as int, y as int));
                            return false;
                        }
                        if !self.0[new_x as usize][new_y as usize].is_none() {
                            assert(piece.filled(x as int, y as int));
                            return false;
                        }
                    }
                }
                y += 1;
            }
            x += 1;
        }
        true
    }

    /// Whether no cell of row `y` is empty.
    pub fn is_complete_line(&self, y: usize) -> (complete: bool)
        requires
            y < BOARDHEIGHT,
        ensures
            complete == row_complete(self@[y as int]),
    {
        let mut x: usize = 0;
        while x < BOARDWIDTH
            invariant
                x <= BOARDWIDTH,
                y < BOARDHEIGHT,
                forall|i: int| 0 <= i < x ==> (#[trigger] self@[y as int][i]) is Some,
            decreases BOARDWIDTH - x,
        {
            if self.0[x][y].is_none() {
                assert(self@[y as int][x as int] is None);
                return false;
            }
            x += 1;
        }
        true
    }

    /// Settles the piece into the board: each of its occupied cells that
    /// lies on the board takes the piece's color. Occupied cells off the
    /// board are passed over.
    pub fn add(&mut self, piece: &Piece)
        requires
            piece.rotation < piece.shape.spec_rotation_count(),
        ensures
            final(self)@ == merged(old(self)@, *piece),
    {
        let template = piece.shape.template();
        let cells: [[u8; 5]; 5] = template[piece.rotation];
        let mut x: usize = 0;
        while x < TEMPLATEWIDTH
            invariant
                x <= TEMPLATEWIDTH,
                piece.rotation < piece.shape.spec_rotation_count(),
                cells == piece.shape.spec_template()[piece.rotation as int],
                forall|bx: int, by: int|
                    0 <= bx < BOARDWIDTH && 0 <= by < BOARDHEIGHT ==> #[trigger] self.0[bx][by]
                        == (if piece.covers(bx, by) && bx - piece.x < x {
                        Some(piece.color)
                    } else {
                        old(self).0[bx][by]
                    }),
            decreases TEMPLATEWIDTH - x,
        {
            let mut y: usize = 0;
            while y < TEMPLATEHEIGHT
                invariant
                    x < TEMPLATEWIDTH,
                    y <= TEMPLATEHEIGHT,
                    piece.rotation < piece.shape.spec_rotation_count(),
                    cells == piece.shape.spec_template()[piece.rotation as int],
                    forall|bx: int, by: int|
                        0 <= bx < BOARDWIDTH && 0 <= by < BOARDHEIGHT
                            ==> #[trigger] self.0[bx][by] == (if piece.covers(bx, by) && (bx
                            - piece.x < x || (bx - piece.x == x && by - piece.y < y)) {
                            Some(piece.color)
                        } else {
                            old(self).0[bx][by]
                        }),
                decreases TEMPLATEHEIGHT - y,
            {
                if cells[y][x] != BLANK {
                    let new_x: i128 = x as i128 + piece.x as i128;
                    let new_y: i128 = y as i128 + piece.y as i128;
                    if new_y >= 0 && self.contains(new_x, new_y) {
                        self.0[new_x as usize][new_y as usize] = Some(piece.color);
                    }
                }
                y += 1;
            }
            x += 1;
        }
        assert(self@ =~~= merged(old(self)@, *piece));
    }

    /// Takes row `y` out: each row from `y` up to row 1 takes the cells of
    /// the row above it, and row 0 is emptied.
    fn pull_down(&mut self, y: usize)
        requires
            y < BOARDHEIGHT,
        ensures
            final(self)@ == without_row(old(self)@, y as int),
    {
        let mut pulldown_y: usize = y;
        while pulldown_y > 0
            invariant
                pulldown_y <= y < BOARDHEIGHT,
                forall|bx: int, by: int|
                    0 <= bx < BOARDWIDTH && 0 <= by < BOARDHEIGHT ==> #[trigger] self.0[bx][by]
                        == (if pulldown_y < by <= y {
                        old(self).0[bx][by - 1]
                    } else {
                        old(self).0[bx][by]
                    }),
            decreases pulldown_y,
        {
            let mut x: usize = 0;
            while x < BOARDWIDTH
                invariant
                    x <= BOARDWIDTH,
                    0 < pulldown_y <= y < BOARDHEIGHT,
                    forall|bx: int, by: int|
                        0 <= bx < BOARDWIDTH && 0 <= by < BOARDHEIGHT
                            ==> #[trigger] self.0[bx][by] == (if pulldown_y < by <= y || (by
                            == pulldown_y && bx < x) {
                            old(self).0[bx][by - 1]
                        } else {
                            old(self).0[bx][by]
                        }),
                decreases BOARDWIDTH - x,
            {
                self.0[x][pulldown_y] = self.0[x][pulldown_y - 1];
                x += 1;
            }
            pulldown_y -= 1;
        }
        let mut x: usize = 0;
        while x < BOARDWIDTH
            invariant
                x <= BOARDWIDTH,
                y < BOARDHEIGHT,
                forall|bx: int, by: int|
                    0 <= bx < BOARDWIDTH && 0 <= by < BOARDHEIGHT ==> #[trigger] self.0[bx][by]
                        == (if 0 < by <= y {
                        old(self).0[bx][by - 1]
                    } else if by == 0 && bx < x {
                        None
                    } else {
                        old(self).0[bx][by]
                    }),
            decreases BOARDWIDTH - x,
        {
            self.0[x][0] = None;
            x += 1;
        }
        assert(self@ =~~= without_row(old(self)@, y as int));
    }

    /// Takes out every complete row, from the bottom row up, and says how
    /// many there were. The rows above a row taken out move down by one,
    /// and the same row is looked at again, until no complete row is left.
    pub fn remove_complete_lines(&mut self) -> (count_removed: u32)
        ensures
            final(self)@ == collapsed(old(self)@),
            count_removed == complete_count(old(self)@),
            count_removed <= BOARDHEIGHT,
    {
        let mut count_removed: u32 = 0;
        let mut y: usize = BOARDHEIGHT - 1;
        proof {
            assert(self@.take(y + 1) =~= self@);
            assert(kept_rows(self@.take(y + 1)) + self@.skip(y + 1) =~= empty_rows(0)
                + kept_rows(old(self)@));
        }
        loop
            invariant
                y < BOARDHEIGHT,
                count_removed <= BOARDHEIGHT,
                kept_rows(self@.take(y + 1)) + self@.skip(y + 1) == empty_rows(
                    count_removed as nat,
                ) + kept_rows(old(self)@),
            ensures
                y == 0,
                !row_complete(self@[0]),
            decreases y + BOARDHEIGHT - count_removed,
        {
            let ghost before = self@;
            proof {
                lemma_kept_rows_len(before.take(y as int));
                assert(before.take(y + 1).drop_last() =~= before.take(y as int));
            }
            if self.is_complete_line(y) {
                self.pull_down(y);
                proof {
                    let top = seq![empty_row()];
                    assert(self@.take(y + 1) =~= top + before.take(y as int));
                    assert(self@.skip(y + 1) =~= before.skip(y + 1));
                    lemma_kept_rows_concat(top, before.take(y as int));
                    assert(!row_complete(empty_row())) by {
                        assert(empty_row()[0] is None);
                    }
                    lemma_kept_rows_single(empty_row());
                    assert(top + empty_rows(count_removed as nat) =~= empty_rows(
                        (count_removed + 1) as nat,
                    ));
                    assert(kept_rows(self@.take(y + 1)) + self@.skip(y + 1) =~= top + (kept_rows(
                        before.take(y + 1),
                    ) + before.skip(y + 1)));
                }
                count_removed += 1;
            } else {
                if y == 0 {
                    break ;
                }
                proof {
                    assert(before.skip(y as int) =~= seq![before[y as int]] + before.skip(y + 1));
                    assert(kept_rows(before.take(y as int)) + before.skip(y as int) =~= kept_rows(
                        before.take(y + 1),
                    ) + before.skip(y + 1));
                }
                y -= 1;
            }
        }
        proof {
            let first = self@.take(1);
            assert(first =~= seq![self@[0]]);
            lemma_kept_rows_single(self@[0]);
            assert(first + self@.skip(1) =~= self@);
            lemma_kept_rows_len(old(self)@);
        }
        count_removed
    }
}

/// The rows kept of two stacks of rows, one above the other, are the rows
/// kept of the upper stack above those kept of the lower.
pub proof fn lemma_kept_rows_concat(a: Grid, b: Grid)
    ensures
        kept_rows(a + b) == kept_rows(a) + kept_rows(b),
    decreases b.len(),
{
    if b.len() == 0 {
        assert(a + b =~= a);
        assert(kept_rows(a) + kept_rows(b) =~= kept_rows(a));
    } else {
        assert((a + b).drop_last() =~= a + b.drop_last());
        assert((a + b).last() == b.last());
        lemma_kept_rows_concat(a, b.drop_last());
        assert(kept_rows(a + b) =~= kept_rows(a) + kept_rows(b));
    }
}

/// A single row is kept unless it is complete.
pub proof fn lemma_kept_rows_single(row: Row)
    ensures
        kept_rows(seq![row]) == if row_complete(row) {
            Seq::<Row>::empty()
        } else {
            seq![row]
        },
{
    let one = seq![row];
    assert(one.drop_last() =~= Seq::<Row>::empty());
    assert(kept_rows(one.drop_last()) =~= Seq::<Row>::empty());
    assert(one.last() == row);
    if !row_complete(row) {
        assert(kept_rows(one) =~= one);
    }
}

/// No more rows are kept than there are.
pub proof fn lemma_kept_rows_len(g: Grid)
    ensures
        kept_rows(g).len() <= g.len(),
    decreases g.len(),
{
    if g.len() > 0 {
        lemma_kept_rows_len(g.drop_last());
    }
}


/// Where no row is complete, every row is kept.
pub proof fn lemma_kept_rows_all(g: Grid)
    requires
        forall|j: int| 0 <= j < g.len() ==> !row_complete(#[trigger] g[j]),
    ensures
        kept_rows(g) == g,
    decreases g.len(),
{
    if g.len() > 0 {
        lemma_kept_rows_all(g.drop_last());
        assert(kept_rows(g) =~= g);
    }
}

/// On a board with exactly one complete row, at index `k`, one row is
/// taken out: every row above `k` ends one row lower, row 0 ends empty,
/// and the rows below `k` stay.
pub proof fn lemma_single_complete_row(g: Grid, k: int)
    requires
        is_grid(g),
        0 <= k < BOARDHEIGHT,
        forall|j: int| 0 <= j < BOARDHEIGHT ==> (row_complete(#[trigger] g[j]) <==> j == k),
    ensures
        complete_count(g) == 1,
        collapsed(g) == without_row(g, k),
{
    let above = g.take(k);
    let below = g.skip(k + 1);
    let row = seq![g[k]];
    assert(g =~= above + (row + below));
    lemma_kept_rows_concat(row, below);
    lemma_kept_rows_concat(above, row + below);
    lemma_kept_rows_single(g[k]);
    lemma_kept_rows_all(above);
    lemma_kept_rows_all(below);
    assert(kept_rows(g) =~= above + below);
    assert(empty_rows(1) + (above + below) =~= without_row(g, k));
}

/// Complete rows are as many as rows are not kept, and what is left after
/// taking them out is a grid again, with colors of the palette if the grid
/// had no others.
pub proof fn lemma_collapsed_is_grid(g: Grid)
    requires
        is_grid(g),
    ensures
        is_grid(collapsed(g)),
        complete_count(g) <= BOARDHEIGHT,
        in_palette(g) ==> in_palette(collapsed(g)),
        forall|j: int| 0 <= j < BOARDHEIGHT ==> !row_complete(#[trigger] collapsed(g)[j]),
{
    lemma_kept_rows_len(g);
    lemma_kept_rows_from(g);
    let c = collapsed(g);
    let n = complete_count(g) as int;
    assert forall|j: int| 0 <= j < BOARDHEIGHT implies (#[trigger] c[j]).len() == BOARDWIDTH
        && !row_complete(c[j]) by {
        if j < n {
            assert(c[j] == empty_row());
            assert(empty_row()[0] is None);
        } else {
            assert(c[j] == kept_rows(g)[j - n]);
        }
    }
    if in_palette(g) {
        assert forall|x: int, y: int| 0 <= x < BOARDWIDTH && 0 <= y < BOARDHEIGHT implies match 
        #[trigger] c[y][x] {
            Some(color) => color < PALETTE_SIZE,
            None => true,
        } by {
            if y >= n {
                let i = choose|i: int| 0 <= i < g.len() && g[i] == kept_rows(g)[y - n];
                assert(c[y] == g[i]);
                assert(g[i][x] == c[y][x]);
            }
        }
    }
}

/// After the complete rows are gone, every row is an empty one or a row
/// that the grid had.
pub proof fn lemma_collapsed_rows_from(g: Grid)
    requires
        is_grid(g),
    ensures
        forall|j: int|
            0 <= j < BOARDHEIGHT ==> #[trigger] collapsed(g)[j] == empty_row() || exists|i: int|
                0 <= i < BOARDHEIGHT && g[i] == collapsed(g)[j],
{
    lemma_kept_rows_len(g);
    lemma_kept_rows_from(g);
    let c = collapsed(g);
    let n = complete_count(g) as int;
    assert forall|j: int| 0 <= j < BOARDHEIGHT implies #[trigger] c[j] == empty_row() || exists|
        i: int,
    |
        0 <= i < BOARDHEIGHT && g[i] == c[j] by {
        if j >= n {
            assert(c[j] == kept_rows(g)[j - n]);
        }
    }
}

/// Each row kept is a row of the grid, and is not complete.
pub proof fn lemma_kept_rows_from(g: Grid)
    ensures
        forall|j: int|
            0 <= j < kept_rows(g).len() ==> !row_complete(#[trigger] kept_rows(g)[j]) && exists|
                i: int,
            |
                0 <= i < g.len() && g[i] == kept_rows(g)[j],
    decreases g.len(),
{
    if g.len() > 0 {
        lemma_kept_rows_from(g.drop_last());
        let k = kept_rows(g);
        let d = kept_rows(g.drop_last());
        assert forall|j: int| 0 <= j < k.len() implies !row_complete(#[trigger] k[j]) && exists|
            i: int,
        |
            0 <= i < g.len() && g[i] == k[j] by {
            if j < d.len() {
                assert(k[j] == d[j]);
                let i = choose|i: int| 0 <= i < g.drop_last().len() && g.drop_last()[i] == d[j];
                assert(g[i] == k[j]);
            } else {
                assert(k[j] == g[g.len() - 1]);
            }
        }
    }
}

/// A piece is in no valid position where one of its occupied cells, not
/// above the board's top row, lies off the board or on a settled cell.
pub proof fn lemma_blocked_cell_invalidates(g: Grid, p: Piece, dx: int, dy: int, cx: int, cy: int)
    requires
        p.filled(cx, cy),
        p.y + cy + dy >= 0,
        !(0 <= p.x + cx + dx < BOARDWIDTH) || !(p.y + cy + dy < BOARDHEIGHT) || g[p.y + cy
            + dy][p.x + cx + dx] is Some,
    ensures
        !valid_position(g, p, dx, dy),
{
}

/// In a valid position a piece's template starts no lower than row 17:
/// every template has a cell in its middle row. Where the template starts
/// no higher than the spawn row, that cell is on the board, and the
/// template starts between columns -2 and 8.
pub proof fn lemma_valid_position_bounds(g: Grid, p: Piece, dx: int, dy: int)
    requires
        p.rotation < p.shape.spec_rotation_count(),
        valid_position(g, p, dx, dy),
    ensures
        p.y + dy <= 17,
        p.y + dy >= SPAWN_Y ==> -2 <= p.x + dx <= 8,
{
    lemma_middle_row_occupied(p.shape, p.rotation as int);
    if p.filled(1, 2) {
        assert(cell_fits(g, p.x + 1 + dx, p.y + 2 + dy));
    } else {
        assert(p.filled(2, 2));
        assert(cell_fits(g, p.x + 2 + dx, p.y + 2 + dy));
    }
}

/// Whether a piece fits depends on where it ends up, not on how the way
/// there is split between its position and the move.
pub proof fn lemma_valid_position_shifted(g: Grid, p: Piece, sx: int, sy: int, dx: int, dy: int)
    requires
        isize::MIN <= p.x + sx <= isize::MAX,
        isize::MIN <= p.y + sy <= isize::MAX,
    ensures
        valid_position(g, p.shifted(sx, sy), dx, dy) == valid_position(g, p, sx + dx, sy + dy),
{
    let q = p.shifted(sx, sy);
    if valid_position(g, p, sx + dx, sy + dy) {
        assert forall|cx: int, cy: int| #[trigger] q.filled(cx, cy) implies cell_fits(
            g,
            q.x + cx + dx,
            q.y + cy + dy,
        ) by {
            assert(p.filled(cx, cy));
        }
    }
    if valid_position(g, q, dx, dy) {
        assert forall|cx: int, cy: int| #[trigger] p.filled(cx, cy) implies cell_fits(
            g,
            p.x + cx + (sx + dx),
            p.y + cy + (sy + dy),
        ) by {
            assert(q.filled(cx, cy));
        }
    }
}

/// Settling a piece of a palette color into a grid of the board's
/// dimensions gives such a grid again, with colors of the palette if the
/// grid had no others.
pub proof fn lemma_merged_is_grid(g: Grid, p: Piece)
    requires
        is_grid(g),
    ensures
        is_grid(merged(g, p)),
        in_palette(g) && p.color < PALETTE_SIZE ==> in_palette(merged(g, p)),
{
}

/// On a board without a settled cell, every piece fits at the spawn
/// position.
pub proof fn lemma_spawn_fits_empty_board(p: Piece)
    requires
        p.is_spawn(),
    ensures
        valid_position(empty_grid(), p, 0, 0),
{
    assert forall|cx: int, cy: int| #[trigger] p.filled(cx, cy) implies cell_fits(
        empty_grid(),
        p.x + cx + 0,
        p.y + cy + 0,
    ) by {
        let x = p.x + cx;
        let y = p.y + cy;
        if y >= 0 {
            assert(empty_grid()[y] == empty_row());
            assert(empty_row()[x] is None);
        }
    }
}

} // verus!
