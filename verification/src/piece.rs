//! The piece: a shape in one of its rotation states, at a place, in a
//! color.

use crate::random::random_below;
use crate::shape::{Shape, TEMPLATEHEIGHT, TEMPLATEWIDTH, BLANK};
use vstd::prelude::*;

verus! {

/// Number of colors in the palette; a color is an index below this.
pub const PALETTE_SIZE: usize = 4;

/// Column of a fresh piece's template: the template is centred on the
/// board, half the board's width less half the template's.
pub const SPAWN_X: isize = 3;

/// Row of a fresh piece's template: two rows above the board, so that the
/// piece drops into view.
pub const SPAWN_Y: isize = -2;

/// A tetromino on its way down: which shape, which of the shape's rotation
/// states, where the top-left corner of its template lies on the board, and
/// its color.
#[derive(Clone, Copy, Debug, PartialEq, Eq, Structural)]
pub struct Piece {
    pub shape: Shape,
    pub rotation: usize,
    pub x: isize,
    pub y: isize,
    pub color: usize,
}

impl Piece {
    /// The rotation index names one of the shape's rotation states and the
    /// color one of the palette's entries.
    pub open spec fn wf(self) -> bool {
        &&& self.rotation < self.shape.spec_rotation_count()
        &&& self.color < PALETTE_SIZE
    }

    /// A well-formed piece at the spawn position.
    pub open spec fn is_spawn(self) -> bool {
        &&& self.wf()
        &&& self.x == SPAWN_X
        &&& self.y == SPAWN_Y
    }

    /// A well-formed piece no higher than the spawn row. Its template's
    /// middle row is then on or below the board's top row.
    pub open spec fn in_play(self) -> bool {
        &&& self.wf()
        &&& self.y >= SPAWN_Y
    }

    /// Whether template cell `(cx, cy)` of the piece, in its current
    /// rotation state, is occupied.
    pub open spec fn filled(self, cx: int, cy: int) -> bool {
        self.shape.filled(self.rotation as int, cx, cy)
    }

    /// Whether the piece, where it is, occupies the cell `(x, y)` of the
    /// plane the board lies in.
    pub open spec fn covers(self, x: int, y: int) -> bool {
        self.filled(x - self.x, y - self.y)
    }

    /// The piece turned to its next rotation state, the first following
    /// the last.
    pub open spec fn rotated_forward(self) -> Piece {
        Piece {
            rotation: ((self.rotation + 1) % (self.shape.spec_rotation_count() as int)) as usize,
            ..self
        }
    }

    /// The piece turned to its previous rotation state, the last preceding
    /// the first.
    pub open spec fn rotated_backward(self) -> Piece {
        Piece {
            rotation: ((self.rotation + self.shape.spec_rotation_count() - 1) % (
            self.shape.spec_rotation_count() as int)) as usize,
            ..self
        }
    }

    /// The piece moved by `dx` columns and `dy` rows.
    pub open spec fn shifted(self, dx: int, dy: int) -> Piece {
        Piece { x: (self.x + dx) as isize, y: (self.y + dy) as isize, ..self }
    }

    /// The piece of the given shape, rotation state and color at the spawn
    /// position.
    pub fn at_spawn(shape: Shape, rotation: usize, color: usize) -> (p: Piece)
        ensures
            p == (Piece { shape, rotation, x: SPAWN_X, y: SPAWN_Y, color }),
    {
        Piece { shape, rotation, x: SPAWN_X, y: SPAWN_Y, color }
    }

    /// A fresh piece at the spawn position: the generator picks the shape,
    /// then one of the shape's rotation states, then the color.
    pub fn new(rng: &mut rand::rngs::ThreadRng) -> (p: Piece)
        ensures
            p.is_spawn(),
    {
        let shapes = [Shape::I, Shape::J, Shape::S, Shape::Z, Shape::O, Shape::T, Shape::L];
        let shape = shapes[random_below(rng, 7)];
        let rotation = random_below(rng, shape.rotation_count());
        let color = random_below(rng, PALETTE_SIZE);
        Piece::at_spawn(shape, rotation, color)
    }

    /// The template cells that the piece occupies in its rotation state, as
    /// offsets `(x, y)` from the template's top-left corner: the four of
    /// them, column by column, each column from the top.
    pub fn occupied_cells(&self) -> (cells: Vec<(usize, usize)>)
        requires
            self.rotation < self.shape.spec_rotation_count(),
        ensures
            cells@.len() == 4,
            offsets(cells@).to_set() == self.shape.occupied(self.rotation as int),
            forall|i: int, j: int|
                0 <= i < j < cells@.len() ==> scanned_before(
                    #[trigger] offsets(cells@)[i],
                    #[trigger] offsets(cells@)[j],
                ),
    {
        let template = self.shape.template();
        let grid: [[u8; 5]; 5] = template[self.rotation];
        let mut cells: Vec<(usize, usize)> = Vec::new();
        let mut x: usize = 0;
        while x < TEMPLATEWIDTH
            invariant
                x <= TEMPLATEWIDTH,
                self.rotation < self.shape.spec_rotation_count(),
                grid == self.shape.spec_template()[self.rotation as int],
                forall|i: int|
                    0 <= i < cells@.len() ==> self.filled(
                        (#[trigger] cells@[i]).0 as int,
                        cells@[i].1 as int,
                    ) && cells@[i].0 < x,
                forall|cx: int, cy: int|
                    cx < x && #[trigger] self.filled(cx, cy) ==> offsets(cells@).contains((cx, cy)),
                forall|i: int, j: int|
                    0 <= i < j < cells@.len() ==> scanned_before(
                        #[trigger] offsets(cells@)[i],
                        #[trigger] offsets(cells@)[j],
                    ),
            decreases TEMPLATEWIDTH - x,
        {
            let mut y: usize = 0;
            while y < TEMPLATEHEIGHT
                invariant
                    x < TEMPLATEWIDTH,
                    y <= TEMPLATEHEIGHT,
                    self.rotation < self.shape.spec_rotation_count(),
                    grid == self.shape.spec_template()[self.rotation as int],
                    forall|i: int|
                        0 <= i < cells@.len() ==> self.filled(
                            (#[trigger] cells@[i]).0 as int,
                            cells@[i].1 as int,
                        ) && (cells@[i].0 < x || (cells@[i].0 == x && cells@[i].1 < y)),
                    forall|cx: int, cy: int|
                        (cx < x || (cx == x && cy < y)) && #[trigger] self.filled(cx, cy)
                            ==> offsets(cells@).contains((cx, cy)),
                    forall|i: int, j: int|
                        0 <= i < j < cells@.len() ==> scanned_before(
                            #[trigger] offsets(cells@)[i],
                            #[trigger] offsets(cells@)[j],
                        ),
                decreases TEMPLATEHEIGHT - y,
            {
                if grid[y][x] != BLANK {
                    let ghost listed = cells@;
                    cells.push((x, y));
                    proof {
                        assert(self.filled(x as int, y as int));
                        assert(offsets(cells@) =~= offsets(listed).push((x as int, y as int)));
                        assert forall|cx: int, cy: int|
                            (cx < x || (cx == x && cy < y + 1)) && #[trigger] self.filled(
                                cx,
                                cy,
                            ) implies offsets(cells@).contains((cx, cy)) by {
                            if cx == x && cy == y {
                                assert(offsets(cells@)[listed.len() as int] == (cx, cy));
                            } else {
                                let i = choose|i: int|
                                    0 <= i < offsets(listed).len() && offsets(listed)[i] == (
                                        cx,
                                        cy,
                                    );
                                assert(offsets(cells@)[i] == (cx, cy));
                            }
                        }
                    }
                }
                y += 1;
            }
            x += 1;
        }
        proof {
            let listed = offsets(cells@);
            let occupied = self.shape.occupied(self.rotation as int);
            assert forall|c: (int, int)| listed.to_set().contains(c) == occupied.contains(c) by {
                if listed.contains(c) {
                    let i = choose|i: int| 0 <= i < listed.len() && listed[i] == c;
                    assert(self.filled(cells@[i].0 as int, cells@[i].1 as int));
                }
                if occupied.contains(c) {
                    assert(self.filled(c.0, c.1));
                }
            }
            assert(listed.to_set() =~= occupied);
            assert(listed.no_duplicates());
            listed.unique_seq_to_set();
            crate::shape::lemma_template_has_four_cells(self.shape, self.rotation as int);
        }
        cells
    }

    /// Turns the piece to its next rotation state, the first following the
    /// last. Whether it fits there is for the caller to check, and to turn
    /// it back if it does not.
    pub fn rotate_forward(&mut self)
        ensures
            *final(self) == old(self).rotated_forward(),
            final(self).rotation < final(self).shape.spec_rotation_count(),
    {
        let count = self.shape.rotation_count();
        proof {
            vstd::arithmetic::div_mod::lemma_add_mod_noop(
                self.rotation as int,
                1,
                count as int,
            );
        }
        self.rotation = (self.rotation % count + 1) % count;
    }

    /// Turns the piece to its previous rotation state, the last preceding
    /// the first. Whether it fits there is for the caller to check, and to
    /// turn it back if it does not.
    pub fn rotate_backward(&mut self)
        ensures
            *final(self) == old(self).rotated_backward(),
            final(self).rotation < final(self).shape.spec_rotation_count(),
    {
        let count = self.shape.rotation_count();
        proof {
            vstd::arithmetic::div_mod::lemma_add_mod_noop(
                self.rotation as int,
                count - 1,
                count as int,
            );
        }
        self.rotation = (self.rotation % count + (count - 1)) % count;
    }
}

/// The template cells listed, as offsets `(x, y)`.
pub open spec fn offsets(cells: Seq<(usize, usize)>) -> Seq<(int, int)> {
    cells.map_values(|c: (usize, usize)| (c.0 as int, c.1 as int))
}

/// Cell `a` comes before cell `b` where the template is gone through
/// column by column, each column from the top.
pub open spec fn scanned_before(a: (int, int), b: (int, int)) -> bool {
    a.0 < b.0 || (a.0 == b.0 && a.1 < b.1)
}

/// Turning a piece forward and then backward, or backward and then forward,
/// gives the piece back.
pub proof fn lemma_rotations_undo_each_other(p: Piece)
    requires
        p.rotation < p.shape.spec_rotation_count(),
    ensures
        p.rotated_forward().rotated_backward() == p,
        p.rotated_backward().rotated_forward() == p,
        p.rotated_forward().rotation < p.shape.spec_rotation_count(),
        p.rotated_backward().rotation < p.shape.spec_rotation_count(),
{
    let n = p.shape.spec_rotation_count() as int;
    assert(n == 1 || n == 2 || n == 4);
    let f = p.rotated_forward();
    let b = p.rotated_backward();
    assert(f.rotation == (if p.rotation + 1 == n { 0 } else { p.rotation + 1 }));
    assert(b.rotation == (if p.rotation == 0 { n - 1 } else { p.rotation - 1 }));
    assert(f.rotated_backward().rotation == p.rotation);
    assert(b.rotated_forward().rotation == p.rotation);
}

} // verus!
