//! The seven shapes and their rotation templates.

use vstd::prelude::*;

verus! {

/// Width of a rotation template, in cells.
pub const TEMPLATEWIDTH: usize = 5;

/// Height of a rotation template, in cells.
pub const TEMPLATEHEIGHT: usize = 5;

/// The byte that marks a blank template cell (ASCII `.`).
pub const BLANK: u8 = 46;

/// The byte that marks an occupied template cell (ASCII `O`).
pub const BLOCK: u8 = 79;

/// Rotation templates of the S tetromino, indexed `[rotation][row][column]`.
pub const S_SHAPE: [[[u8; 5]; 5]; 2] = [
    [
        [BLANK, BLANK, BLANK, BLANK, BLANK],
        [BLANK, BLANK, BLANK, BLANK, BLANK],
        [BLANK, BLANK, BLOCK, BLOCK, BLANK],
        [BLANK, BLOCK, BLOCK, BLANK, BLANK],
        [BLANK, BLANK, BLANK, BLANK, BLANK],
    ],
    [
        [BLANK, BLANK, BLANK, BLANK, BLANK],
        [BLANK, BLANK, BLOCK, BLANK, BLANK],
        [BLANK, BLANK, BLOCK, BLOCK, BLANK],
        [BLANK, BLANK, BLANK, BLOCK, BLANK],
        [BLANK, BLANK, BLANK, BLANK, BLANK],
    ],
];

/// Rotation templates of the Z tetromino, indexed `[rotation][row][column]`.
pub const Z_SHAPE: [[[u8; 5]; 5]; 2] = [
    [
        [BLANK, BLANK, BLANK, BLANK, BLANK],
        [BLANK, BLANK, BLANK, BLANK, BLANK],
        [BLANK, BLOCK, BLOCK, BLANK, BLANK],
        [BLANK, BLANK, BLOCK, BLOCK, BLANK],
        [BLANK, BLANK, BLANK, BLANK, BLANK],
    ],
    [
        [BLANK, BLANK, BLANK, BLANK, BLANK],
        [BLANK, BLANK, BLOCK, BLANK, BLANK],
        [BLANK, BLOCK, BLOCK, BLANK, BLANK],
        [BLANK, BLOCK, BLANK, BLANK, BLANK],
        [BLANK, BLANK, BLANK, BLANK, BLANK],
    ],
];

/// Rotation templates of the I tetromino, indexed `[rotation][row][column]`.
pub const I_SHAPE: [[[u8; 5]; 5]; 2] = [
    [
        [BLANK, BLANK, BLOCK, BLANK, BLANK],
        [BLANK, BLANK, BLOCK, BLANK, BLANK],
        [BLANK, BLANK, BLOCK, BLANK, BLANK],
        [BLANK, BLANK, BLOCK, BLANK, BLANK],
        [BLANK, BLANK, BLANK, BLANK, BLANK],
    ],
    [
        [BLANK, BLANK, BLANK, BLANK, BLANK],
        [BLANK, BLANK, BLANK, BLANK, BLANK],
        [BLOCK, BLOCK, BLOCK, BLOCK, BLANK],
        [BLANK, BLANK, BLANK, BLANK, BLANK],
        [BLANK, BLANK, BLANK, BLANK, BLANK],
    ],
];

/// Rotation templates of the O tetromino, indexed `[rotation][row][column]`.
pub const O_SHAPE: [[[u8; 5]; 5]; 1] = [
    [
        [BLANK, BLANK, BLANK, BLANK, BLANK],
        [BLANK, BLANK, BLANK, BLANK, BLANK],
        [BLANK, BLOCK, BLOCK, BLANK, BLANK],
        [BLANK, BLOCK, BLOCK, BLANK, BLANK],
        [BLANK, BLANK, BLANK, BLANK, BLANK],
    ],
];

/// Rotation templates of the J tetromino, indexed `[rotation][row][column]`.
pub const J_SHAPE: [[[u8; 5]; 5]; 4] = [
    [
        [BLANK, BLANK, BLANK, BLANK, BLANK],
        [BLANK, BLOCK, BLANK, BLANK, BLANK],
        [BLANK, BLOCK, BLOCK, BLOCK, BLANK],
        [BLANK, BLANK, BLANK, BLANK, BLANK],
        [BLANK, BLANK, BLANK, BLANK, BLANK],
    ],
    [
        [BLANK, BLANK, BLANK, BLANK, BLANK],
        [BLANK, BLOCK, BLOCK, BLANK, BLANK],
        [BLANK, BLOCK, BLANK, BLANK, BLANK],
        [BLANK, BLOCK, BLANK, BLANK, BLANK],
        [BLANK, BLANK, BLANK, BLANK, BLANK],
    ],
    [
        [BLANK, BLANK, BLANK, BLANK, BLANK],
        [BLANK, BLANK, BLANK, BLANK, BLANK],
        [BLANK, BLOCK, BLOCK, BLOCK, BLANK],
        [BLANK, BLANK, BLANK, BLOCK, BLANK],
        [BLANK, BLANK, BLANK, BLANK, BLANK],
    ],
    [
        [BLANK, BLANK, BLANK, BLANK, BLANK],
        [BLANK, BLANK, BLOCK, BLANK, BLANK],
        [BLANK, BLANK, BLOCK, BLANK, BLANK],
        [BLANK, BLOCK, BLOCK, BLANK, BLANK],
        [BLANK, BLANK, BLANK, BLANK, BLANK],
    ],
];

/// Rotation templates of the L tetromino, indexed `[rotation][row][column]`.
pub const L_SHAPE: [[[u8; 5]; 5]; 4] = [
    [
        [BLANK, BLANK, BLANK, BLANK, BLANK],
        [BLANK, BLANK, BLANK, BLOCK, BLANK],
        [BLANK, BLOCK, BLOCK, BLOCK, BLANK],
        [BLANK, BLANK, BLANK, BLANK, BLANK],
        [BLANK, BLANK, BLANK, BLANK, BLANK],
    ],
    [
        [BLANK, BLANK, BLANK, BLANK, BLANK],
        [BLANK, BLANK, BLOCK, BLANK, BLANK],
        [BLANK, BLANK, BLOCK, BLANK, BLANK],
        [BLANK, BLANK, BLOCK, BLOCK, BLANK],
        [BLANK, BLANK, BLANK, BLANK, BLANK],
    ],
    [
        [BLANK, BLANK, BLANK, BLANK, BLANK],
        [BLANK, BLANK, BLANK, BLANK, BLANK],
        [BLANK, BLOCK, BLOCK, BLOCK, BLANK],
        [BLANK, BLOCK, BLANK, BLANK, BLANK],
        [BLANK, BLANK, BLANK, BLANK, BLANK],
    ],
    [
        [BLANK, BLANK, BLANK, BLANK, BLANK],
        [BLANK, BLOCK, BLOCK, BLANK, BLANK],
        [BLANK, BLANK, BLOCK, BLANK, BLANK],
        [BLANK, BLANK, BLOCK, BLANK, BLANK],
        [BLANK, BLANK, BLANK, BLANK, BLANK],
    ],
];

/// Rotation templates of the T tetromino, indexed `[rotation][row][column]`.
pub const T_SHAPE: [[[u8; 5]; 5]; 4] = [
    [
        [BLANK, BLANK, BLANK, BLANK, BLANK],
        [BLANK, BLANK, BLOCK, BLANK, BLANK],
        [BLANK, BLOCK, BLOCK, BLOCK, BLANK],
        [BLANK, BLANK, BLANK, BLANK, BLANK],
        [BLANK, BLANK, BLANK, BLANK, BLANK],
    ],
    [
        [BLANK, BLANK, BLANK, BLANK, BLANK],
        [BLANK, BLANK, BLOCK, BLANK, BLANK],
        [BLANK, BLANK, BLOCK, BLOCK, BLANK],
        [BLANK, BLANK, BLOCK, BLANK, BLANK],
        [BLANK, BLANK, BLANK, BLANK, BLANK],
    ],
    [
        [BLANK, BLANK, BLANK, BLANK, BLANK],
        [BLANK, BLANK, BLANK, BLANK, BLANK],
        [BLANK, BLOCK, BLOCK, BLOCK, BLANK],
        [BLANK, BLANK, BLOCK, BLANK, BLANK],
        [BLANK, BLANK, BLANK, BLANK, BLANK],
    ],
    [
        [BLANK, BLANK, BLANK, BLANK, BLANK],
        [BLANK, BLANK, BLOCK, BLANK, BLANK],
        [BLANK, BLOCK, BLOCK, BLANK, BLANK],
        [BLANK, BLANK, BLOCK, BLANK, BLANK],
        [BLANK, BLANK, BLANK, BLANK, BLANK],
    ],
];

/// The seven tetromino shapes.
#[derive(Clone, Copy, Debug, PartialEq, Eq, Structural)]
pub enum Shape {
    S,
    Z,
    J,
    L,
    I,
    O,
    T,
}

impl Shape {
    /// The rotation templates of this shape, in rotation order.
    pub open spec fn spec_template(self) -> Seq<[[u8; 5]; 5]> {
        match self {
            Shape::S => S_SHAPE@,
            Shape::Z => Z_SHAPE@,
            Shape::J => J_SHAPE@,
            Shape::L => L_SHAPE@,
            Shape::I => I_SHAPE@,
            Shape::O => O_SHAPE@,
            Shape::T => T_SHAPE@,
        }
    }

    /// How many distinct rotation states this shape has.
    pub open spec fn spec_rotation_count(self) -> nat {
        match self {
            Shape::O => 1,
            Shape::S | Shape::Z | Shape::I => 2,
            Shape::J | Shape::L | Shape::T => 4,
        }
    }

    /// Whether template cell `(x, y)` of rotation state `rotation` is
    /// occupied. Anything outside the template, or outside the shape's
    /// rotation states, is not.
    pub open spec fn filled(self, rotation: int, x: int, y: int) -> bool {
        &&& 0 <= rotation < self.spec_rotation_count()
        &&& 0 <= x < TEMPLATEWIDTH
        &&& 0 <= y < TEMPLATEHEIGHT
        &&& self.spec_template()[rotation][y][x] != BLANK
    }

    /// The occupied cells of rotation state `rotation`, as `(x, y)` offsets
    /// within the template.
    pub open spec fn occupied(self, rotation: int) -> Set<(int, int)> {
        Set::new(|c: (int, int)| self.filled(rotation, c.0, c.1))
    }

    /// The rotation templates of this shape, indexed
    /// `[rotation][row][column]`; a cell is occupied unless it holds
    /// [`BLANK`].
    pub fn template(&self) -> (t: Vec<[[u8; 5]; 5]>)
        ensures
            t@ == self.spec_template(),
            t@.len() == self.spec_rotation_count(),
    {
        let t = match self {
            Shape::S => vec![S_SHAPE[0], S_SHAPE[1]],
            Shape::Z => vec![Z_SHAPE[0], Z_SHAPE[1]],
            Shape::J => vec![J_SHAPE[0], J_SHAPE[1], J_SHAPE[2], J_SHAPE[3]],
            Shape::L => vec![L_SHAPE[0], L_SHAPE[1], L_SHAPE[2], L_SHAPE[3]],
            Shape::I => vec![I_SHAPE[0], I_SHAPE[1]],
            Shape::O => vec![O_SHAPE[0]],
            Shape::T => vec![T_SHAPE[0], T_SHAPE[1], T_SHAPE[2], T_SHAPE[3]],
        };
        assert(t@ =~= self.spec_template());
        t
    }

    /// How many distinct rotation states this shape has.
    pub fn rotation_count(&self) -> (n: usize)
        ensures
            n == self.spec_rotation_count(),
            1 <= n <= 4,
    {
        match self {
            Shape::O => 1,
            Shape::S | Shape::Z | Shape::I => 2,
            Shape::J | Shape::L | Shape::T => 4,
        }
    }
}

/// The occupied cells of each rotation state, written out row by row.
pub open spec fn cells_of(shape: Shape, rotation: int) -> Seq<(int, int)> {
    match shape {
        Shape::S => {
            if rotation == 0 {
                seq![(2int, 2int), (3int, 2int), (1int, 3int), (2int, 3int)]
            } else {
                seq![(2int, 1int), (2int, 2int), (3int, 2int), (3int, 3int)]
            }
        },
        Shape::Z => {
            if rotation == 0 {
                seq![(1int, 2int), (2int, 2int), (2int, 3int), (3int, 3int)]
            } else {
                seq![(2int, 1int), (1int, 2int), (2int, 2int), (1int, 3int)]
            }
        },
        Shape::J => {
            if rotation == 0 {
                seq![(1int, 1int), (1int, 2int), (2int, 2int), (3int, 2int)]
            } else if rotation == 1 {
                seq![(1int, 1int), (2int, 1int), (1int, 2int), (1int, 3int)]
            } else if rotation == 2 {
                seq![(1int, 2int), (2int, 2int), (3int, 2int), (3int, 3int)]
            } else {
                seq![(2int, 1int), (2int, 2int), (1int, 3int), (2int, 3int)]
            }
        },
        Shape::L => {
            if rotation == 0 {
                seq![(3int, 1int), (1int, 2int), (2int, 2int), (3int, 2int)]
            } else if rotation == 1 {
                seq![(2int, 1int), (2int, 2int), (2int, 3int), (3int, 3int)]
            } else if rotation == 2 {
                seq![(1int, 2int), (2int, 2int), (3int, 2int), (1int, 3int)]
            } else {
                seq![(1int, 1int), (2int, 1int), (2int, 2int), (2int, 3int)]
            }
        },
        Shape::I => {
            if rotation == 0 {
                seq![(2int, 0int), (2int, 1int), (2int, 2int), (2int, 3int)]
            } else {
                seq![(0int, 2int), (1int, 2int), (2int, 2int), (3int, 2int)]
            }
        },
        Shape::O => {
            seq![(1int, 2int), (2int, 2int), (1int, 3int), (2int, 3int)]
        },
        Shape::T => {
            if rotation == 0 {
                seq![(2int, 1int), (1int, 2int), (2int, 2int), (3int, 2int)]
            } else if rotation == 1 {
                seq![(2int, 1int), (2int, 2int), (3int, 2int), (2int, 3int)]
            } else if rotation == 2 {
                seq![(1int, 2int), (2int, 2int), (3int, 2int), (2int, 3int)]
            } else {
                seq![(2int, 1int), (1int, 2int), (2int, 2int), (2int, 3int)]
            }
        },
    }
}

/// The written-out cells are exactly the occupied cells of the templates.
pub proof fn lemma_cells_of(shape: Shape, rotation: int)
    requires
        0 <= rotation < shape.spec_rotation_count(),
    ensures
        shape.occupied(rotation) == cells_of(shape, rotation).to_set(),
        cells_of(shape, rotation).len() == 4,
        cells_of(shape, rotation).no_duplicates(),
{
    let cells = cells_of(shape, rotation);
    assert forall|c: (int, int)| shape.occupied(rotation).contains(c) implies cells.contains(
        c,
    ) by {
        assert(c == cells[0] || c == cells[1] || c == cells[2] || c == cells[3]);
    }
    assert forall|c: (int, int)| cells.contains(c) implies shape.occupied(rotation).contains(
        c,
    ) by {
        let i = choose|i: int| 0 <= i < cells.len() && cells[i] == c;
        assert(i == 0 || i == 1 || i == 2 || i == 3);
    }
    assert(shape.occupied(rotation) =~= cells.to_set());
}

/// Every rotation template of every shape has exactly four occupied cells.
pub proof fn lemma_template_has_four_cells(shape: Shape, rotation: int)
    requires
        0 <= rotation < shape.spec_rotation_count(),
    ensures
        shape.occupied(rotation).finite(),
        shape.occupied(rotation).len() == 4,
{
    lemma_cells_of(shape, rotation);
    cells_of(shape, rotation).unique_seq_to_set();
    vstd::seq_lib::seq_to_set_is_finite(cells_of(shape, rotation));
}

/// Every rotation template has an occupied cell in its middle row, in the
/// second or the third column.
pub proof fn lemma_middle_row_occupied(shape: Shape, rotation: int)
    requires
        0 <= rotation < shape.spec_rotation_count(),
    ensures
        shape.filled(rotation, 1, 2) || shape.filled(rotation, 2, 2),
{
}

} // verus!
