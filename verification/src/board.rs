use vstd::prelude::*;

verus! {

/// Rightmost valid playfield column; columns run `0 ..= MAX_COLUMN` (ten wide).
pub const MAX_COLUMN: i32 = 9;

/// The floor row: a cell on this row cannot descend any further.
pub const FLOOR_ROW: i32 = 0;

/// Row on which freshly spawned cells appear.
pub const SPAWN_ROW: i32 = 19;

/// Visual scale: the side length of one rendered block, in render units.
pub const BLOCK_LENGTH: i64 = 25;

/// One grid coordinate: column `x`, row `y`.
#[derive(Clone, Copy, PartialEq, Eq, Structural, Debug)]
pub struct Block {
    pub x: i32,
    pub y: i32,
}

/// A position handed to the rendering collaborator, in render units.
#[derive(Clone, Copy, PartialEq, Eq, Structural, Debug)]
pub struct RenderPos {
    pub x: i64,
    pub y: i64,
}

/// `r` is the rendering position of the grid coordinate `b`: each axis is the
/// grid coordinate scaled by the block side length.
pub open spec fn renders_block(r: RenderPos, b: Block) -> bool {
    &&& r.x as int == b.x as int * BLOCK_LENGTH as int
    &&& r.y as int == b.y as int * BLOCK_LENGTH as int
}

impl Block {
    pub fn new(x: i32, y: i32) -> (b: Block)
        ensures
            b == (Block { x, y }),
    {
        Block { x, y }
    }

    /// The pure mapping from a grid coordinate to its rendering position.
    pub fn translation(&self) -> (p: RenderPos)
        ensures
            renders_block(p, *self),
    {
        RenderPos { x: (self.x as i64) * BLOCK_LENGTH, y: (self.y as i64) * BLOCK_LENGTH }
    }
}

/// The settled playfield cells. Invariant: no two cells share a coordinate.
pub struct Board {
    pub cells: Vec<Block>,
}

impl Board {
    /// Well-formedness: every settled cell occupies a distinct coordinate.
    pub open spec fn wf(self) -> bool {
        forall|i: int, j: int|
            0 <= i < self.cells@.len() && 0 <= j < self.cells@.len() && i != j ==> #[trigger] self.cells@[i]
                != #[trigger] self.cells@[j]
    }

    /// Some settled cell sits at column `x`, row `y`.
    pub open spec fn spec_occupied(self, x: int, y: int) -> bool {
        exists|i: int|
            0 <= i < self.cells@.len() && (#[trigger] self.cells@[i]).x as int == x
                && self.cells@[i].y as int == y
    }

    pub fn new() -> (b: Board)
        ensures
            b.cells@.len() == 0,
            b.wf(),
    {
        Board { cells: Vec::new() }
    }

    /// Whether a settled cell sits at column `x`, row `y`.
    pub fn occupied(&self, x: i32, y: i32) -> (r: bool)
        ensures
            r == self.spec_occupied(x as int, y as int),
    {
        let mut i: usize = 0;
        let mut found = false;
        while i < self.cells.len()
            invariant
                i <= self.cells@.len(),
                found == exists|k: int|
                    0 <= k < i && (#[trigger] self.cells@[k]).x as int == x as int
                        && self.cells@[k].y as int == y as int,
            decreases self.cells@.len() - i,
        {
            if self.cells[i].x == x && self.cells[i].y == y {
                found = true;
            }
            i += 1;
        }
        found
    }

    /// Settle a cell at `(x, y)`. Nothing changes if the coordinate is already
    /// occupied, so distinctness of the settled cells is preserved.
    pub fn place(&mut self, x: i32, y: i32) -> (added: bool)
        requires
            old(self).wf(),
        ensures
            final(self).wf(),
            added == !old(self).spec_occupied(x as int, y as int),
            added ==> final(self).cells@ == old(self).cells@.push(Block { x, y }),
            !added ==> final(self).cells@ == old(self).cells@,
    {
        if self.occupied(x, y) {
            false
        } else {
            self.cells.push(Block { x, y });
            true
        }
    }
}

} // verus!
