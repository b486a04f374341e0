use crate::board::{renders_block, Block, Board, RenderPos, FLOOR_ROW, MAX_COLUMN, SPAWN_ROW};
use vstd::prelude::*;

verus! {

/// The seven tetromino shape kinds. A piece's kind is fixed at spawn time.
#[derive(Clone, Copy, PartialEq, Eq, Structural, Debug)]
pub enum Piece {
    I,
    J,
    L,
    O,
    S,
    T,
    Z,
}

/// Directions a piece may currently move in. Recomputed from scratch every
/// tick by the collision resolver; never a source of truth on its own.
#[derive(Clone, Copy, PartialEq, Eq, Structural, Debug)]
pub struct Movable {
    pub can_down: bool,
    pub can_left: bool,
    pub can_right: bool,
}

/// Default descent period, in the integer time units fed to the timer
/// (one unit is a millisecond under the standard one-second period).
pub const DESCENT_PERIOD: u64 = 1000;

/// A repeating countdown: it accumulates the elapsed time reported each tick
/// and fires once the full period has accumulated, resetting the accumulator
/// to exactly the overshoot (accumulated minus period).
#[derive(Clone, Copy, PartialEq, Eq, Structural, Debug)]
pub struct DescentTimer {
    pub accumulated: u64,
    pub period: u64,
}

/// The repeating timer that drives one automatic downward step per firing.
#[derive(Clone, Copy, PartialEq, Eq, Structural, Debug)]
pub struct AutoMovePieceDownTimer(pub DescentTimer);

/// One occupied cell of a piece, with its cached rendering position.
#[derive(Clone, Copy, PartialEq, Eq, Structural, Debug)]
pub struct PieceCell {
    pub block: Block,
    pub render: RenderPos,
}

/// An active falling piece: its shape kind, the cells it occupies, its
/// current movability flags, and its descent timer.
pub struct ActivePiece {
    pub kind: Piece,
    pub cells: Vec<PieceCell>,
    pub movable: Movable,
    pub timer: AutoMovePieceDownTimer,
}

/// Some cell of the piece touches the left wall (column 0).
pub open spec fn wall_blocks_left(cells: Seq<PieceCell>) -> bool {
    exists|i: int| 0 <= i < cells.len() && (#[trigger] cells[i]).block.x as int == 0
}

/// Some cell of the piece touches the right wall (the last column).
pub open spec fn wall_blocks_right(cells: Seq<PieceCell>) -> bool {
    exists|i: int| 0 <= i < cells.len() && (#[trigger] cells[i]).block.x as int == MAX_COLUMN as int
}

/// Some cell of the piece rests on the floor row.
pub open spec fn floor_blocks_down(cells: Seq<PieceCell>) -> bool {
    exists|i: int| 0 <= i < cells.len() && (#[trigger] cells[i]).block.y as int == FLOOR_ROW as int
}

/// Some settled cell sits one column to the left of `b` — compared on the
/// column alone, whatever its row (the literal per-axis collision policy).
pub open spec fn blocked_left_by(b: Block, board: Seq<Block>) -> bool {
    exists|j: int| 0 <= j < board.len() && (#[trigger] board[j]).x as int == b.x as int - 1
}

/// Some settled cell sits one column to the right of `b`, on any row.
pub open spec fn blocked_right_by(b: Block, board: Seq<Block>) -> bool {
    exists|j: int| 0 <= j < board.len() && (#[trigger] board[j]).x as int == b.x as int + 1
}

/// Some settled cell sits one row below `b`, in any column.
pub open spec fn blocked_down_by(b: Block, board: Seq<Block>) -> bool {
    exists|j: int| 0 <= j < board.len() && (#[trigger] board[j]).y as int == b.y as int - 1
}

/// Some cell of the piece is blocked to the left by a settled cell.
pub open spec fn board_blocks_left(cells: Seq<PieceCell>, board: Seq<Block>) -> bool {
    exists|i: int| 0 <= i < cells.len() && blocked_left_by((#[trigger] cells[i]).block, board)
}

/// Some cell of the piece is blocked to the right by a settled cell.
pub open spec fn board_blocks_right(cells: Seq<PieceCell>, board: Seq<Block>) -> bool {
    exists|i: int| 0 <= i < cells.len() && blocked_right_by((#[trigger] cells[i]).block, board)
}

/// Some cell of the piece is blocked below by a settled cell.
pub open spec fn board_blocks_down(cells: Seq<PieceCell>, board: Seq<Block>) -> bool {
    exists|i: int| 0 <= i < cells.len() && blocked_down_by((#[trigger] cells[i]).block, board)
}

/// The movability flags the collision resolver owes a piece occupying `cells`
/// against the settled `board`: a direction is permitted exactly when neither
/// the playfield boundary nor a settled neighbour blocks it.
pub open spec fn movability_of(cells: Seq<PieceCell>, board: Seq<Block>) -> Movable {
    Movable {
        can_down: !(floor_blocks_down(cells) || board_blocks_down(cells, board)),
        can_left: !(wall_blocks_left(cells) || board_blocks_left(cells, board)),
        can_right: !(wall_blocks_right(cells) || board_blocks_right(cells, board)),
    }
}

/// Which directions of `block` are blocked by some settled cell, compared on
/// one axis at a time: (left, right, down).
fn board_neighbors_of(block: Block, board: &Vec<Block>) -> (r: (bool, bool, bool))
    ensures
        r.0 == blocked_left_by(block, board@),
        r.1 == blocked_right_by(block, board@),
        r.2 == blocked_down_by(block, board@),
{
    let mut left = false;
    let mut right = false;
    let mut down = false;
    let mut j: usize = 0;
    while j < board.len()
        invariant
            j <= board@.len(),
            left == exists|k: int|
                0 <= k < j && (#[trigger] board@[k]).x as int == block.x as int - 1,
            right == exists|k: int|
                0 <= k < j && (#[trigger] board@[k]).x as int == block.x as int + 1,
            down == exists|k: int|
                0 <= k < j && (#[trigger] board@[k]).y as int == block.y as int - 1,
        decreases board@.len() - j,
    {
        if (board[j].x as i64) == (block.x as i64) - 1 {
            left = true;
        }
        if (board[j].x as i64) == (block.x as i64) + 1 {
            right = true;
        }
        if (board[j].y as i64) == (block.y as i64) - 1 {
            down = true;
        }
        j += 1;
    }
    (left, right, down)
}

/// The collision-resolution algorithm for one piece: start from all three
/// directions permitted, clear a direction on any boundary contact, then clear
/// it again on any per-axis settled neighbour, and return the shared flags.
pub fn resolve_movability(cells: &Vec<PieceCell>, board: &Board) -> (m: Movable)
    ensures
        m == movability_of(cells@, board.cells@),
{
    let mut can_down = true;
    let mut can_left = true;
    let mut can_right = true;

    // Boundary pass: walls and floor.
    let mut i: usize = 0;
    while i < cells.len()
        invariant
            i <= cells@.len(),
            can_left == !(exists|k: int|
                0 <= k < i && (#[trigger] cells@[k]).block.x as int == 0),
            can_right == !(exists|k: int|
                0 <= k < i && (#[trigger] cells@[k]).block.x as int == MAX_COLUMN as int),
            can_down == !(exists|k: int|
                0 <= k < i && (#[trigger] cells@[k]).block.y as int == FLOOR_ROW as int),
        decreases cells@.len() - i,
    {
        if cells[i].block.x == 0 {
            can_left = false;
        }
        if cells[i].block.x == MAX_COLUMN {
            can_right = false;
        }
        if cells[i].block.y == FLOOR_ROW {
            can_down = false;
        }
        i += 1;
    }

    // Board-collision pass: settled neighbours, one axis at a time.
    let mut i: usize = 0;
    while i < cells.len()
        invariant
            i <= cells@.len(),
            can_left == !(wall_blocks_left(cells@) || exists|k: int|
                0 <= k < i && blocked_left_by((#[trigger] cells@[k]).block, board.cells@)),
            can_right == !(wall_blocks_right(cells@) || exists|k: int|
                0 <= k < i && blocked_right_by((#[trigger] cells@[k]).block, board.cells@)),
            can_down == !(floor_blocks_down(cells@) || exists|k: int|
                0 <= k < i && blocked_down_by((#[trigger] cells@[k]).block, board.cells@)),
        decreases cells@.len() - i,
    {
        let (bl, br, bd) = board_neighbors_of(cells[i].block, &board.cells);
        if bl {
            can_left = false;
        }
        if br {
            can_right = false;
        }
        if bd {
            can_down = false;
        }
        i += 1;
    }

    Movable { can_down, can_left, can_right }
}

/// `p1` is `p0` with its movability flags replaced by `m`; kind, cells and
/// timer are untouched.
pub open spec fn same_but_movable(p0: ActivePiece, p1: ActivePiece, m: Movable) -> bool {
    &&& p1.kind == p0.kind
    &&& p1.cells@ == p0.cells@
    &&& p1.timer == p0.timer
    &&& p1.movable == m
}

/// An exact copy of a piece's cells.
fn clone_cells(cells: &Vec<PieceCell>) -> (r: Vec<PieceCell>)
    ensures
        r@ == cells@,
{
    let mut r: Vec<PieceCell> = Vec::new();
    let mut i: usize = 0;
    while i < cells.len()
        invariant
            i <= cells@.len(),
            r@ == cells@.subrange(0, i as int),
        decreases cells@.len() - i,
    {
        r.push(cells[i]);
        i += 1;
    }
    proof {
        assert(r@ =~= cells@);
    }
    r
}

/// Collision Resolver pass, run once per tick before any movement: recompute
/// every active piece's movability flags from its own cells and the settled
/// board, leaving everything else untouched.
pub fn check_collision(pieces: &mut Vec<ActivePiece>, board: &Board)
    ensures
        final(pieces)@.len() == old(pieces)@.len(),
        forall|k: int|
            0 <= k < old(pieces)@.len() ==> same_but_movable(
                #[trigger] old(pieces)@[k],
                final(pieces)@[k],
                movability_of(old(pieces)@[k].cells@, board.cells@),
            ),
{
    let ghost pre = pieces@;
    let mut k: usize = 0;
    while k < pieces.len()
        invariant
            k <= pre.len(),
            pieces@.len() == pre.len(),
            forall|t: int| k <= t < pre.len() ==> #[trigger] pieces@[t] == pre[t],
            forall|t: int|
                0 <= t < k ==> same_but_movable(
                    #[trigger] pre[t],
                    pieces@[t],
                    movability_of(pre[t].cells@, board.cells@),
                ),
        decreases pre.len() - k,
    {
        let m = resolve_movability(&pieces[k].cells, board);
        let p = ActivePiece {
            kind: pieces[k].kind,
            cells: clone_cells(&pieces[k].cells),
            movable: m,
            timer: pieces[k].timer,
        };
        pieces.set(k, p);
        k += 1;
    }
}

/// `c1` is `c0` translated as one rigid body: every cell shifted by exactly
/// the same `(dx, dy)`, with each rendering position recomputed from the new
/// grid coordinate.
pub open spec fn cells_translated(c0: Seq<PieceCell>, c1: Seq<PieceCell>, dx: int, dy: int) -> bool {
    &&& c1.len() == c0.len()
    &&& forall|i: int|
        0 <= i < c0.len() ==> {
            let b0 = (#[trigger] c0[i]).block;
            let b1 = c1[i].block;
            &&& b1.x as int == b0.x as int + dx
            &&& b1.y as int == b0.y as int + dy
            &&& renders_block(c1[i].render, b1)
        }
}

/// `p1` is `p0` after one accepted translation step: the cells moved rigidly
/// by `(dx, dy)` and nothing else changed.
pub open spec fn piece_translated(p0: ActivePiece, p1: ActivePiece, dx: int, dy: int) -> bool {
    &&& p1.kind == p0.kind
    &&& p1.movable == p0.movable
    &&& p1.timer == p0.timer
    &&& cells_translated(p0.cells@, p1.cells@, dx, dy)
}

/// Every new coordinate of a `(dx, dy)` shift of `cells` stays within the
/// machine integer range.
pub open spec fn shift_fits(cells: Seq<PieceCell>, dx: int, dy: int) -> bool {
    forall|i: int|
        0 <= i < cells.len() ==> {
            let b = (#[trigger] cells[i]).block;
            &&& i32::MIN <= b.x as int + dx <= i32::MAX
            &&& i32::MIN <= b.y as int + dy <= i32::MAX
        }
}

/// Translate every cell of `p` by `(dx, dy)` and recompute each cell's
/// rendering position.
fn translate_piece(p: &ActivePiece, dx: i32, dy: i32) -> (q: ActivePiece)
    requires
        shift_fits(p.cells@, dx as int, dy as int),
    ensures
        piece_translated(*p, q, dx as int, dy as int),
{
    let mut new_cells: Vec<PieceCell> = Vec::new();
    let mut i: usize = 0;
    while i < p.cells.len()
        invariant
            i <= p.cells@.len(),
            new_cells@.len() == i,
            shift_fits(p.cells@, dx as int, dy as int),
            forall|t: int|
                0 <= t < i ==> {
                    let b0 = (#[trigger] p.cells@[t]).block;
                    let b1 = new_cells@[t].block;
                    &&& b1.x as int == b0.x as int + dx as int
                    &&& b1.y as int == b0.y as int + dy as int
                    &&& renders_block(new_cells@[t].render, b1)
                },
        decreases p.cells@.len() - i,
    {
        let b = p.cells[i].block;
        let nb = Block { x: b.x + dx, y: b.y + dy };
        let nr = nb.translation();
        new_cells.push(PieceCell { block: nb, render: nr });
        i += 1;
    }
    ActivePiece { kind: p.kind, cells: new_cells, movable: p.movable, timer: p.timer }
}

/// One manual step in a fixed direction over every piece: a piece whose flag
/// for that direction is set moves rigidly by one unit; every other piece is
/// left exactly as it was.
pub open spec fn manual_step(
    pre: Seq<ActivePiece>,
    post: Seq<ActivePiece>,
    flag_of: spec_fn(Movable) -> bool,
    dx: int,
    dy: int,
) -> bool {
    &&& post.len() == pre.len()
    &&& forall|k: int|
        0 <= k < pre.len() ==> if flag_of((#[trigger] pre[k]).movable) {
            piece_translated(pre[k], post[k], dx, dy)
        } else {
            post[k] == pre[k]
        }
}

/// Every piece permitted to move in the given direction can take the one-unit
/// step without leaving the machine integer range.
pub open spec fn step_fits(
    pieces: Seq<ActivePiece>,
    flag_of: spec_fn(Movable) -> bool,
    dx: int,
    dy: int,
) -> bool {
    forall|k: int|
        0 <= k < pieces.len() && flag_of((#[trigger] pieces[k]).movable) ==> shift_fits(
            pieces[k].cells@,
            dx,
            dy,
        )
}

/// Move every piece whose `can_left` flag is set one column to the left.
fn move_all_left(pieces: &mut Vec<ActivePiece>)
    requires
        step_fits(old(pieces)@, |m: Movable| m.can_left, -1, 0),
    ensures
        manual_step(old(pieces)@, final(pieces)@, |m: Movable| m.can_left, -1, 0),
{
    let ghost pre = pieces@;
    let mut k: usize = 0;
    while k < pieces.len()
        invariant
            k <= pre.len(),
            pieces@.len() == pre.len(),
            step_fits(pre, |m: Movable| m.can_left, -1, 0),
            forall|t: int| k <= t < pre.len() ==> #[trigger] pieces@[t] == pre[t],
            forall|t: int|
                0 <= t < k ==> if (#[trigger] pre[t]).movable.can_left {
                    piece_translated(pre[t], pieces@[t], -1, 0)
                } else {
                    pieces@[t] == pre[t]
                },
        decreases pre.len() - k,
    {
        if pieces[k].movable.can_left {
            let moved = translate_piece(&pieces[k], -1, 0);
            pieces.set(k, moved);
        }
        k += 1;
    }
}

/// Move every piece whose `can_right` flag is set one column to the right.
fn move_all_right(pieces: &mut Vec<ActivePiece>)
    requires
        step_fits(old(pieces)@, |m: Movable| m.can_right, 1, 0),
    ensures
        manual_step(old(pieces)@, final(pieces)@, |m: Movable| m.can_right, 1, 0),
{
    let ghost pre = pieces@;
    let mut k: usize = 0;
    while k < pieces.len()
        invariant
            k <= pre.len(),
            pieces@.len() == pre.len(),
            step_fits(pre, |m: Movable| m.can_right, 1, 0),
            forall|t: int| k <= t < pre.len() ==> #[trigger] pieces@[t] == pre[t],
            forall|t: int|
                0 <= t < k ==> if (#[trigger] pre[t]).movable.can_right {
                    piece_translated(pre[t], pieces@[t], 1, 0)
                } else {
                    pieces@[t] == pre[t]
                },
        decreases pre.len() - k,
    {
        if pieces[k].movable.can_right {
            let moved = translate_piece(&pieces[k], 1, 0);
            pieces.set(k, moved);
        }
        k += 1;
    }
}

/// Move every piece whose `can_down` flag is set one row down.
fn move_all_down(pieces: &mut Vec<ActivePiece>)
    requires
        step_fits(old(pieces)@, |m: Movable| m.can_down, 0, -1),
    ensures
        manual_step(old(pieces)@, final(pieces)@, |m: Movable| m.can_down, 0, -1),
{
    let ghost pre = pieces@;
    let mut k: usize = 0;
    while k < pieces.len()
        invariant
            k <= pre.len(),
            pieces@.len() == pre.len(),
            step_fits(pre, |m: Movable| m.can_down, 0, -1),
            forall|t: int| k <= t < pre.len() ==> #[trigger] pieces@[t] == pre[t],
            forall|t: int|
                0 <= t < k ==> if (#[trigger] pre[t]).movable.can_down {
                    piece_translated(pre[t], pieces@[t], 0, -1)
                } else {
                    pieces@[t] == pre[t]
                },
        decreases pre.len() - k,
    {
        if pieces[k].movable.can_down {
            let moved = translate_piece(&pieces[k], 0, -1);
            pieces.set(k, moved);
        }
        k += 1;
    }
}

/// Movement Controller, manual side. Consumes the tick's edge-detected key
/// events, first match wins: left before right before down. Each piece whose
/// flag for the chosen direction is set moves rigidly by one grid unit; a
/// piece whose flag is clear is left untouched (a silent no-op, not an error).
pub fn manually_move_piece(
    pieces: &mut Vec<ActivePiece>,
    left_pressed: bool,
    right_pressed: bool,
    down_pressed: bool,
)
    requires
        left_pressed ==> step_fits(old(pieces)@, |m: Movable| m.can_left, -1, 0),
        !left_pressed && right_pressed ==> step_fits(old(pieces)@, |m: Movable| m.can_right, 1, 0),
        !left_pressed && !right_pressed && down_pressed ==> step_fits(
            old(pieces)@,
            |m: Movable| m.can_down,
            0,
            -1,
        ),
    ensures
        left_pressed ==> manual_step(old(pieces)@, final(pieces)@, |m: Movable| m.can_left, -1, 0),
        !left_pressed && right_pressed ==> manual_step(
            old(pieces)@,
            final(pieces)@,
            |m: Movable| m.can_right,
            1,
            0,
        ),
        !left_pressed && !right_pressed && down_pressed ==> manual_step(
            old(pieces)@,
            final(pieces)@,
            |m: Movable| m.can_down,
            0,
            -1,
        ),
        !left_pressed && !right_pressed && !down_pressed ==> final(pieces)@ == old(pieces)@,
{
    if left_pressed {
        move_all_left(pieces);
    } else if right_pressed {
        move_all_right(pieces);
    } else if down_pressed {
        move_all_down(pieces);
    }
}

/// The timer fires this tick exactly when the elapsed time brings the
/// accumulator up to (or past) its full period.
pub open spec fn timer_fires(t: DescentTimer, delta: u64) -> bool {
    t.accumulated as int + delta as int >= t.period as int
}

/// The timer after one tick of `delta` elapsed time: the accumulator grows by
/// `delta`; on firing it resets to exactly the overshoot (accumulated minus
/// period). The period never changes.
pub open spec fn timer_after(t: DescentTimer, delta: u64) -> DescentTimer {
    if timer_fires(t, delta) {
        DescentTimer {
            accumulated: (t.accumulated + delta - t.period) as u64,
            period: t.period,
        }
    } else {
        DescentTimer { accumulated: (t.accumulated + delta) as u64, period: t.period }
    }
}

impl DescentTimer {
    /// A fresh repeating timer with the given period and an empty accumulator.
    pub fn new(period: u64) -> (t: DescentTimer)
        ensures
            t == (DescentTimer { accumulated: 0, period }),
    {
        DescentTimer { accumulated: 0, period }
    }

    /// Advance the timer by the elapsed time of one tick and report whether it
    /// fired. It fires only once its full period has accumulated, and then
    /// resets to exactly the overshoot — never below zero.
    pub fn tick(&mut self, delta: u64) -> (fired: bool)
        requires
            old(self).accumulated + delta <= u64::MAX,
        ensures
            fired == timer_fires(*old(self), delta),
            *final(self) == timer_after(*old(self), delta),
    {
        self.accumulated = self.accumulated + delta;
        if self.accumulated >= self.period {
            self.accumulated = self.accumulated - self.period;
            true
        } else {
            false
        }
    }
}

/// `p1` is `p0` after one automatic-descent tick of `delta` elapsed time: the
/// timer always advances (firing unconditionally resets it, blocked or not),
/// and the cells move rigidly one row down exactly when the timer fired and
/// descent was permitted.
pub open spec fn auto_step_one(p0: ActivePiece, p1: ActivePiece, delta: u64) -> bool {
    &&& p1.kind == p0.kind
    &&& p1.movable == p0.movable
    &&& p1.timer == AutoMovePieceDownTimer(timer_after(p0.timer.0, delta))
    &&& if timer_fires(p0.timer.0, delta) && p0.movable.can_down {
        cells_translated(p0.cells@, p1.cells@, 0, -1)
    } else {
        p1.cells@ == p0.cells@
    }
}

/// No piece's timer accumulator overflows when `delta` is added.
pub open spec fn tick_fits(pieces: Seq<ActivePiece>, delta: u64) -> bool {
    forall|k: int|
        0 <= k < pieces.len() ==> (#[trigger] pieces[k]).timer.0.accumulated + delta <= u64::MAX
}

/// Movement Controller, automatic side, run once per tick with the elapsed
/// time. Every piece's descent timer advances; a piece whose timer fires and
/// whose `can_down` flag is set moves one row down. The firing — and the
/// reset — happen whether or not the piece could move.
pub fn auto_move_piece_down(pieces: &mut Vec<ActivePiece>, delta: u64)
    requires
        tick_fits(old(pieces)@, delta),
        step_fits(old(pieces)@, |m: Movable| m.can_down, 0, -1),
    ensures
        final(pieces)@.len() == old(pieces)@.len(),
        forall|k: int|
            0 <= k < old(pieces)@.len() ==> auto_step_one(
                #[trigger] old(pieces)@[k],
                final(pieces)@[k],
                delta,
            ),
{
    let ghost pre = pieces@;
    let mut k: usize = 0;
    while k < pieces.len()
        invariant
            k <= pre.len(),
            pieces@.len() == pre.len(),
            tick_fits(pre, delta),
            step_fits(pre, |m: Movable| m.can_down, 0, -1),
            forall|t: int| k <= t < pre.len() ==> #[trigger] pieces@[t] == pre[t],
            forall|t: int| 0 <= t < k ==> auto_step_one(pre[t], #[trigger] pieces@[t], delta),
        decreases pre.len() - k,
    {
        let mut timer = pieces[k].timer.0;
        let fired = timer.tick(delta);
        let p = if fired && pieces[k].movable.can_down {
            let mut moved = translate_piece(&pieces[k], 0, -1);
            moved.timer = AutoMovePieceDownTimer(timer);
            moved
        } else {
            ActivePiece {
                kind: pieces[k].kind,
                cells: clone_cells(&pieces[k].cells),
                movable: pieces[k].movable,
                timer: AutoMovePieceDownTimer(timer),
            }
        };
        pieces.set(k, p);
        k += 1;
    }
}

/// `p` is a freshly spawned unit piece at `(x, y)`: the `I` kind, one cell
/// with its rendering position derived from the grid coordinate, all three
/// directions permitted, and a descent timer of the default period with an
/// empty accumulator.
pub open spec fn spawned_at(p: ActivePiece, x: int, y: int) -> bool {
    &&& p.kind == Piece::I
    &&& p.cells@.len() == 1
    &&& p.cells@[0].block.x as int == x
    &&& p.cells@[0].block.y as int == y
    &&& renders_block(p.cells@[0].render, p.cells@[0].block)
    &&& p.movable == (Movable { can_down: true, can_left: true, can_right: true })
    &&& p.timer == AutoMovePieceDownTimer(DescentTimer { accumulated: 0, period: DESCENT_PERIOD })
}

/// One freshly spawned unit piece at `(x, y)`.
fn spawn_unit(x: i32, y: i32) -> (p: ActivePiece)
    ensures
        spawned_at(p, x as int, y as int),
{
    let block = Block::new(x, y);
    let render = block.translation();
    let mut cells: Vec<PieceCell> = Vec::new();
    cells.push(PieceCell { block, render });
    ActivePiece {
        kind: Piece::I,
        cells,
        movable: Movable { can_down: true, can_left: true, can_right: true },
        timer: AutoMovePieceDownTimer(DescentTimer::new(DESCENT_PERIOD)),
    }
}

/// Spawn the initial pieces: four unit pieces of the `I` kind laid out
/// horizontally on the spawn row, columns 0 through 3, each starting fully
/// movable with a fresh descent timer.
pub fn spawn_piece() -> (pieces: Vec<ActivePiece>)
    ensures
        pieces@.len() == 4,
        forall|k: int| 0 <= k < 4 ==> spawned_at(#[trigger] pieces@[k], k, SPAWN_ROW as int),
{
    let mut pieces: Vec<ActivePiece> = Vec::new();
    pieces.push(spawn_unit(0, SPAWN_ROW));
    pieces.push(spawn_unit(1, SPAWN_ROW));
    pieces.push(spawn_unit(2, SPAWN_ROW));
    pieces.push(spawn_unit(3, SPAWN_ROW));
    pieces
}

/// `b` lies inside the playfield: within the walls and on or above the floor.
pub open spec fn in_bounds(b: Block) -> bool {
    &&& 0 <= b.x as int <= MAX_COLUMN as int
    &&& b.y as int >= FLOOR_ROW as int
}

/// Every candidate coordinate lies inside the playfield and on no settled
/// cell.
pub open spec fn candidate_valid(candidate: Seq<Block>, board: Board) -> bool {
    forall|i: int|
        0 <= i < candidate.len() ==> in_bounds(#[trigger] candidate[i]) && !board.spec_occupied(
            candidate[i].x as int,
            candidate[i].y as int,
        )
}

/// Rotation request on one piece. The caller supplies the candidate cell
/// coordinates of the rotated shape (the pivot and offsets are the shape
/// table's concern, not settled here); the piece adopts them atomically if
/// every one lies in bounds and on no settled cell, and is otherwise left
/// exactly as it was.
pub fn rotate_piece(piece: &mut ActivePiece, candidate: &Vec<Block>, board: &Board) -> (accepted:
    bool)
    requires
        candidate@.len() == old(piece).cells@.len(),
    ensures
        accepted == candidate_valid(candidate@, *board),
        accepted ==> {
            &&& final(piece).kind == old(piece).kind
            &&& final(piece).movable == old(piece).movable
            &&& final(piece).timer == old(piece).timer
            &&& final(piece).cells@.len() == candidate@.len()
            &&& forall|i: int|
                0 <= i < candidate@.len() ==> (#[trigger] final(piece).cells@[i]).block
                    == candidate@[i] && renders_block(
                    final(piece).cells@[i].render,
                    candidate@[i],
                )
        },
        !accepted ==> *final(piece) == *old(piece),
{
    // Validation pass over the candidate coordinates.
    let mut valid = true;
    let mut i: usize = 0;
    while i < candidate.len()
        invariant
            i <= candidate@.len(),
            valid == forall|t: int|
                0 <= t < i ==> in_bounds(#[trigger] candidate@[t]) && !board.spec_occupied(
                    candidate@[t].x as int,
                    candidate@[t].y as int,
                ),
        decreases candidate@.len() - i,
    {
        let b = candidate[i];
        if b.x < 0 || b.x > MAX_COLUMN || b.y < FLOOR_ROW || board.occupied(b.x, b.y) {
            valid = false;
        }
        i += 1;
    }
    if !valid {
        return false;
    }
    // Commit: all cells adopt the candidate coordinates atomically.
    let mut new_cells: Vec<PieceCell> = Vec::new();
    let mut i: usize = 0;
    while i < candidate.len()
        invariant
            i <= candidate@.len(),
            new_cells@.len() == i,
            forall|t: int|
                0 <= t < i ==> (#[trigger] new_cells@[t]).block == candidate@[t] && renders_block(
                    new_cells@[t].render,
                    candidate@[t],
                ),
        decreases candidate@.len() - i,
    {
        let b = candidate[i];
        let r = b.translation();
        new_cells.push(PieceCell { block: b, render: r });
        i += 1;
    }
    piece.cells = new_cells;
    true
}

/// Resolver purity: the movability flags are a function of the current piece
/// and board coordinates alone, so resolving twice without any mutation in
/// between yields identical flags.
pub proof fn lemma_resolver_pure(
    cells1: Seq<PieceCell>,
    board1: Seq<Block>,
    cells2: Seq<PieceCell>,
    board2: Seq<Block>,
)
    requires
        cells1 == cells2,
        board1 == board2,
    ensures
        movability_of(cells1, board1) == movability_of(cells2, board2),
{
}

/// Boundary policy: a piece with a cell on column 0 is never permitted to move
/// left, one with a cell on the last column never right, and one with a cell
/// on the floor row never down — whatever the board holds.
pub proof fn lemma_boundary_blocks(cells: Seq<PieceCell>, board: Seq<Block>, i: int)
    requires
        0 <= i < cells.len(),
    ensures
        cells[i].block.x as int == 0 ==> !movability_of(cells, board).can_left,
        cells[i].block.x as int == MAX_COLUMN as int ==> !movability_of(cells, board).can_right,
        cells[i].block.y as int == FLOOR_ROW as int ==> !movability_of(cells, board).can_down,
{
}

/// Board policy: a settled cell directly left of a piece cell (same row, one
/// column over) always forbids the piece to move left.
pub proof fn lemma_left_neighbor_blocks(cells: Seq<PieceCell>, board: Seq<Block>, i: int, j: int)
    requires
        0 <= i < cells.len(),
        0 <= j < board.len(),
        board[j].x as int == cells[i].block.x as int - 1,
        board[j].y == cells[i].block.y,
    ensures
        !movability_of(cells, board).can_left,
{
    assert(blocked_left_by(cells[i].block, board));
}

/// Rejection is idempotent: a piece whose `can_left` flag is clear is left
/// exactly in place by a left-press step, and stays in place under any
/// further left-press steps (the flags, too, are untouched by the step).
pub proof fn lemma_left_rejection_idempotent(
    s1: Seq<ActivePiece>,
    s2: Seq<ActivePiece>,
    s3: Seq<ActivePiece>,
    k: int,
)
    requires
        manual_step(s1, s2, |m: Movable| m.can_left, -1, 0),
        manual_step(s2, s3, |m: Movable| m.can_left, -1, 0),
        0 <= k < s1.len(),
        !s1[k].movable.can_left,
    ensures
        s2[k] == s1[k],
        s3[k] == s1[k],
{
}

/// Translation atomicity: an accepted move shifts every cell of the piece by
/// exactly the same one-step delta, so the relative offsets between any two
/// cells of the piece are preserved.
pub proof fn lemma_translation_atomic(
    c0: Seq<PieceCell>,
    c1: Seq<PieceCell>,
    dx: int,
    dy: int,
    a: int,
    b: int,
)
    requires
        cells_translated(c0, c1, dx, dy),
        0 <= a < c0.len(),
        0 <= b < c0.len(),
    ensures
        c1[a].block.x as int == c0[a].block.x as int + dx,
        c1[a].block.y as int == c0[a].block.y as int + dy,
        c1[a].block.x as int - c1[b].block.x as int == c0[a].block.x as int
            - c0[b].block.x as int,
        c1[a].block.y as int - c1[b].block.y as int == c0[a].block.y as int
            - c0[b].block.y as int,
{
}

/// Timer exactness: the descent timer fires only once its full period has
/// accumulated; on firing the accumulator resets to exactly the accumulated
/// time minus the period, and it never drifts below zero.
pub proof fn lemma_timer_exact(t: DescentTimer, delta: u64)
    requires
        t.accumulated + delta <= u64::MAX,
    ensures
        timer_fires(t, delta) <==> t.accumulated + delta >= t.period,
        timer_fires(t, delta) ==> timer_after(t, delta).accumulated == t.accumulated + delta
            - t.period,
        !timer_fires(t, delta) ==> timer_after(t, delta).accumulated == t.accumulated + delta,
        timer_after(t, delta).accumulated >= 0,
        timer_after(t, delta).period == t.period,
{
}

} // verus!
