//! The validity mask: which cells of the canvas may be painted.
//!
//! The mask rasterizes a tree silhouette: a triangular body whose
//! half-width grows linearly from a top row to a bottom row with a
//! periodic widening for a layered texture, a fixed-width trunk band
//! near the bottom, and a small diamond star above the top row.

use vstd::prelude::*;
use crate::GRID_HEIGHT;
use crate::GRID_SIZE;
use crate::GRID_WIDTH;

verus! {

/// First row of the tree body.
pub const TREE_TOP: usize = 12;

/// Last row of the tree body.
pub const TREE_BOTTOM: usize = 156;

/// Last row of the trunk (the trunk starts at `TREE_BOTTOM`).
pub const TRUNK_BOTTOM: usize = 174;

/// Column of the tree's vertical axis.
pub const CENTER_X: usize = 60;

/// The body's half-width never exceeds this.
pub const MAX_HALF_WIDTH: usize = 55;

/// Half-width of the trunk band.
pub const TRUNK_HALF_WIDTH: usize = 8;

/// Row of the star's center, above the tree top.
pub const STAR_Y: usize = 9;

/// Half-width of the body at row `y`: grows linearly with vertical
/// progress, widened by 2 on a 20-row period, clamped to the maximum.
pub open spec fn half_width(y: int) -> int {
    let base = (y - TREE_TOP) * 50 / (TREE_BOTTOM - TREE_TOP);
    let layered = base + if y % 20 < 5 { 2int } else { 0int };
    if layered <= MAX_HALF_WIDTH { layered } else { MAX_HALF_WIDTH as int }
}

/// Cell `(x, y)` lies in the triangular body.
pub open spec fn in_body(x: int, y: int) -> bool {
    &&& TREE_TOP <= y <= TREE_BOTTOM
    &&& CENTER_X - half_width(y) <= x <= CENTER_X + half_width(y)
}

/// Cell `(x, y)` lies in the trunk band.
pub open spec fn in_trunk(x: int, y: int) -> bool {
    &&& TREE_BOTTOM <= y <= TRUNK_BOTTOM
    &&& CENTER_X - TRUNK_HALF_WIDTH <= x <= CENTER_X + TRUNK_HALF_WIDTH
}

/// Cell `(x, y)` lies in the diamond-shaped star.
pub open spec fn in_star(x: int, y: int) -> bool {
    let dx = if x >= CENTER_X { x - CENTER_X } else { CENTER_X - x };
    let dy = if y >= STAR_Y { y - STAR_Y } else { STAR_Y - y };
    dx + dy <= 2
}

/// Cell `(x, y)` is paintable.
pub open spec fn cell_paintable(x: int, y: int) -> bool {
    in_body(x, y) || in_trunk(x, y) || in_star(x, y)
}

/// The whole mask, one boolean per cell, indexed by `y * GRID_WIDTH + x`.
pub open spec fn spec_tree_mask() -> Seq<bool> {
    Seq::new(GRID_SIZE as nat, |i: int| cell_paintable(i % (GRID_WIDTH as int), i / (GRID_WIDTH as int)))
}

fn half_width_at(y: usize) -> (r: usize)
    requires
        TREE_TOP <= y <= TREE_BOTTOM,
    ensures
        r as int == half_width(y as int),
        r <= MAX_HALF_WIDTH,
{
    let base: usize = (y - TREE_TOP) * 50 / (TREE_BOTTOM - TREE_TOP);
    let layered: usize = base + if y % 20 < 5 { 2 } else { 0 };
    if layered <= MAX_HALF_WIDTH {
        layered
    } else {
        MAX_HALF_WIDTH
    }
}

fn cell_paintable_at(x: usize, y: usize) -> (r: bool)
    requires
        x < GRID_WIDTH,
        y < GRID_HEIGHT,
    ensures
        r == cell_paintable(x as int, y as int),
{
    let body = if TREE_TOP <= y && y <= TREE_BOTTOM {
        let hw = half_width_at(y);
        x + hw >= CENTER_X && x <= CENTER_X + hw
    } else {
        false
    };
    let trunk = TREE_BOTTOM <= y && y <= TRUNK_BOTTOM && CENTER_X - TRUNK_HALF_WIDTH <= x && x
        <= CENTER_X + TRUNK_HALF_WIDTH;
    let dx = if x >= CENTER_X {
        x - CENTER_X
    } else {
        CENTER_X - x
    };
    let dy = if y >= STAR_Y {
        y - STAR_Y
    } else {
        STAR_Y - y
    };
    let star = dx + dy <= 2;
    body || trunk || star
}

/// Builds the validity mask. The result is pinned to `spec_tree_mask`,
/// so the construction is reproducible bit for bit.
pub fn generate_tree_mask() -> (mask: Vec<bool>)
    ensures
        mask@ == spec_tree_mask(),
        mask@.len() == GRID_SIZE,
{
    let mut mask: Vec<bool> = Vec::new();
    let mut i: usize = 0;
    while i < GRID_SIZE
        invariant
            i <= GRID_SIZE,
            mask@.len() == i,
            forall|j: int|
                0 <= j < i ==> mask@[j] == cell_paintable(
                    j % (GRID_WIDTH as int),
                    j / (GRID_WIDTH as int),
                ),
        decreases GRID_SIZE - i,
    {
        let x = i % GRID_WIDTH;
        let y = i / GRID_WIDTH;
        mask.push(cell_paintable_at(x, y));
        i = i + 1;
    }
    proof {
        assert(mask@ =~= spec_tree_mask());
    }
    mask
}

/// Law: the mask construction is deterministic — two masks built from
/// the same dimensions are equal, since each equals `spec_tree_mask`.
pub proof fn lemma_mask_deterministic(a: Seq<bool>, b: Seq<bool>)
    requires
        a == spec_tree_mask(),
        b == spec_tree_mask(),
    ensures
        a == b,
{
}

} // verus!
