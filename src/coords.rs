//! Conversions between pixel or grid coordinates and flat indices.
use vstd::prelude::*;

verus! {

/// Number of cells in one row of a tile atlas. Every atlas is assumed to be
/// this wide, whatever the tileset itself declares.
pub const ATLAS_WIDTH: usize = 16;

/// Row-major index of grid cell `(x, y)` in a grid `width` cells wide.
pub open spec fn grid_index(x: int, y: int, width: int) -> int {
    width * y + x
}

/// Linear atlas index of the cell that holds pixel `(src_x, src_y)` of an
/// atlas cut into `cell_size` pixel squares.
pub open spec fn atlas_index(src_x: nat, src_y: nat, cell_size: nat) -> nat {
    src_x / cell_size + (src_y / cell_size) * (ATLAS_WIDTH as nat)
}

/// Converts the grid position `(x, y)` into its index in a row-major grid.
pub fn gridpx_to_idx(px: (usize, usize), width: usize) -> (r: usize)
    requires
        px.0 < width,
        grid_index(px.0 as int, px.1 as int, width as int) <= usize::MAX,
    ensures
        r == grid_index(px.0 as int, px.1 as int, width as int),
{
    proof {
        vstd::arithmetic::mul::lemma_mul_nonnegative(width as int, px.1 as int);
    }
    width * px.1 + px.0
}

/// Converts the pixel offset `src` inside a tile atlas into the index of the
/// atlas cell that holds it.
pub fn src_to_atlas_index(src: (usize, usize), cell_size: usize) -> (r: usize)
    requires
        cell_size > 0,
        atlas_index(src.0 as nat, src.1 as nat, cell_size as nat) <= usize::MAX,
    ensures
        r == atlas_index(src.0 as nat, src.1 as nat, cell_size as nat),
{
    src.0 / cell_size + (src.1 / cell_size) * ATLAS_WIDTH
}

/// Decomposing a grid index as `(index % width, index / width)` gives back the
/// grid position it was computed from.
pub proof fn lemma_grid_index_round_trip(x: int, y: int, width: int)
    requires
        width > 0,
        0 <= x < width,
        y >= 0,
    ensures
        grid_index(x, y, width) % width == x,
        grid_index(x, y, width) / width == y,
{
    vstd::arithmetic::mul::lemma_mul_is_commutative(width, y);
    vstd::arithmetic::div_mod::lemma_fundamental_div_mod_converse(
        grid_index(x, y, width),
        width,
        y,
        x,
    );
}

} // verus!
