//! Neighbor statistics: the live-neighbor count and type list of one cell.
use vstd::prelude::*;

use crate::model::{neighbor_types, neighbor_types_upto, offset, MAX_BOARD_SIZE};

verus! {

/// The `k`-th Moore-neighborhood offset, matching the scan order of the model.
fn offset_at(k: usize) -> (r: (i32, i32))
    requires
        k < 8,
    ensures
        r.0 as int == offset(k as int).0,
        r.1 as int == offset(k as int).1,
{
    if k == 0 {
        (-1, -1)
    } else if k == 1 {
        (0, -1)
    } else if k == 2 {
        (1, -1)
    } else if k == 3 {
        (-1, 0)
    } else if k == 4 {
        (1, 0)
    } else if k == 5 {
        (-1, 1)
    } else if k == 6 {
        (0, 1)
    } else {
        (1, 1)
    }
}

/// Count the live neighbors of `(x, y)` and gather their type bytes in scan
/// order. Positions off the grid are not counted.
pub fn get_neighbor_info(grid: &Vec<u8>, x: i32, y: i32, width: usize, height: usize) -> (r: (
    u32,
    Vec<u8>,
))
    requires
        grid@.len() == width * height,
        width * height <= MAX_BOARD_SIZE,
        width <= MAX_BOARD_SIZE,
        height <= MAX_BOARD_SIZE,
        0 <= x < width,
        0 <= y < height,
    ensures
        r.1@ == neighbor_types(grid@, width as int, height as int, x as int, y as int),
        r.0 == r.1@.len(),
        r.1@.len() <= 8,
{
    let mut count: u32 = 0;
    let mut types: Vec<u8> = Vec::new();
    let mut k: usize = 0;
    while k < 8
        invariant
            k <= 8,
            grid@.len() == width * height,
            width * height <= MAX_BOARD_SIZE,
            width <= MAX_BOARD_SIZE,
            height <= MAX_BOARD_SIZE,
            0 <= x < width,
            0 <= y < height,
            types@ == neighbor_types_upto(
                grid@,
                width as int,
                height as int,
                x as int,
                y as int,
                k as int,
            ),
            types@.len() <= k,
            count == types@.len(),
        decreases 8 - k,
    {
        let (dx, dy) = offset_at(k);
        let nx = x + dx;
        let ny = y + dy;
        if nx >= 0 && nx < width as i32 && ny >= 0 && ny < height as i32 {
            proof {
                assert((ny as int) * (width as int) + (nx as int) < (width as int) * (height
                    as int)) by (nonlinear_arith)
                    requires
                        0 <= nx as int && (nx as int) < width as int,
                        0 <= ny as int && (ny as int) < height as int,
                ;
            }
            let idx = (ny as usize) * width + (nx as usize);
            let b = grid[idx];
            if b != crate::model::DEAD_CELL {
                types.push(b);
                count += 1;
            }
        }
        k += 1;
    }
    (count, types)
}

} // verus!
