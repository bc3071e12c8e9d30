use vstd::prelude::*;
use crate::particle::Particle;
use crate::grid::Grid;

verus! {

/// The RGBA pixel buffer of a grid: four bytes per cell in row-major order,
/// the particle's color id in the red byte and zero in the other three.
pub open spec fn pixel_at(cells: Seq<Particle>, k: int) -> u8 {
    if k % 4 == 0 {
        cells[k / 4].color_id_spec()
    } else {
        0
    }
}

pub fn encode_pixels(g: &Grid) -> (r: Vec<u8>)
    requires
        4 * g@.cells.len() <= usize::MAX,
    ensures
        r@.len() == 4 * g@.cells.len(),
        forall|k: int| 0 <= k < r@.len() ==> #[trigger] r@[k] == pixel_at(g@.cells, k),
{
    let cells = g.cells();
    let n = cells.len();
    let mut r: Vec<u8> = Vec::new();
    let mut i: usize = 0;
    while i < n
        invariant
            n == cells@.len(),
            cells@ == g@.cells,
            4 * n <= usize::MAX,
            i <= n,
            r@.len() == 4 * i,
            forall|k: int| 0 <= k < r@.len() ==> #[trigger] r@[k] == pixel_at(g@.cells, k),
        decreases n - i,
    {
        let c = cells[i].get_color_id();
        r.push(c);
        r.push(0);
        r.push(0);
        r.push(0);
        proof {
            assert forall|k: int| 4 * i <= k < 4 * i + 4 implies #[trigger] r@[k] == pixel_at(
                g@.cells,
                k,
            ) by {
                assert(k / 4 == i as int && k % 4 == k - 4 * i);
            }
        }
        i = i + 1;
    }
    r
}

} // verus!
