use vstd::prelude::*;
use crate::particle::Particle;
use crate::grid::{GridModel, in_floor, lemma_index_bounds, lemma_index_decode, lemma_row_bound};
use crate::rules::{
    air_at,
    first_side,
    lemma_neighbour_in_grid,
    lemma_scan,
    lemma_target_facts,
    neighbour,
    run,
    scan,
    target,
    tick,
};
use crate::simulation::BuffersModel;

verus! {

/// Swapping the roles of a double buffer twice restores them.
pub proof fn lemma_swap_twice(b: BuffersModel)
    ensures
        b.swapped().swapped() == b,
{
}

/// One tick keeps the grid's size and well-formedness, leaves every bedrock
/// cell in place and creates none, and only permutes the particles.
pub proof fn lemma_tick_laws(g: GridModel, left_first: bool)
    requires
        g.wf(),
    ensures
        tick(g, left_first).wf(),
        tick(g, left_first).same_dims(g),
        forall|i: int|
            0 <= i < g.cells.len() ==> (#[trigger] tick(g, left_first).cells[i]
                == Particle::Bedrock <==> g.cells[i] == Particle::Bedrock),
        tick(g, left_first).cells.to_multiset() == g.cells.to_multiset(),
{
    lemma_scan(g, left_first, g.cells.len());
}

/// Over any number of ticks without painting, bedrock cells stay bedrock,
/// no other cell becomes bedrock, and the count of each kind of particle is
/// unchanged: every cell always holds exactly one particle.
pub proof fn lemma_run_laws(g: GridModel, left_first: bool, n: nat)
    requires
        g.wf(),
    ensures
        run(g, left_first, n).wf(),
        run(g, left_first, n).same_dims(g),
        forall|i: int|
            0 <= i < g.cells.len() ==> (#[trigger] run(g, left_first, n).cells[i]
                == Particle::Bedrock <==> g.cells[i] == Particle::Bedrock),
        run(g, left_first, n).cells.to_multiset() == g.cells.to_multiset(),
    decreases n,
{
    if n > 0 {
        lemma_tick_laws(g, left_first);
        lemma_run_laws(tick(g, left_first), !left_first, (n - 1) as nat);
    }
}

/// Sand or bedrock with nowhere to go keeps its cell for the tick: nothing
/// moves into a cell that holds neither air nor water.
pub proof fn lemma_blocked_stays(g: GridModel, left_first: bool, i: int)
    requires
        g.wf(),
        0 <= i < g.cells.len(),
        g.cells[i] == Particle::Sand || g.cells[i] == Particle::Bedrock,
        target(g, left_first, i) is None,
    ensures
        tick(g, left_first).cells[i] == g.cells[i],
{
    lemma_scan(g, left_first, g.cells.len());
}

/// Whether cell `s` holds the only sand or water of `g`.
pub open spec fn lone_mobile(g: GridModel, s: int) -> bool {
    &&& 0 <= s < g.cells.len()
    &&& g.cells[s].is_mobile()
    &&& forall|i: int| 0 <= i < g.cells.len() && i != s ==> !(#[trigger] g.cells[i]).is_mobile()
}

/// The cells of `g` after the particle in cell `s` moved to its target, if
/// it has one.
pub open spec fn moved(g: GridModel, left_first: bool, s: int) -> Seq<Particle> {
    match target(g, left_first, s) {
        Some(j) => g.cells.update(s, g.cells[j]).update(j, g.cells[s]),
        None => g.cells,
    }
}

proof fn lemma_lone_scan(g: GridModel, left_first: bool, s: int, k: nat)
    requires
        g.wf(),
        lone_mobile(g, s),
        k <= g.cells.len(),
    ensures
        k <= s ==> scan(g, left_first, k) == scan(g, left_first, 0),
        k > s ==> scan(g, left_first, k).cells == moved(g, left_first, s),
    decreases k,
{
    if k > 0 {
        let i = k - 1;
        lemma_lone_scan(g, left_first, s, (k - 1) as nat);
        lemma_target_facts(g, left_first, i);
        lemma_scan(g, left_first, 0);
    }
}

/// When one cell holds the only sand or water, a tick moves that particle to
/// its target, swapping it with the occupant, and changes nothing else.
pub proof fn lemma_lone_mover(g: GridModel, left_first: bool, s: int)
    requires
        g.wf(),
        lone_mobile(g, s),
    ensures
        tick(g, left_first).cells == moved(g, left_first, s),
{
    lemma_lone_scan(g, left_first, s, g.cells.len());
}

/// A `w` by `h` grid of air over a bedrock floor `f` rows thick, with one
/// grain of sand at `(x, y)`.
pub open spec fn sand_over_floor(w: nat, h: nat, f: nat, x: int, y: int) -> GridModel {
    GridModel {
        width: w,
        height: h,
        cells: Seq::new(
            w * h,
            |i: int|
                if i == y * w + x {
                    Particle::Sand
                } else if i >= (h - f) * w {
                    Particle::Bedrock
                } else {
                    Particle::Air
                },
        ),
    }
}

/// One tick of a lone grain over a floor: it falls one row if the row below
/// is air, and otherwise it stays where it is.
pub proof fn lemma_sand_over_floor_tick(w: nat, h: nat, f: nat, x: int, y: int, left_first: bool)
    requires
        w > 0,
        w * h <= usize::MAX,
        0 <= x < w,
        0 <= y < h - f,
    ensures
        tick(sand_over_floor(w, h, f, x, y), left_first) == sand_over_floor(
            w,
            h,
            f,
            x,
            if y + 1 < h - f {
                y + 1
            } else {
                y
            },
        ),
{
    let g = sand_over_floor(w, h, f, x, y);
    let wi = w as int;
    let hi = h as int;
    let s = y * wi + x;
    let n = wi * hi;
    lemma_index_bounds(wi, hi, x, y);
    lemma_index_decode(wi, x, y);
    assert(s < (hi - f) * wi) by (nonlinear_arith)
        requires
            s == y * wi + x,
            0 <= x < wi,
            y + 1 <= hi - f,
    ;
    assert(s + wi == (y + 1) * wi + x) by (nonlinear_arith)
        requires
            s == y * wi + x,
    ;
    assert(lone_mobile(g, s));
    lemma_tick_laws(g, left_first);
    lemma_lone_mover(g, left_first, s);
    if y + 1 < hi - f {
        assert(s + wi < (hi - f) * wi) by (nonlinear_arith)
            requires
                s + wi == (y + 1) * wi + x,
                0 <= x < wi,
                y + 2 <= hi - f,
        ;
        assert((hi - f) * wi <= n) by (nonlinear_arith)
            requires
                n == wi * hi,
                f >= 0,
                wi > 0,
        ;
        assert(neighbour(g, s, 0, 1) == Some(s + wi));
        assert(target(g, left_first, s) == Some(s + wi));
        assert(tick(g, left_first).cells =~= sand_over_floor(w, h, f, x, y + 1).cells);
    } else {
        let base = (hi - f) * wi;
        assert(s + wi == base + x);
        assert(forall|i: int| base <= i < n ==> g.cells[i] == Particle::Bedrock);
        let d = first_side(left_first);
        lemma_neighbour_in_grid(g, s, 0, 1);
        lemma_neighbour_in_grid(g, s, d, 1);
        lemma_neighbour_in_grid(g, s, -d, 1);
        assert(!air_at(g, neighbour(g, s, d, 1)));
        assert(!air_at(g, neighbour(g, s, -d, 1)));
        assert(neighbour(g, s, 0, 1) matches Some(b) ==> g.cells[b] == Particle::Bedrock);
        assert(target(g, left_first, s) is None);
        assert(tick(g, left_first).cells =~= g.cells);
    }
}

/// A lone grain dropped over a floor falls one row per tick until it rests on
/// the floor, and then stays there: `n` ticks after it stood in row `y` it
/// stands in row `min(y + n, h - f - 1)`.
pub proof fn lemma_sand_falls_to_floor(
    w: nat,
    h: nat,
    f: nat,
    x: int,
    y: int,
    left_first: bool,
    n: nat,
)
    requires
        w > 0,
        w * h <= usize::MAX,
        0 <= x < w,
        0 <= y < h - f,
    ensures
        run(sand_over_floor(w, h, f, x, y), left_first, n) == sand_over_floor(
            w,
            h,
            f,
            x,
            if y + n < h - f - 1 {
                y + n
            } else {
                h - f - 1
            },
        ),
    decreases n,
{
    if n > 0 {
        lemma_sand_over_floor_tick(w, h, f, x, y, left_first);
        let y2 = if y + 1 < h - f {
            y + 1
        } else {
            y
        };
        lemma_sand_falls_to_floor(w, h, f, x, y2, !left_first, (n - 1) as nat);
    }
}

/// A grid that holds sand at `(x, y)`, bedrock in the bottom `f` rows and
/// air elsewhere, as a new simulation painted with one grain is, is the grid
/// that the falling laws above speak of.
pub proof fn lemma_is_sand_over_floor(g: GridModel, f: nat, x: int, y: int)
    requires
        g.wf(),
        g.in_bounds(x, y),
        !in_floor(g.height as int, f as int, y),
        forall|i: int, j: int|
            g.in_bounds(i, j) ==> #[trigger] g.at(i, j) == if i == x && j == y {
                Particle::Sand
            } else if in_floor(g.height as int, f as int, j) {
                Particle::Bedrock
            } else {
                Particle::Air
            },
    ensures
        g == sand_over_floor(g.width, g.height, f, x, y),
{
    let w = g.width as int;
    let h = g.height as int;
    let t = sand_over_floor(g.width, g.height, f, x, y);
    assert forall|k: int| 0 <= k < g.cells.len() implies g.cells[k] == t.cells[k] by {
        vstd::arithmetic::div_mod::lemma_fundamental_div_mod(k, w);
        vstd::arithmetic::div_mod::lemma_mod_pos_bound(k, w);
        lemma_row_bound(w, h, k);
        let i = k % w;
        let j = k / w;
        assert(k == j * w + i) by (nonlinear_arith)
            requires
                k == w * j + i,
        ;
        assert(g.at(i, j) == g.cells[k]);
        lemma_index_decode(w, x, y);
        if k == y * w + x {
            lemma_index_decode(w, i, j);
        }
        assert(j >= h - f <==> k >= (h - f) * w) by (nonlinear_arith)
            requires
                k == j * w + i,
                0 <= i < w,
                w > 0,
        ;
    }
    assert(g.cells =~= t.cells);
}

} // verus!
