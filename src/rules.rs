use vstd::prelude::*;
use crate::particle::Particle;
use crate::grid::{Grid, GridModel};

verus! {

/// The index of the cell `dx` columns right and `dy` rows down from cell `i`,
/// if it lies in the grid (`dx` is -1, 0 or 1; `dy` is 0 or 1).
pub open spec fn neighbour(g: GridModel, i: int, dx: int, dy: int) -> Option<int> {
    let x = i % (g.width as int);
    let down = if dy == 1 { i + g.width } else { i };
    if 0 <= x + dx < g.width && down < g.cells.len() {
        Some(down + dx)
    } else {
        None
    }
}

/// Whether `o` names a cell of `g` that holds air.
pub open spec fn air_at(g: GridModel, o: Option<int>) -> bool {
    o matches Some(j) && g.cells[j] == Particle::Air
}

/// The horizontal direction tried first for diagonal and sideways moves, then
/// the other one. Left goes first on ticks where `left_first` holds; the
/// simulation alternates it each tick so that piles show no drift.
pub open spec fn first_side(left_first: bool) -> int {
    if left_first { -1 } else { 1 }
}

/// Where the particle in cell `i` wants to move this tick, judged on `g`
/// alone: sand falls into air or water below it, else slides diagonally down
/// into air; water falls into air below, else slides diagonally down into
/// air, else flows sideways into air. Other particles never move.
pub open spec fn target(g: GridModel, left_first: bool, i: int) -> Option<int> {
    let d = first_side(left_first);
    let below = neighbour(g, i, 0, 1);
    let diag1 = neighbour(g, i, d, 1);
    let diag2 = neighbour(g, i, -d, 1);
    let side1 = neighbour(g, i, d, 0);
    let side2 = neighbour(g, i, -d, 0);
    match g.cells[i] {
        Particle::Sand => {
            if below matches Some(b) && (g.cells[b] == Particle::Air || g.cells[b]
                == Particle::Water) {
                below
            } else if air_at(g, diag1) {
                diag1
            } else if air_at(g, diag2) {
                diag2
            } else {
                None
            }
        },
        Particle::Water => {
            if air_at(g, below) {
                below
            } else if air_at(g, diag1) {
                diag1
            } else if air_at(g, diag2) {
                diag2
            } else if air_at(g, side1) {
                side1
            } else if air_at(g, side2) {
                side2
            } else {
                None
            }
        },
        _ => None,
    }
}

/// The state of a tick in progress: the cells written so far, and which cells
/// already took part in a move.
pub struct TickState {
    pub cells: Seq<Particle>,
    pub claimed: Seq<bool>,
}

/// The effect of visiting cell `i`: a cell not yet claimed moves to its target
/// if that target is not claimed either, swapping with the occupant and
/// claiming both cells; a lost race leaves it in place.
pub open spec fn visit(g: GridModel, left_first: bool, s: TickState, i: int) -> TickState {
    if s.claimed[i] {
        s
    } else {
        match target(g, left_first, i) {
            Some(j) => if s.claimed[j] {
                s
            } else {
                TickState {
                    cells: s.cells.update(i, s.cells[j]).update(j, s.cells[i]),
                    claimed: s.claimed.update(i, true).update(j, true),
                }
            },
            None => s,
        }
    }
}

/// The state after visiting the first `k` cells in row-major order, starting
/// from a copy of `g` with nothing claimed.
pub open spec fn scan(g: GridModel, left_first: bool, k: nat) -> TickState
    decreases k,
{
    if k == 0 {
        TickState { cells: g.cells, claimed: Seq::new(g.cells.len(), |i: int| false) }
    } else {
        visit(g, left_first, scan(g, left_first, (k - 1) as nat), k - 1)
    }
}

/// The grid one tick after `g`.
pub open spec fn tick(g: GridModel, left_first: bool) -> GridModel {
    g.with_cells(scan(g, left_first, g.cells.len()).cells)
}

/// Column arithmetic on a row-major index: the column of `i` is below the
/// width and at most `i`, and a step right from a cell that is not in the last
/// column stays inside the grid.
pub proof fn lemma_column(w: int, h: int, i: int)
    requires
        w > 0,
        h > 0,
        0 <= i < w * h,
    ensures
        0 <= i % w < w,
        i % w <= i,
        i % w + 1 < w ==> i + 1 < w * h,
        i % w + 1 < w && i + w < w * h ==> i + w + 1 < w * h,
        i % w > 0 ==> i % w - 1 == (i - 1) % w,
{
    vstd::arithmetic::div_mod::lemma_fundamental_div_mod(i, w);
    vstd::arithmetic::div_mod::lemma_mod_pos_bound(i, w);
    let q = i / w;
    let x = i % w;
    assert(q >= 0) by (nonlinear_arith)
        requires
            i == w * q + x,
            0 <= x < w,
            i >= 0,
    ;
    assert(q < h) by (nonlinear_arith)
        requires
            i == w * q + x,
            0 <= x,
            i < w * h,
            w > 0,
    ;
    if x + 1 < w {
        assert(i + 1 < w * (q + 1)) by (nonlinear_arith)
            requires
                i == w * q + x,
                x + 1 < w,
        ;
        assert(w * (q + 1) <= w * h) by (nonlinear_arith)
            requires
                q < h,
                w > 0,
        ;
    }
    if x + 1 < w && i + w < w * h {
        assert(q + 1 < h) by (nonlinear_arith)
            requires
                i == w * q + x,
                i + w < w * h,
                x >= 0,
                w > 0,
        ;
        assert(w * (q + 1) + w <= w * h) by (nonlinear_arith)
            requires
                q + 1 < h,
                w > 0,
        ;
        assert(i + w + 1 < w * (q + 1) + w) by (nonlinear_arith)
            requires
                i == w * q + x,
                x + 1 < w,
        ;
    }
    if x > 0 {
        assert(i - 1 == q * w + (x - 1)) by (nonlinear_arith)
            requires
                i == w * q + x,
        ;
        vstd::arithmetic::div_mod::lemma_fundamental_div_mod_converse(i - 1, w, q, x - 1);
    }
}

/// A neighbour, when there is one, is a cell of the grid other than `i`
/// itself, unless the offsets are both zero.
pub proof fn lemma_neighbour_in_grid(g: GridModel, i: int, dx: int, dy: int)
    requires
        g.wf(),
        0 <= i < g.cells.len(),
        dx == -1 || dx == 0 || dx == 1,
        dy == 0 || dy == 1,
    ensures
        neighbour(g, i, dx, dy) matches Some(j) ==> 0 <= j < g.cells.len() && (j == i <==> (dx
            == 0 && dy == 0)),
{
    lemma_column(g.width as int, g.height as int, i);
}

/// An optional index, widened to a mathematical integer.
pub open spec fn as_int(o: Option<usize>) -> Option<int> {
    match o {
        Some(j) => Some(j as int),
        None => None,
    }
}

/// The grid `n` ticks after `g`, the first tick trying the side that
/// `left_first` gives and each later one the other side from the tick before.
pub open spec fn run(g: GridModel, left_first: bool, n: nat) -> GridModel
    decreases n,
{
    if n == 0 {
        g
    } else {
        run(tick(g, left_first), !left_first, (n - 1) as nat)
    }
}

/// The exec form of `neighbour`.
fn neighbour_exec(g: &Grid, i: usize, dx: i8, dy: u8) -> (r: Option<usize>)
    requires
        g.wf(),
        i < g@.cells.len(),
        dx == -1 || dx == 0 || dx == 1,
        dy == 0 || dy == 1,
    ensures
        as_int(r) == neighbour(g@, i as int, dx as int, dy as int),
{
    let n = g.cells().len();
    let w = g.width();
    let x: usize = i % w;
    proof {
        lemma_column(w as int, g@.height as int, i as int);
    }
    let row_ok: bool = dy == 0 || w < n - i;
    if !row_ok {
        return None;
    }
    let down: usize = if dy == 1 { i + w } else { i };
    if dx == -1 {
        if x == 0 {
            None
        } else {
            Some(down - 1)
        }
    } else if dx == 1 {
        if x + 1 >= w {
            None
        } else {
            Some(down + 1)
        }
    } else {
        Some(down)
    }
}

/// Whether `o` names a cell of `g` that holds air.
fn air_exec(g: &Grid, o: Option<usize>) -> (r: bool)
    requires
        g.wf(),
        o matches Some(j) ==> j < g@.cells.len(),
    ensures
        r == air_at(g@, as_int(o)),
{
    match o {
        Some(j) => g.cells()[j] == Particle::Air,
        None => false,
    }
}

/// The exec form of `target`.
fn find_target(g: &Grid, left_first: bool, i: usize) -> (r: Option<usize>)
    requires
        g.wf(),
        i < g@.cells.len(),
    ensures
        as_int(r) == target(g@, left_first, i as int),
        r matches Some(j) ==> j < g@.cells.len() && j != i,
{
    let d: i8 = if left_first { -1 } else { 1 };
    proof {
        lemma_neighbour_in_grid(g@, i as int, 0, 1);
        lemma_neighbour_in_grid(g@, i as int, d as int, 1);
        lemma_neighbour_in_grid(g@, i as int, -d as int, 1);
        lemma_neighbour_in_grid(g@, i as int, d as int, 0);
        lemma_neighbour_in_grid(g@, i as int, -d as int, 0);
    }
    let below = neighbour_exec(g, i, 0, 1);
    let diag1 = neighbour_exec(g, i, d, 1);
    let diag2 = neighbour_exec(g, i, -d, 1);
    match g.cells()[i] {
        Particle::Sand => {
            let falls = match below {
                Some(b) => g.cells()[b] == Particle::Air || g.cells()[b] == Particle::Water,
                None => false,
            };
            if falls {
                below
            } else if air_exec(g, diag1) {
                diag1
            } else if air_exec(g, diag2) {
                diag2
            } else {
                None
            }
        },
        Particle::Water => {
            if air_exec(g, below) {
                below
            } else if air_exec(g, diag1) {
                diag1
            } else if air_exec(g, diag2) {
                diag2
            } else {
                let side1 = neighbour_exec(g, i, d, 0);
                let side2 = neighbour_exec(g, i, -d, 0);
                if air_exec(g, side1) {
                    side1
                } else if air_exec(g, side2) {
                    side2
                } else {
                    None
                }
            }
        },
        _ => None,
    }
}

/// A move always takes a mobile particle into another cell of the grid that
/// holds no bedrock.
pub proof fn lemma_target_facts(g: GridModel, left_first: bool, i: int)
    requires
        g.wf(),
        0 <= i < g.cells.len(),
    ensures
        target(g, left_first, i) matches Some(j) ==> {
            &&& 0 <= j < g.cells.len()
            &&& j != i
            &&& g.cells[i].is_mobile()
            &&& (g.cells[j] == Particle::Air || g.cells[j] == Particle::Water)
            &&& g.cells[j] != g.cells[i]
        },
{
    let d = first_side(left_first);
    lemma_neighbour_in_grid(g, i, 0, 1);
    lemma_neighbour_in_grid(g, i, d, 1);
    lemma_neighbour_in_grid(g, i, -d, 1);
    lemma_neighbour_in_grid(g, i, d, 0);
    lemma_neighbour_in_grid(g, i, -d, 0);
}

/// Swapping two entries leaves the multiset of a sequence unchanged.
pub proof fn lemma_swap_multiset(s: Seq<Particle>, i: int, j: int)
    requires
        0 <= i < s.len(),
        0 <= j < s.len(),
        i != j,
    ensures
        s.update(i, s[j]).update(j, s[i]).to_multiset() == s.to_multiset(),
{
    broadcast use vstd::seq_lib::group_to_multiset_ensures;
    broadcast use vstd::multiset::group_multiset_properties;
    let t = s.update(i, s[j]);
    assert(t[j] == s[j]);
    assert(t.to_multiset() == s.to_multiset().insert(s[j]).remove(s[i]));
    assert(t.update(j, s[i]).to_multiset() == t.to_multiset().insert(s[i]).remove(s[j]));
    assert(s.to_multiset().insert(s[j]).remove(s[i]).insert(s[i]).remove(s[j]) =~= s.to_multiset());
}

/// What holds at every point of a tick: the sequences keep their length,
/// unclaimed cells still hold what they held, a claimed cell either had
/// somewhere to go or held air or water, bedrock stays exactly where it was,
/// and the particles are only permuted.
pub proof fn lemma_scan(g: GridModel, left_first: bool, k: nat)
    requires
        g.wf(),
        k <= g.cells.len(),
    ensures
        scan(g, left_first, k).cells.len() == g.cells.len(),
        scan(g, left_first, k).claimed.len() == g.cells.len(),
        forall|i: int|
            0 <= i < g.cells.len() && !scan(g, left_first, k).claimed[i]
                ==> scan(g, left_first, k).cells[i] == g.cells[i],
        forall|i: int|
            0 <= i < g.cells.len() && scan(g, left_first, k).claimed[i] ==> (target(
                g,
                left_first,
                i,
            ) is Some || g.cells[i] == Particle::Air || g.cells[i] == Particle::Water),
        forall|i: int|
            0 <= i < g.cells.len() ==> (scan(g, left_first, k).cells[i] == Particle::Bedrock
                <==> g.cells[i] == Particle::Bedrock),
        scan(g, left_first, k).cells.to_multiset() == g.cells.to_multiset(),
    decreases k,
{
    if k > 0 {
        let i = k - 1;
        lemma_scan(g, left_first, (k - 1) as nat);
        lemma_target_facts(g, left_first, i);
        let s = scan(g, left_first, (k - 1) as nat);
        if !s.claimed[i] {
            if let Some(j) = target(g, left_first, i) {
                if !s.claimed[j] {
                    lemma_swap_multiset(s.cells, i, j);
                }
            }
        }
    }
}

/// Computes the grid one tick after `cur` into `next`, reading only `cur`
/// and writing every cell of `next`.
pub fn step(cur: &Grid, next: &mut Grid, left_first: bool)
    requires
        cur.wf(),
        old(next).wf(),
        old(next)@.same_dims(cur@),
    ensures
        final(next)@ == tick(cur@, left_first),
{
    next.copy_from(cur);
    let n = cur.cells().len();
    let mut claimed: Vec<bool> = Vec::new();
    let mut k: usize = 0;
    while k < n
        invariant
            k <= n,
            claimed@.len() == k,
            forall|j: int| 0 <= j < k ==> !claimed@[j],
        decreases n - k,
    {
        claimed.push(false);
        k = k + 1;
    }
    assert(claimed@ =~= scan(cur@, left_first, 0).claimed);
    proof {
        lemma_scan(cur@, left_first, 0);
    }
    let mut i: usize = 0;
    while i < n
        invariant
            n == cur@.cells.len(),
            cur.wf(),
            next.wf(),
            next@.same_dims(cur@),
            i <= n,
            scan(cur@, left_first, i as nat).cells == next@.cells,
            scan(cur@, left_first, i as nat).claimed == claimed@,
        decreases n - i,
    {
        proof {
            lemma_scan(cur@, left_first, i as nat);
            lemma_scan(cur@, left_first, (i + 1) as nat);
        }
        if !claimed[i] {
            match find_target(cur, left_first, i) {
                Some(j) => {
                    if !claimed[j] {
                        next.swap_cells(i, j);
                        claimed.set(i, true);
                        claimed.set(j, true);
                    }
                },
                None => {},
            }
        }
        i = i + 1;
    }
}

} // verus!
