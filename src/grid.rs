use vstd::prelude::*;
use crate::particle::Particle;

verus! {

/// What a grid is: its dimensions and its cells in row-major order, row 0 at
/// the top.
pub struct GridModel {
    pub width: nat,
    pub height: nat,
    pub cells: Seq<Particle>,
}

impl GridModel {
    pub open spec fn wf(self) -> bool {
        &&& self.width > 0
        &&& self.height > 0
        &&& self.width * self.height <= usize::MAX
        &&& self.cells.len() == self.width * self.height
    }

    pub open spec fn in_bounds(self, x: int, y: int) -> bool {
        0 <= x < self.width && 0 <= y < self.height
    }

    pub open spec fn index(self, x: int, y: int) -> int {
        y * self.width + x
    }

    pub open spec fn at(self, x: int, y: int) -> Particle {
        self.cells[self.index(x, y)]
    }

    pub open spec fn with_cells(self, cells: Seq<Particle>) -> GridModel {
        GridModel { width: self.width, height: self.height, cells }
    }

    pub open spec fn same_dims(self, o: GridModel) -> bool {
        self.width == o.width && self.height == o.height
    }
}

/// A cell's index lies inside the cell sequence exactly when its coordinates
/// are in bounds.
pub proof fn lemma_index_bounds(w: int, h: int, x: int, y: int)
    requires
        w > 0,
        h > 0,
        0 <= x < w,
        0 <= y < h,
    ensures
        0 <= y * w + x < w * h,
{
    assert(0 <= y * w + x < w * h) by (nonlinear_arith)
        requires
            w > 0,
            h > 0,
            0 <= x < w,
            0 <= y < h,
    ;
}

/// Reading coordinates back from an in-bounds index.
pub proof fn lemma_index_decode(w: int, x: int, y: int)
    requires
        w > 0,
        0 <= x < w,
        0 <= y,
    ensures
        (y * w + x) % w == x,
        (y * w + x) / w == y,
{
    vstd::arithmetic::div_mod::lemma_fundamental_div_mod_converse(y * w + x, w, y, x);
}

/// The row of an index inside the grid is a row of the grid.
pub proof fn lemma_row_bound(w: int, h: int, i: int)
    requires
        w > 0,
        0 <= i < w * h,
    ensures
        0 <= i / w < h,
{
    vstd::arithmetic::div_mod::lemma_fundamental_div_mod(i, w);
    vstd::arithmetic::div_mod::lemma_mod_pos_bound(i, w);
    let q = i / w;
    assert(0 <= q < h) by (nonlinear_arith)
        requires
            i == w * q + i % w,
            0 <= i % w < w,
            0 <= i < w * h,
            w > 0,
    ;
}

/// Whether `(x, y)` lies in the square brush of radius `r` centred on
/// `(cx, cy)`, that is within Chebyshev distance `r` of it.
pub open spec fn in_brush(cx: int, cy: int, r: int, x: int, y: int) -> bool {
    cx - r <= x <= cx + r && cy - r <= y <= cy + r
}

/// Whether row `y` of a grid `h` rows high lies in a floor `f` rows thick.
pub open spec fn in_floor(h: int, f: int, y: int) -> bool {
    y >= h - f
}

#[derive(Clone, Copy, PartialEq, Eq, Debug, Structural)]
pub enum GridError {
    /// A coordinate lies outside the grid.
    OutOfBounds,
    /// A grid was asked for with a zero width or height.
    InvalidDimensions,
}

/// A fixed-size rectangular array of particles.
#[derive(Debug)]
pub struct Grid {
    width: usize,
    height: usize,
    cells: Vec<Particle>,
}

impl View for Grid {
    type V = GridModel;

    closed spec fn view(&self) -> GridModel {
        GridModel { width: self.width as nat, height: self.height as nat, cells: self.cells@ }
    }
}

impl Grid {
    pub open spec fn wf(&self) -> bool {
        self@.wf()
    }

    /// A grid of the given size with every cell set to `fill`.
    pub fn new(width: usize, height: usize, fill: Particle) -> (r: Result<Grid, GridError>)
        requires
            width * height <= usize::MAX,
        ensures
            r is Err <==> (width == 0 || height == 0),
            r matches Err(e) ==> e == GridError::InvalidDimensions,
            r matches Ok(g) ==> {
                &&& g.wf()
                &&& g@.width == width
                &&& g@.height == height
                &&& forall|x: int, y: int| g@.in_bounds(x, y) ==> #[trigger] g@.at(x, y) == fill
            },
    {
        if width == 0 || height == 0 {
            return Err(GridError::InvalidDimensions);
        }
        let n: usize = width * height;
        let mut cells: Vec<Particle> = Vec::new();
        let mut i: usize = 0;
        while i < n
            invariant
                i <= n,
                cells@.len() == i,
                forall|j: int| 0 <= j < i ==> cells@[j] == fill,
            decreases n - i,
        {
            cells.push(fill);
            i = i + 1;
        }
        let g = Grid { width, height, cells };
        proof {
            assert forall|x: int, y: int| g@.in_bounds(x, y) implies #[trigger] g@.at(x, y) == fill by {
                lemma_index_bounds(width as int, height as int, x, y);
            }
        }
        Ok(g)
    }

    pub fn width(&self) -> (r: usize)
        ensures
            r == self@.width,
    {
        self.width
    }

    pub fn height(&self) -> (r: usize)
        ensures
            r == self@.height,
    {
        self.height
    }

    /// The cells in row-major order.
    pub fn cells(&self) -> (r: &Vec<Particle>)
        ensures
            r@ == self@.cells,
    {
        &self.cells
    }

    /// The particle at `(x, y)`.
    pub fn get(&self, x: usize, y: usize) -> (r: Result<Particle, GridError>)
        requires
            self.wf(),
        ensures
            r is Err <==> !self@.in_bounds(x as int, y as int),
            r matches Err(e) ==> e == GridError::OutOfBounds,
            r matches Ok(p) ==> p == self@.at(x as int, y as int),
    {
        if x >= self.width || y >= self.height {
            return Err(GridError::OutOfBounds);
        }
        proof {
            lemma_index_bounds(self.width as int, self.height as int, x as int, y as int);
        }
        Ok(self.cells[y * self.width + x])
    }

    /// Writes `p` at `(x, y)`, touching no other cell.
    pub fn set(&mut self, x: usize, y: usize, p: Particle) -> (r: Result<(), GridError>)
        requires
            old(self).wf(),
        ensures
            final(self).wf(),
            final(self)@.same_dims(old(self)@),
            r is Err <==> !old(self)@.in_bounds(x as int, y as int),
            r matches Err(e) ==> e == GridError::OutOfBounds,
            r is Err ==> final(self)@ == old(self)@,
            r is Ok ==> final(self)@.cells == old(self)@.cells.update(
                old(self)@.index(x as int, y as int),
                p,
            ),
    {
        if x >= self.width || y >= self.height {
            return Err(GridError::OutOfBounds);
        }
        proof {
            lemma_index_bounds(self.width as int, self.height as int, x as int, y as int);
        }
        let i: usize = y * self.width + x;
        self.cells.set(i, p);
        Ok(())
    }

    /// Overwrites every cell with the cell of `src` at the same place.
    pub fn copy_from(&mut self, src: &Grid)
        requires
            old(self).wf(),
            src.wf(),
            old(self)@.same_dims(src@),
        ensures
            final(self)@ == src@,
    {
        let n = self.cells.len();
        let mut i: usize = 0;
        while i < n
            invariant
                n == self.cells@.len(),
                n == src.cells@.len(),
                self.width == src.width,
                self.height == src.height,
                i <= n,
                forall|j: int| 0 <= j < i ==> self.cells@[j] == src.cells@[j],
            decreases n - i,
        {
            self.cells.set(i, src.cells[i]);
            i = i + 1;
        }
        assert(self.cells@ =~= src.cells@);
    }

    /// Exchanges the particles in the cells with indices `i` and `j`.
    pub(crate) fn swap_cells(&mut self, i: usize, j: usize)
        requires
            old(self).wf(),
            i < old(self)@.cells.len(),
            j < old(self)@.cells.len(),
        ensures
            final(self)@ == old(self)@.with_cells(
                old(self)@.cells.update(i as int, old(self)@.cells[j as int]).update(
                    j as int,
                    old(self)@.cells[i as int],
                ),
            ),
    {
        let a = self.cells[i];
        let b = self.cells[j];
        self.cells.set(i, b);
        self.cells.set(j, a);
    }

    /// Sets every in-bounds cell within Chebyshev distance `radius` of
    /// `(cx, cy)` to `p`, whatever it held; the rest of the brush is skipped.
    pub fn paint(&mut self, cx: usize, cy: usize, radius: usize, p: Particle)
        requires
            old(self).wf(),
        ensures
            final(self).wf(),
            final(self)@.same_dims(old(self)@),
            forall|x: int, y: int|
                old(self)@.in_bounds(x, y) ==> #[trigger] final(self)@.at(x, y) == if in_brush(
                    cx as int,
                    cy as int,
                    radius as int,
                    x,
                    y,
                ) {
                    p
                } else {
                    old(self)@.at(x, y)
                },
    {
        let ghost before = self@;
        let w = self.width;
        let n = self.cells.len();
        let mut i: usize = 0;
        while i < n
            invariant
                self.wf(),
                self@.same_dims(before),
                w == self.width,
                n == self.cells@.len(),
                i <= n,
                forall|j: int|
                    0 <= j < i ==> self.cells@[j] == if in_brush(
                        cx as int,
                        cy as int,
                        radius as int,
                        j % (w as int),
                        j / (w as int),
                    ) {
                        p
                    } else {
                        before.cells[j]
                    },
                forall|j: int| i <= j < n ==> self.cells@[j] == before.cells[j],
            decreases n - i,
        {
            let x: usize = i % w;
            let y: usize = i / w;
            let near_x: bool = if x >= cx { x - cx <= radius } else { cx - x <= radius };
            let near_y: bool = if y >= cy { y - cy <= radius } else { cy - y <= radius };
            if near_x && near_y {
                self.cells.set(i, p);
            }
            i = i + 1;
        }
        proof {
            assert forall|x: int, y: int| before.in_bounds(x, y) implies #[trigger] self@.at(x, y)
                == if in_brush(cx as int, cy as int, radius as int, x, y) {
                p
            } else {
                before.at(x, y)
            } by {
                lemma_index_bounds(w as int, self.height as int, x, y);
                lemma_index_decode(w as int, x, y);
            }
        }
    }

    /// Turns the bottom `thickness` rows (all rows, if there are fewer) into
    /// bedrock, leaving the rows above as they were.
    pub fn seed_floor(&mut self, thickness: usize)
        requires
            old(self).wf(),
        ensures
            final(self).wf(),
            final(self)@.same_dims(old(self)@),
            forall|x: int, y: int|
                old(self)@.in_bounds(x, y) ==> #[trigger] final(self)@.at(x, y) == if in_floor(
                    old(self)@.height as int,
                    thickness as int,
                    y,
                ) {
                    Particle::Bedrock
                } else {
                    old(self)@.at(x, y)
                },
    {
        let ghost before = self@;
        let w = self.width;
        let h = self.height;
        let n = self.cells.len();
        let mut i: usize = 0;
        while i < n
            invariant
                self.wf(),
                self@.same_dims(before),
                w == self.width,
                h == self.height,
                n == self.cells@.len(),
                i <= n,
                forall|j: int|
                    0 <= j < i ==> self.cells@[j] == if in_floor(
                        h as int,
                        thickness as int,
                        j / (w as int),
                    ) {
                        Particle::Bedrock
                    } else {
                        before.cells[j]
                    },
                forall|j: int| i <= j < n ==> self.cells@[j] == before.cells[j],
            decreases n - i,
        {
            let y: usize = i / w;
            proof {
                lemma_row_bound(w as int, h as int, i as int);
            }
            if thickness >= h - y {
                self.cells.set(i, Particle::Bedrock);
            }
            i = i + 1;
        }
        proof {
            assert forall|x: int, y: int| before.in_bounds(x, y) implies #[trigger] self@.at(x, y)
                == if in_floor(h as int, thickness as int, y) {
                Particle::Bedrock
            } else {
                before.at(x, y)
            } by {
                lemma_index_bounds(w as int, h as int, x, y);
                lemma_index_decode(w as int, x, y);
            }
        }
    }
}

} // verus!
