use vstd::prelude::*;
use crate::particle::Particle;
use crate::grid::{Grid, GridError, GridModel, in_brush, in_floor};
use crate::rules::{lemma_scan, step, tick};

verus! {

/// The two grids of a double buffer, by role.
pub struct BuffersModel {
    pub current: GridModel,
    pub next: GridModel,
}

impl BuffersModel {
    pub open spec fn wf(self) -> bool {
        self.current.wf() && self.next.wf() && self.current.same_dims(self.next)
    }

    /// The same pair with the roles exchanged.
    pub open spec fn swapped(self) -> BuffersModel {
        BuffersModel { current: self.next, next: self.current }
    }
}

/// Two grids of equal size: the current one, which is read, painted and
/// shown, and the next one, which a tick writes. Swapping exchanges the
/// roles without copying any cell.
#[derive(Debug)]
pub struct DoubleBuffer {
    a: Grid,
    b: Grid,
    front_is_a: bool,
}

impl View for DoubleBuffer {
    type V = BuffersModel;

    closed spec fn view(&self) -> BuffersModel {
        if self.front_is_a {
            BuffersModel { current: self.a@, next: self.b@ }
        } else {
            BuffersModel { current: self.b@, next: self.a@ }
        }
    }
}

impl DoubleBuffer {
    pub open spec fn wf(&self) -> bool {
        self@.wf()
    }

    /// Two grids of the given size, both filled with `fill`.
    pub fn new(width: usize, height: usize, fill: Particle) -> (r: Result<DoubleBuffer, GridError>)
        requires
            width * height <= usize::MAX,
        ensures
            r is Err <==> (width == 0 || height == 0),
            r matches Err(e) ==> e == GridError::InvalidDimensions,
            r matches Ok(d) ==> {
                &&& d.wf()
                &&& d@.current.width == width
                &&& d@.current.height == height
                &&& forall|x: int, y: int|
                    d@.current.in_bounds(x, y) ==> #[trigger] d@.current.at(x, y) == fill
            },
    {
        let a = match Grid::new(width, height, fill) {
            Ok(g) => g,
            Err(e) => return Err(e),
        };
        let b = match Grid::new(width, height, fill) {
            Ok(g) => g,
            Err(e) => return Err(e),
        };
        Ok(DoubleBuffer { a, b, front_is_a: true })
    }

    /// Exchanges the roles of the two grids.
    pub fn swap(&mut self)
        ensures
            final(self)@ == old(self)@.swapped(),
    {
        self.front_is_a = !self.front_is_a;
    }

    pub fn current(&self) -> (r: &Grid)
        ensures
            r@ == self@.current,
    {
        if self.front_is_a {
            &self.a
        } else {
            &self.b
        }
    }

    /// Writes the tick of the current grid into the next one, then swaps.
    pub fn advance(&mut self, left_first: bool)
        requires
            old(self).wf(),
        ensures
            final(self).wf(),
            final(self)@.current == tick(old(self)@.current, left_first),
            final(self)@.next == old(self)@.current,
    {
        proof {
            lemma_scan(self@.current, left_first, self@.current.cells.len());
        }
        if self.front_is_a {
            step(&self.a, &mut self.b, left_first);
        } else {
            step(&self.b, &mut self.a, left_first);
        }
        self.swap();
    }

    /// Paints the current grid; the next one is not touched.
    pub fn paint(&mut self, cx: usize, cy: usize, radius: usize, p: Particle)
        requires
            old(self).wf(),
        ensures
            final(self).wf(),
            final(self)@.next == old(self)@.next,
            final(self)@.current.same_dims(old(self)@.current),
            forall|x: int, y: int|
                old(self)@.current.in_bounds(x, y) ==> #[trigger] final(self)@.current.at(x, y)
                    == if in_brush(cx as int, cy as int, radius as int, x, y) {
                    p
                } else {
                    old(self)@.current.at(x, y)
                },
    {
        if self.front_is_a {
            self.a.paint(cx, cy, radius, p);
        } else {
            self.b.paint(cx, cy, radius, p);
        }
    }

    /// Lays a bedrock floor in both grids.
    pub fn seed_floor(&mut self, thickness: usize)
        requires
            old(self).wf(),
        ensures
            final(self).wf(),
            final(self)@.current.same_dims(old(self)@.current),
            forall|x: int, y: int|
                old(self)@.current.in_bounds(x, y) ==> #[trigger] final(self)@.current.at(x, y)
                    == if in_floor(old(self)@.current.height as int, thickness as int, y) {
                    Particle::Bedrock
                } else {
                    old(self)@.current.at(x, y)
                },
    {
        self.a.seed_floor(thickness);
        self.b.seed_floor(thickness);
    }
}

/// What a simulation is: its double buffer, the particle that painting
/// lays, and the side that the next tick tries first.
pub struct SimulationModel {
    pub buffers: BuffersModel,
    pub selected: Particle,
    pub left_first: bool,
}

/// A falling-sand session: one double buffer, one paint selection, and the
/// tick parity.
#[derive(Debug)]
pub struct Simulation {
    buffers: DoubleBuffer,
    selected: Particle,
    left_first: bool,
}

impl View for Simulation {
    type V = SimulationModel;

    closed spec fn view(&self) -> SimulationModel {
        SimulationModel {
            buffers: self.buffers@,
            selected: self.selected,
            left_first: self.left_first,
        }
    }
}

impl Simulation {
    pub open spec fn wf(&self) -> bool {
        self@.buffers.wf()
    }

    /// A `width` by `height` grid of air over a bedrock floor `floor` rows
    /// thick, with sand selected for painting.
    pub fn new(width: usize, height: usize, floor: usize) -> (r: Result<Simulation, GridError>)
        requires
            width * height <= usize::MAX,
        ensures
            r is Err <==> (width == 0 || height == 0),
            r matches Err(e) ==> e == GridError::InvalidDimensions,
            r matches Ok(s) ==> {
                &&& s.wf()
                &&& s@.buffers.current.width == width
                &&& s@.buffers.current.height == height
                &&& s@.selected == Particle::Sand
                &&& s@.left_first
                &&& forall|x: int, y: int|
                    s@.buffers.current.in_bounds(x, y) ==> #[trigger] s@.buffers.current.at(x, y)
                        == if in_floor(height as int, floor as int, y) {
                        Particle::Bedrock
                    } else {
                        Particle::Air
                    }
            },
    {
        let mut buffers = match DoubleBuffer::new(width, height, Particle::Air) {
            Ok(d) => d,
            Err(e) => return Err(e),
        };
        buffers.seed_floor(floor);
        Ok(Simulation { buffers, selected: Particle::Sand, left_first: true })
    }

    /// The grid as it stands, for display.
    pub fn snapshot(&self) -> (r: &Grid)
        ensures
            r@ == self@.buffers.current,
    {
        self.buffers.current()
    }

    /// The particle at `(x, y)` of the current grid.
    pub fn get(&self, x: usize, y: usize) -> (r: Result<Particle, GridError>)
        requires
            self.wf(),
        ensures
            r is Err <==> !self@.buffers.current.in_bounds(x as int, y as int),
            r matches Err(e) ==> e == GridError::OutOfBounds,
            r matches Ok(p) ==> p == self@.buffers.current.at(x as int, y as int),
    {
        self.buffers.current().get(x, y)
    }

    /// The particle that painting lays.
    pub fn selected(&self) -> (r: Particle)
        ensures
            r == self@.selected,
    {
        self.selected
    }

    /// Chooses the particle that later paint calls lay.
    pub fn select_type(&mut self, p: Particle)
        ensures
            final(self)@ == (SimulationModel { selected: p, ..old(self)@ }),
    {
        self.selected = p;
    }

    /// Paints the selected particle over the square brush of radius `radius`
    /// centred on `(cx, cy)` in the current grid.
    pub fn paint(&mut self, cx: usize, cy: usize, radius: usize)
        requires
            old(self).wf(),
        ensures
            final(self).wf(),
            final(self)@.selected == old(self)@.selected,
            final(self)@.left_first == old(self)@.left_first,
            final(self)@.buffers.next == old(self)@.buffers.next,
            final(self)@.buffers.current.same_dims(old(self)@.buffers.current),
            forall|x: int, y: int|
                old(self)@.buffers.current.in_bounds(x, y) ==> #[trigger] final(self)@.buffers.current.at(x, y) == if in_brush(
                    cx as int,
                    cy as int,
                    radius as int,
                    x,
                    y,
                ) {
                    old(self)@.selected
                } else {
                    old(self)@.buffers.current.at(x, y)
                },
    {
        self.buffers.paint(cx, cy, radius, self.selected);
    }

    /// Runs one tick: the next grid is computed from the current one, the two
    /// swap roles, and the side tried first flips for the tick after.
    pub fn advance(&mut self)
        requires
            old(self).wf(),
        ensures
            final(self).wf(),
            final(self)@.buffers.current == tick(old(self)@.buffers.current, old(self)@.left_first),
            final(self)@.buffers.next == old(self)@.buffers.current,
            final(self)@.left_first == !old(self)@.left_first,
            final(self)@.selected == old(self)@.selected,
    {
        self.buffers.advance(self.left_first);
        self.left_first = !self.left_first;
    }
}

} // verus!
