use falling_sand::grid::{Grid, GridError};
use falling_sand::particle::{particle_for_digit, Particle};
use falling_sand::presentation::encode_pixels;
use falling_sand::rules::step;
use falling_sand::simulation::{DoubleBuffer, Simulation};

fn count(g: &Grid, p: Particle) -> usize {
    g.cells().iter().filter(|c| **c == p).count()
}

fn find(g: &Grid, p: Particle) -> Vec<(usize, usize)> {
    let mut out = Vec::new();
    for y in 0..g.height() {
        for x in 0..g.width() {
            if g.get(x, y).unwrap() == p {
                out.push((x, y));
            }
        }
    }
    out
}

#[test]
fn new_grid_is_all_air() {
    let g = Grid::new(7, 5, Particle::Air).unwrap();
    for y in 0..5 {
        for x in 0..7 {
            assert_eq!(g.get(x, y), Ok(Particle::Air));
        }
    }
    let s = Simulation::new(4, 3, 0).unwrap();
    assert_eq!(count(s.snapshot(), Particle::Air), 12);
}

#[test]
fn zero_dimensions_are_rejected() {
    assert_eq!(Grid::new(0, 5, Particle::Air).err(), Some(GridError::InvalidDimensions));
    assert_eq!(Grid::new(5, 0, Particle::Air).err(), Some(GridError::InvalidDimensions));
    assert!(Simulation::new(0, 0, 1).is_err());
    assert!(DoubleBuffer::new(3, 0, Particle::Air).is_err());
}

#[test]
fn out_of_bounds_access_is_an_error() {
    let mut g = Grid::new(3, 2, Particle::Air).unwrap();
    assert_eq!(g.get(3, 0), Err(GridError::OutOfBounds));
    assert_eq!(g.get(0, 2), Err(GridError::OutOfBounds));
    assert_eq!(g.set(5, 5, Particle::Sand), Err(GridError::OutOfBounds));
    assert_eq!(count(&g, Particle::Sand), 0);
    assert_eq!(g.set(2, 1, Particle::Sand), Ok(()));
    assert_eq!(g.get(2, 1), Ok(Particle::Sand));
    assert_eq!(count(&g, Particle::Sand), 1);
}

#[test]
fn floor_fills_the_bottom_rows() {
    let s = Simulation::new(6, 8, 3).unwrap();
    for y in 0..8 {
        for x in 0..6 {
            let want = if y >= 5 { Particle::Bedrock } else { Particle::Air };
            assert_eq!(s.get(x, y), Ok(want));
        }
    }
    let all = Simulation::new(2, 2, 9).unwrap();
    assert_eq!(count(all.snapshot(), Particle::Bedrock), 4);
}

#[test]
fn swapping_twice_restores_roles() {
    let mut d = DoubleBuffer::new(2, 2, Particle::Air).unwrap();
    d.paint(0, 0, 0, Particle::Sand);
    assert_eq!(d.current().get(0, 0), Ok(Particle::Sand));
    d.swap();
    assert_eq!(d.current().get(0, 0), Ok(Particle::Air));
    d.swap();
    assert_eq!(d.current().get(0, 0), Ok(Particle::Sand));
}

#[test]
fn bedrock_never_moves() {
    let mut s = Simulation::new(5, 5, 1).unwrap();
    s.select_type(Particle::Bedrock);
    s.paint(2, 1, 0);
    s.select_type(Particle::Water);
    s.paint(2, 0, 0);
    s.select_type(Particle::Sand);
    s.paint(1, 1, 0);
    let before = find(s.snapshot(), Particle::Bedrock);
    for _ in 0..12 {
        s.advance();
        assert_eq!(find(s.snapshot(), Particle::Bedrock), before);
    }
}

#[test]
fn single_sand_falls_one_row_per_tick() {
    let mut s = Simulation::new(3, 6, 1).unwrap();
    s.paint(1, 0, 0);
    for t in 1..=4 {
        s.advance();
        assert_eq!(find(s.snapshot(), Particle::Sand), vec![(1, t)]);
    }
    for _ in 0..5 {
        s.advance();
        assert_eq!(find(s.snapshot(), Particle::Sand), vec![(1, 4)]);
    }
}

#[test]
fn sand_stops_on_other_sand() {
    let mut s = Simulation::new(1, 5, 0).unwrap();
    s.paint(0, 4, 0);
    s.paint(0, 0, 0);
    for _ in 0..6 {
        s.advance();
    }
    assert_eq!(find(s.snapshot(), Particle::Sand), vec![(0, 3), (0, 4)]);
}

#[test]
fn brush_covers_chebyshev_square_and_clips() {
    let mut g = Grid::new(6, 6, Particle::Air).unwrap();
    g.paint(1, 1, 2, Particle::Water);
    for y in 0..6 {
        for x in 0..6 {
            let inside = x <= 3 && y <= 3;
            let want = if inside { Particle::Water } else { Particle::Air };
            assert_eq!(g.get(x, y), Ok(want));
        }
    }
    let mut h = Grid::new(4, 4, Particle::Bedrock).unwrap();
    h.paint(100, 100, 1, Particle::Sand);
    assert_eq!(count(&h, Particle::Bedrock), 16);
    h.paint(3, 3, 0, Particle::Sand);
    assert_eq!(find(&h, Particle::Sand), vec![(3, 3)]);
}

#[test]
fn paint_is_idempotent_and_leaves_next_alone() {
    let mut d = DoubleBuffer::new(5, 5, Particle::Air).unwrap();
    d.paint(2, 2, 1, Particle::Sand);
    d.paint(2, 2, 1, Particle::Sand);
    assert_eq!(count(d.current(), Particle::Sand), 9);
    d.swap();
    assert_eq!(count(d.current(), Particle::Sand), 0);
}

#[test]
fn particle_counts_are_conserved() {
    let mut s = Simulation::new(8, 8, 2).unwrap();
    s.paint(2, 1, 1);
    s.select_type(Particle::Water);
    s.paint(5, 2, 1);
    s.paint(3, 0, 0);
    let g = s.snapshot();
    let kinds = [Particle::Air, Particle::Bedrock, Particle::Sand, Particle::Water];
    let before: Vec<usize> = kinds.iter().map(|p| count(g, *p)).collect();
    for _ in 0..20 {
        s.advance();
        let now: Vec<usize> = kinds.iter().map(|p| count(s.snapshot(), *p)).collect();
        assert_eq!(now, before);
        assert_eq!(s.snapshot().cells().len(), 64);
    }
}

#[test]
fn sand_settles_on_two_row_floor() {
    let mut s = Simulation::new(10, 10, 2).unwrap();
    s.select_type(Particle::Sand);
    s.paint(5, 0, 0);
    for _ in 0..7 {
        s.advance();
    }
    assert_eq!(find(s.snapshot(), Particle::Sand), vec![(5, 7)]);
    assert_eq!(s.get(5, 8), Ok(Particle::Bedrock));
}

#[test]
fn painted_water_never_enters_bedrock() {
    let mut s = Simulation::new(10, 10, 2).unwrap();
    let bedrock = find(s.snapshot(), Particle::Bedrock);
    s.select_type(Particle::Water);
    s.paint(4, 6, 1);
    s.advance();
    for (x, y) in find(s.snapshot(), Particle::Water) {
        assert!(y < 8, "water at ({}, {})", x, y);
    }
    assert_eq!(find(s.snapshot(), Particle::Bedrock), bedrock);
    assert_eq!(count(s.snapshot(), Particle::Water), 9);
}

#[test]
fn sand_sinks_through_water() {
    let mut g = Grid::new(1, 2, Particle::Air).unwrap();
    g.set(0, 0, Particle::Sand).unwrap();
    g.set(0, 1, Particle::Water).unwrap();
    let mut next = Grid::new(1, 2, Particle::Air).unwrap();
    step(&g, &mut next, true);
    assert_eq!(next.get(0, 0), Ok(Particle::Water));
    assert_eq!(next.get(0, 1), Ok(Particle::Sand));
}

#[test]
fn sand_slides_diagonally_with_alternating_preference() {
    let mut g = Grid::new(3, 2, Particle::Air).unwrap();
    g.set(1, 0, Particle::Sand).unwrap();
    g.set(1, 1, Particle::Bedrock).unwrap();
    let mut next = Grid::new(3, 2, Particle::Air).unwrap();
    step(&g, &mut next, true);
    assert_eq!(find(&next, Particle::Sand), vec![(0, 1)]);
    step(&g, &mut next, false);
    assert_eq!(find(&next, Particle::Sand), vec![(2, 1)]);
}

#[test]
fn water_spreads_sideways_when_blocked() {
    let mut g = Grid::new(3, 2, Particle::Bedrock).unwrap();
    g.set(1, 0, Particle::Water).unwrap();
    g.set(0, 0, Particle::Air).unwrap();
    g.set(2, 0, Particle::Air).unwrap();
    let mut next = Grid::new(3, 2, Particle::Air).unwrap();
    step(&g, &mut next, true);
    assert_eq!(find(&next, Particle::Water), vec![(0, 0)]);
    step(&g, &mut next, false);
    assert_eq!(find(&next, Particle::Water), vec![(2, 0)]);
    let mut sand = Grid::new(3, 2, Particle::Bedrock).unwrap();
    sand.set(1, 0, Particle::Sand).unwrap();
    sand.set(0, 0, Particle::Air).unwrap();
    step(&sand, &mut next, true);
    assert_eq!(find(&next, Particle::Sand), vec![(1, 0)]);
}

#[test]
fn a_cell_receives_at_most_one_particle() {
    // Both grains want the air cell between them; the first in scan order wins.
    let mut g = Grid::new(3, 2, Particle::Bedrock).unwrap();
    g.set(0, 0, Particle::Sand).unwrap();
    g.set(2, 0, Particle::Sand).unwrap();
    g.set(1, 0, Particle::Air).unwrap();
    g.set(1, 1, Particle::Air).unwrap();
    let mut next = Grid::new(3, 2, Particle::Air).unwrap();
    step(&g, &mut next, true);
    assert_eq!(find(&next, Particle::Sand), vec![(2, 0), (1, 1)]);
    assert_eq!(count(&next, Particle::Air), 2);
}

#[test]
fn advance_alternates_sides() {
    let mut s = Simulation::new(3, 3, 1).unwrap();
    s.select_type(Particle::Bedrock);
    s.paint(1, 1, 0);
    s.select_type(Particle::Sand);
    s.paint(1, 0, 0);
    s.advance();
    assert_eq!(find(s.snapshot(), Particle::Sand), vec![(0, 1)]);
    let mut t = Simulation::new(3, 3, 1).unwrap();
    t.advance();
    t.select_type(Particle::Bedrock);
    t.paint(1, 1, 0);
    t.select_type(Particle::Sand);
    t.paint(1, 0, 0);
    t.advance();
    assert_eq!(find(t.snapshot(), Particle::Sand), vec![(2, 1)]);
}

#[test]
fn selection_from_digits() {
    assert_eq!(particle_for_digit(1), Some(Particle::Sand));
    assert_eq!(particle_for_digit(2), Some(Particle::Water));
    assert_eq!(particle_for_digit(3), Some(Particle::Bedrock));
    assert_eq!(particle_for_digit(0), None);
    assert_eq!(particle_for_digit(4), None);
    let mut s = Simulation::new(2, 2, 0).unwrap();
    assert_eq!(s.selected(), Particle::Sand);
    s.select_type(Particle::Water);
    assert_eq!(s.selected(), Particle::Water);
    assert_eq!(Particle::default(), Particle::Air);
}

#[test]
fn color_ids_and_pixels() {
    assert_eq!(Particle::Air.get_color_id(), 0);
    assert_eq!(Particle::Bedrock.get_color_id(), 25);
    assert_eq!(Particle::Sand.get_color_id(), 127);
    assert_eq!(Particle::Water.get_color_id(), 255);
    let mut g = Grid::new(2, 1, Particle::Air).unwrap();
    g.set(1, 0, Particle::Water).unwrap();
    assert_eq!(encode_pixels(&g), vec![0, 0, 0, 0, 255, 0, 0, 0]);
}
