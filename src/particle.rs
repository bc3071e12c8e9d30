use vstd::prelude::*;

verus! {

/// The kinds of particle a cell can hold.
#[derive(Clone, Copy, PartialEq, Eq, Debug, Structural)]
pub enum Particle {
    /// Empty space.
    Air,
    /// An immovable solid.
    Bedrock,
    /// A granular solid that falls and piles up.
    Sand,
    /// A liquid that falls and spreads sideways.
    Water,
}

impl Default for Particle {
    fn default() -> (r: Particle)
        ensures
            r == Particle::Air,
    {
        Particle::Air
    }
}

impl Particle {
    /// The byte that encodes this particle in a pixel buffer's red channel.
    /// It is used only for presentation, never by the update rules.
    pub open spec fn color_id_spec(self) -> u8 {
        match self {
            Particle::Air => 0,
            Particle::Bedrock => 25,
            Particle::Sand => 127,
            Particle::Water => 255,
        }
    }

    pub fn get_color_id(&self) -> (r: u8)
        ensures
            r == self.color_id_spec(),
    {
        match self {
            Particle::Air => 0,
            Particle::Bedrock => 25,
            Particle::Sand => 127,
            Particle::Water => 255,
        }
    }

    /// Whether this particle moves under the update rules.
    pub open spec fn is_mobile(self) -> bool {
        self == Particle::Sand || self == Particle::Water
    }
}

/// The particle that a number key selects for painting: 1 for sand, 2 for
/// water, 3 for bedrock; other keys select nothing.
pub open spec fn particle_for_digit_spec(d: u8) -> Option<Particle> {
    if d == 1 {
        Some(Particle::Sand)
    } else if d == 2 {
        Some(Particle::Water)
    } else if d == 3 {
        Some(Particle::Bedrock)
    } else {
        None
    }
}

pub fn particle_for_digit(d: u8) -> (r: Option<Particle>)
    ensures
        r == particle_for_digit_spec(d),
{
    if d == 1 {
        Some(Particle::Sand)
    } else if d == 2 {
        Some(Particle::Water)
    } else if d == 3 {
        Some(Particle::Bedrock)
    } else {
        None
    }
}

} // verus!
