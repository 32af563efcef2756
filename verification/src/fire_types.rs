//! The closed set of visual variants and how a configured name selects one.

use crate::random::draw_between;
use rand::rngs::StdRng;
use vstd::prelude::*;

verus! {

/// A visual variant of the fire: it selects the colour ramp and the kind of
/// embers that rise from the flames.
#[derive(Clone, Copy, Debug, PartialEq, Eq, Structural)]
pub enum FireType {
    Original,
    Blue,
    Rainbow,
    Green,
    Purple,
    White,
    WhiteHot,
    Ice,
    Toxic,
    FireAndIce,
    ChemicalFire,
    Cyberpunk,
    Aurora,
    Plasma,
    Void,
    Candy,
}

/// What a configuration asks for: one fixed variant, or a variant picked at
/// random when the grid is built.
#[derive(Clone, Copy, Debug, PartialEq, Eq, Structural)]
pub enum FireChoice {
    Fixed(FireType),
    Random,
}

/// Number of variants of [`FireType`].
pub const FIRE_TYPE_COUNT: usize = 16;

/// The variants in declaration order.
pub open spec fn fire_types() -> Seq<FireType> {
    seq![
        FireType::Original,
        FireType::Blue,
        FireType::Rainbow,
        FireType::Green,
        FireType::Purple,
        FireType::White,
        FireType::WhiteHot,
        FireType::Ice,
        FireType::Toxic,
        FireType::FireAndIce,
        FireType::ChemicalFire,
        FireType::Cyberpunk,
        FireType::Aurora,
        FireType::Plasma,
        FireType::Void,
        FireType::Candy,
    ]
}

/// The choice that a configured name stands for. Names are case sensitive;
/// any name that is not listed selects `Original`.
pub open spec fn choice_of_name(name: Seq<char>) -> FireChoice {
    if name == "Blue"@ {
        FireChoice::Fixed(FireType::Blue)
    } else if name == "Rainbow"@ {
        FireChoice::Fixed(FireType::Rainbow)
    } else if name == "Green"@ {
        FireChoice::Fixed(FireType::Green)
    } else if name == "Purple"@ {
        FireChoice::Fixed(FireType::Purple)
    } else if name == "WhiteHot"@ {
        FireChoice::Fixed(FireType::WhiteHot)
    } else if name == "White"@ {
        FireChoice::Fixed(FireType::White)
    } else if name == "Ice"@ {
        FireChoice::Fixed(FireType::Ice)
    } else if name == "Toxic"@ {
        FireChoice::Fixed(FireType::Toxic)
    } else if name == "FireAndIce"@ {
        FireChoice::Fixed(FireType::FireAndIce)
    } else if name == "ChemicalFire"@ {
        FireChoice::Fixed(FireType::ChemicalFire)
    } else if name == "Cyberpunk"@ {
        FireChoice::Fixed(FireType::Cyberpunk)
    } else if name == "Aurora"@ {
        FireChoice::Fixed(FireType::Aurora)
    } else if name == "Plasma"@ {
        FireChoice::Fixed(FireType::Plasma)
    } else if name == "Void"@ {
        FireChoice::Fixed(FireType::Void)
    } else if name == "Candy"@ {
        FireChoice::Fixed(FireType::Candy)
    } else if name == "Random"@ {
        FireChoice::Random
    } else {
        FireChoice::Fixed(FireType::Original)
    }
}

impl FireType {
    /// The variant at position `index` of the declaration order.
    pub fn nth(index: usize) -> (r: FireType)
        requires
            index < FIRE_TYPE_COUNT,
        ensures
            r == fire_types()[index as int],
    {
        if index == 0 {
            FireType::Original
        } else if index == 1 {
            FireType::Blue
        } else if index == 2 {
            FireType::Rainbow
        } else if index == 3 {
            FireType::Green
        } else if index == 4 {
            FireType::Purple
        } else if index == 5 {
            FireType::White
        } else if index == 6 {
            FireType::WhiteHot
        } else if index == 7 {
            FireType::Ice
        } else if index == 8 {
            FireType::Toxic
        } else if index == 9 {
            FireType::FireAndIce
        } else if index == 10 {
            FireType::ChemicalFire
        } else if index == 11 {
            FireType::Cyberpunk
        } else if index == 12 {
            FireType::Aurora
        } else if index == 13 {
            FireType::Plasma
        } else if index == 14 {
            FireType::Void
        } else {
            FireType::Candy
        }
    }

    /// Whether the palette of this variant changes from tick to tick. Only
    /// `Aurora` is animated; every other variant keeps the palette it was
    /// built with.
    pub open spec fn animated(self) -> bool {
        self == FireType::Aurora
    }

    /// Executable form of [`FireType::animated`].
    pub fn is_animated(self) -> (r: bool)
        ensures
            r == self.animated(),
    {
        self == FireType::Aurora
    }

    /// Whether the bottom row is seeded cell by cell at random, rather than
    /// with the hottest level throughout.
    pub open spec fn varied_base(self) -> bool {
        self == FireType::Candy
    }
}

impl FireChoice {
    /// Reads a configured name. An absent name, like an unknown one, selects
    /// `Original`.
    pub fn from_name(name: Option<&str>) -> (r: FireChoice)
        ensures
            r == match name {
                Some(n) => choice_of_name(n@),
                None => FireChoice::Fixed(FireType::Original),
            },
    {
        match name {
            None => FireChoice::Fixed(FireType::Original),
            Some(text) => {
                let n = text.to_string();
                if n == "Blue".to_string() {
                    FireChoice::Fixed(FireType::Blue)
                } else if n == "Rainbow".to_string() {
                    FireChoice::Fixed(FireType::Rainbow)
                } else if n == "Green".to_string() {
                    FireChoice::Fixed(FireType::Green)
                } else if n == "Purple".to_string() {
                    FireChoice::Fixed(FireType::Purple)
                } else if n == "WhiteHot".to_string() {
                    FireChoice::Fixed(FireType::WhiteHot)
                } else if n == "White".to_string() {
                    FireChoice::Fixed(FireType::White)
                } else if n == "Ice".to_string() {
                    FireChoice::Fixed(FireType::Ice)
                } else if n == "Toxic".to_string() {
                    FireChoice::Fixed(FireType::Toxic)
                } else if n == "FireAndIce".to_string() {
                    FireChoice::Fixed(FireType::FireAndIce)
                } else if n == "ChemicalFire".to_string() {
                    FireChoice::Fixed(FireType::ChemicalFire)
                } else if n == "Cyberpunk".to_string() {
                    FireChoice::Fixed(FireType::Cyberpunk)
                } else if n == "Aurora".to_string() {
                    FireChoice::Fixed(FireType::Aurora)
                } else if n == "Plasma".to_string() {
                    FireChoice::Fixed(FireType::Plasma)
                } else if n == "Void".to_string() {
                    FireChoice::Fixed(FireType::Void)
                } else if n == "Candy".to_string() {
                    FireChoice::Fixed(FireType::Candy)
                } else if n == "Random".to_string() {
                    FireChoice::Random
                } else {
                    FireChoice::Fixed(FireType::Original)
                }
            },
        }
    }

    /// Settles the choice: a fixed variant stands, and `Random` becomes the
    /// variant at position `pick`.
    pub fn resolve(self, pick: usize) -> (r: FireType)
        requires
            pick < FIRE_TYPE_COUNT,
        ensures
            r == match self {
                FireChoice::Fixed(t) => t,
                FireChoice::Random => fire_types()[pick as int],
            },
    {
        match self {
            FireChoice::Fixed(t) => t,
            FireChoice::Random => FireType::nth(pick),
        }
    }

    /// Settles the choice, drawing a variant where the choice is `Random`.
    /// Each variant is as likely as any other. A fixed variant stands and
    /// nothing is drawn.
    pub fn settle(self, rng: &mut StdRng) -> (r: FireType)
        ensures
            self matches FireChoice::Fixed(t) ==> r == t,
    {
        match self {
            FireChoice::Fixed(t) => t,
            FireChoice::Random => {
                let pick = draw_between(rng, 0, FIRE_TYPE_COUNT);
                self.resolve(pick)
            },
        }
    }
}

} // verus!
