//! Embers: short-lived points of light that rise from the base of the fire.
//!
//! A particle is born on the row just above the base. Tick by tick it climbs
//! one row while drifting sideways, and paints a fading level into the cell it
//! has come to. It disappears when its life has run out or it has reached the
//! top row.

use crate::fire_types::FireType;
use crate::grid::lemma_cell_places;
use crate::random::{draw_between, draw_ratio};
use rand::rngs::StdRng;
use vstd::prelude::*;

verus! {

/// One ember. `x` and `y` are its cell, `life` the ticks it has left and
/// `color_idx` the palette level it was born with.
#[derive(Clone, Copy, Debug, PartialEq, Eq, Structural)]
pub struct Particle {
    pub x: usize,
    pub y: usize,
    pub life: u8,
    pub color_idx: u8,
}

/// Every life that a newborn particle can have is below this bound.
pub const MAX_LIFE: u8 = 36;

/// Odds of the trial that decides, once per tick, whether a particle is born.
pub const SPAWN_ODDS: (u32, u32) = (3, 20);

/// The level that a particle paints: its colour scaled by `life / 30`,
/// rounded down, never below 1 and never above a byte.
pub open spec fn fade_level(life: u8, color_idx: u8) -> u8 {
    let scaled = (life as int * color_idx as int) / 30;
    if scaled < 1 {
        1u8
    } else if scaled > 255 {
        255u8
    } else {
        scaled as u8
    }
}

/// The odds of the coin that a variant flips when a particle is born, for the
/// variants whose embers come in two kinds.
pub open spec fn coin_odds_of(fire_type: FireType) -> Option<(u32, u32)> {
    match fire_type {
        FireType::FireAndIce | FireType::Cyberpunk => Some((1u32, 2u32)),
        FireType::Plasma => Some((3u32, 10u32)),
        FireType::Void => Some((4u32, 5u32)),
        _ => None,
    }
}

/// The half-open range of colour levels from which a newborn particle draws,
/// given the outcome of the variant's coin. A range of one level is a fixed
/// colour.
pub open spec fn color_span_of(fire_type: FireType, palette_len: int, coin: bool) -> (int, int) {
    match fire_type {
        FireType::Original | FireType::WhiteHot | FireType::White => (
            palette_len - 1,
            palette_len,
        ),
        FireType::Blue | FireType::Ice | FireType::ChemicalFire => (
            palette_len * 7 / 10,
            palette_len * 7 / 10 + 1,
        ),
        FireType::Green | FireType::Toxic => (palette_len * 6 / 10, palette_len * 6 / 10 + 1),
        FireType::Purple => (palette_len * 8 / 10, palette_len * 8 / 10 + 1),
        FireType::Rainbow | FireType::Candy => (palette_len / 2, palette_len),
        FireType::FireAndIce | FireType::Cyberpunk => if coin {
            (palette_len * 85 / 100, palette_len * 85 / 100 + 1)
        } else {
            (palette_len * 15 / 100, palette_len * 15 / 100 + 1)
        },
        FireType::Aurora => (palette_len / 4, palette_len * 3 / 4),
        FireType::Plasma => if coin {
            (palette_len - 1, palette_len)
        } else {
            (palette_len / 3, palette_len)
        },
        FireType::Void => if coin {
            (0, 1)
        } else {
            (palette_len * 4 / 10, palette_len * 4 / 10 + 1)
        },
    }
}

/// The half-open range of lives from which a newborn particle draws, given
/// the outcome of the variant's coin.
pub open spec fn life_span_of(fire_type: FireType, coin: bool) -> (int, int) {
    match fire_type {
        FireType::Original | FireType::WhiteHot | FireType::White => (10, 30),
        FireType::Blue | FireType::Ice => (14, 32),
        FireType::Green | FireType::Toxic | FireType::Purple => (12, 28),
        FireType::Rainbow | FireType::Candy | FireType::ChemicalFire => (10, 30),
        FireType::FireAndIce => if coin {
            (10, 28)
        } else {
            (14, 32)
        },
        FireType::Cyberpunk | FireType::Plasma => (10, 28),
        FireType::Aurora => (16, 36),
        FireType::Void => (18, 36),
    }
}

/// Whether a colour and a life are what a birth can give under one outcome
/// of the coin.
pub open spec fn born_under(
    fire_type: FireType,
    palette_len: int,
    coin: bool,
    color_idx: u8,
    life: u8,
) -> bool {
    let colors = color_span_of(fire_type, palette_len, coin);
    let lives = life_span_of(fire_type, coin);
    &&& colors.0 <= color_idx < colors.1
    &&& lives.0 <= life < lives.1
}

/// Whether a colour and a life are what a birth can give for this variant.
/// A variant without a coin is described by the outcome `false`.
pub open spec fn spawnable(fire_type: FireType, palette_len: int, color_idx: u8, life: u8) -> bool {
    ||| born_under(fire_type, palette_len, false, color_idx, life)
    ||| (coin_odds_of(fire_type) is Some && born_under(fire_type, palette_len, true, color_idx, life))
}

/// Whether `p` is a particle as it is born on a grid of the given size: in
/// any column of the row just above the base, with a colour and a life of
/// its variant.
pub open spec fn newborn(
    p: Particle,
    fire_type: FireType,
    palette_len: int,
    width: int,
    height: int,
) -> bool {
    &&& p.x < width
    &&& p.y == height - 2
    &&& spawnable(fire_type, palette_len, p.color_idx, p.life)
}

/// The grid after one particle has moved and painted: a particle that is
/// alive paints the cell it moves to, if the grid has that cell, with the
/// level of the life it had before the move.
pub open spec fn painted(grid: Seq<u8>, p: Particle, drift: int, width: int) -> Seq<u8> {
    let moved = p.aged(drift, width);
    let cell = moved.y * width + moved.x;
    if p.alive() && cell < grid.len() {
        grid.update(cell, p.fade())
    } else {
        grid
    }
}

/// The grid after the particles have moved and painted in order, the last
/// one on top. `drifts` holds one entry per particle; the entry of a particle
/// that is not alive is not used.
pub open spec fn painted_all(
    grid: Seq<u8>,
    particles: Seq<Particle>,
    drifts: Seq<int>,
    width: int,
) -> Seq<u8>
    decreases particles.len(),
{
    if particles.len() == 0 {
        grid
    } else {
        painted(
            painted_all(grid, particles.drop_last(), drifts.drop_last(), width),
            particles.last(),
            drifts.last(),
            width,
        )
    }
}

/// The particles after one tick: those that were alive, each one aged with
/// its own drift, in their old order. `drifts` holds one entry per particle of
/// the input; the entry of a particle that was not alive is not used.
pub open spec fn aged_all(particles: Seq<Particle>, drifts: Seq<int>, width: int) -> Seq<Particle>
    decreases particles.len(),
{
    if particles.len() == 0 {
        Seq::empty()
    } else {
        let before = aged_all(particles.drop_last(), drifts.drop_last(), width);
        if particles.last().alive() {
            before.push(particles.last().aged(drifts.last(), width))
        } else {
            before
        }
    }
}

/// Whether `drifts` holds one sideways step for each of `count` particles.
/// A step is 0 (one column left), 1 (stay) or 2 (one column right).
pub open spec fn drifts_for(drifts: Seq<int>, count: nat) -> bool {
    &&& drifts.len() == count
    &&& forall|i: int| 0 <= i < drifts.len() ==> 0 <= #[trigger] drifts[i] <= 2
}

/// Whether the particles stand in the order of their birth, each with no more
/// life than its place allows: the life of a particle and the number of
/// particles from it to the end of the list together stay within `limit`.
/// Such a list has at most `limit` particles.
pub open spec fn staggered(particles: Seq<Particle>, limit: int) -> bool {
    forall|i: int|
        0 <= i < particles.len() ==> (#[trigger] particles[i]).life + (particles.len() - i)
            <= limit
}

impl Particle {
    /// A particle is alive while it has life left and is below the top row.
    pub open spec fn alive(self) -> bool {
        self.life > 0 && self.y > 0
    }

    /// The level that the particle paints now.
    pub open spec fn fade(self) -> u8 {
        fade_level(self.life, self.color_idx)
    }

    /// The particle one tick later: one row up, one tick older, and moved by
    /// `drift - 1` columns but kept inside the grid.
    pub open spec fn aged(self, drift: int, width: int) -> Particle {
        let moved = self.x + drift - 1;
        let column = if moved < 0 {
            0
        } else if moved > width - 1 {
            width - 1
        } else {
            moved
        };
        Particle {
            x: column as usize,
            y: (self.y - 1) as usize,
            life: (self.life - 1) as u8,
            color_idx: self.color_idx,
        }
    }

    /// Whether the particle belongs on a grid of the given size and palette:
    /// it stands on a cell of the grid above the base row, its life is below
    /// [`MAX_LIFE`], and the level it paints is a level of the palette.
    pub open spec fn fits(self, width: int, height: int, palette_len: int) -> bool {
        &&& self.x < width
        &&& self.y + 1 < height
        &&& self.life < MAX_LIFE
        &&& self.fade() < palette_len
    }

    /// Executable form of [`Particle::alive`].
    pub fn is_alive(&self) -> (r: bool)
        ensures
            r == self.alive(),
    {
        self.life > 0 && self.y > 0
    }

    /// Computes the level that the particle paints now.
    pub fn fade_now(&self) -> (r: u8)
        ensures
            r == self.fade(),
    {
        assert(self.life as int * self.color_idx as int <= 255 * 255) by (nonlinear_arith)
            requires
                self.life <= 255,
                self.color_idx <= 255,
        ;
        let product: u32 = self.life as u32 * self.color_idx as u32;
        let scaled: u32 = product / 30;
        if scaled < 1 {
            1
        } else if scaled > 255 {
            255
        } else {
            scaled as u8
        }
    }

    /// Moves a living particle on by one tick, with the sideways step that
    /// was drawn for it.
    pub fn step(self, drift: usize, width: usize) -> (r: Particle)
        requires
            self.alive(),
            drift <= 2,
            width > 0,
        ensures
            r == self.aged(drift as int, width as int),
    {
        let column: usize = if drift == 0 {
            if self.x == 0 {
                0
            } else if self.x - 1 > width - 1 {
                width - 1
            } else {
                self.x - 1
            }
        } else if drift == 1 {
            if self.x > width - 1 {
                width - 1
            } else {
                self.x
            }
        } else {
            if self.x >= width - 1 {
                width - 1
            } else {
                self.x + 1
            }
        };
        Particle { x: column, y: self.y - 1, life: self.life - 1, color_idx: self.color_idx }
    }
}

/// The coin of a variant, if its embers come in two kinds.
pub fn coin_odds(fire_type: FireType) -> (r: Option<(u32, u32)>)
    ensures
        r == coin_odds_of(fire_type),
        r matches Some(odds) ==> 0 < odds.0 < odds.1,
{
    match fire_type {
        FireType::FireAndIce | FireType::Cyberpunk => Some((1, 2)),
        FireType::Plasma => Some((3, 10)),
        FireType::Void => Some((4, 5)),
        _ => None,
    }
}

/// The range of colour levels of a newborn particle; see [`color_span_of`].
pub fn color_span(fire_type: FireType, palette_len: usize, coin: bool) -> (r: (usize, usize))
    requires
        2 <= palette_len <= 256,
    ensures
        (r.0 as int, r.1 as int) == color_span_of(fire_type, palette_len as int, coin),
        r.0 < r.1 <= palette_len,
{
    match fire_type {
        FireType::Original | FireType::WhiteHot | FireType::White => (
            palette_len - 1,
            palette_len,
        ),
        FireType::Blue | FireType::Ice | FireType::ChemicalFire => (
            palette_len * 7 / 10,
            palette_len * 7 / 10 + 1,
        ),
        FireType::Green | FireType::Toxic => (palette_len * 6 / 10, palette_len * 6 / 10 + 1),
        FireType::Purple => (palette_len * 8 / 10, palette_len * 8 / 10 + 1),
        FireType::Rainbow | FireType::Candy => (palette_len / 2, palette_len),
        FireType::FireAndIce | FireType::Cyberpunk => if coin {
            (palette_len * 85 / 100, palette_len * 85 / 100 + 1)
        } else {
            (palette_len * 15 / 100, palette_len * 15 / 100 + 1)
        },
        FireType::Aurora => (palette_len / 4, palette_len * 3 / 4),
        FireType::Plasma => if coin {
            (palette_len - 1, palette_len)
        } else {
            (palette_len / 3, palette_len)
        },
        FireType::Void => if coin {
            (0, 1)
        } else {
            (palette_len * 4 / 10, palette_len * 4 / 10 + 1)
        },
    }
}

/// The range of lives of a newborn particle; see [`life_span_of`].
pub fn life_span(fire_type: FireType, coin: bool) -> (r: (usize, usize))
    ensures
        (r.0 as int, r.1 as int) == life_span_of(fire_type, coin),
        r.0 < r.1 <= MAX_LIFE,
{
    match fire_type {
        FireType::Original | FireType::WhiteHot | FireType::White => (10, 30),
        FireType::Blue | FireType::Ice => (14, 32),
        FireType::Green | FireType::Toxic | FireType::Purple => (12, 28),
        FireType::Rainbow | FireType::Candy | FireType::ChemicalFire => (10, 30),
        FireType::FireAndIce => if coin {
            (10, 28)
        } else {
            (14, 32)
        },
        FireType::Cyberpunk | FireType::Plasma => (10, 28),
        FireType::Aurora => (16, 36),
        FireType::Void => (18, 36),
    }
}

/// Once per tick, with the odds of [`SPAWN_ODDS`], a particle is born in a
/// random column of the row just above the base, with a colour and a life
/// drawn from the ranges of the variant. The list is either left as it was or
/// grows by that one particle at its end; see [`spawn_particle`].
pub fn maybe_spawn_particle(
    particles: &mut Vec<Particle>,
    fire_type: FireType,
    palette_len: usize,
    width: usize,
    height: usize,
    rng: &mut StdRng,
)
    requires
        2 <= palette_len <= 256,
        width > 0,
        height >= 2,
    ensures
        final(particles)@ == old(particles)@ || {
            &&& final(particles)@.len() == old(particles)@.len() + 1
            &&& final(particles)@.drop_last() == old(particles)@
            &&& newborn(
                final(particles)@.last(),
                fire_type,
                palette_len as int,
                width as int,
                height as int,
            )
        },
{
    if draw_ratio(rng, SPAWN_ODDS.0, SPAWN_ODDS.1) {
        let column = draw_between(rng, 0, width);
        let coin = match coin_odds(fire_type) {
            Some(odds) => draw_ratio(rng, odds.0, odds.1),
            None => false,
        };
        let colors = color_span(fire_type, palette_len, coin);
        let shade = if colors.1 - colors.0 > 1 {
            draw_between(rng, colors.0, colors.1)
        } else {
            colors.0
        };
        let lives = life_span(fire_type, coin);
        let life = draw_between(rng, lives.0, lives.1);
        let birth = Birth { column, coin, shade, life };
        spawn_particle(particles, fire_type, palette_len, width, height, Some(birth));
        assert(final(particles)@.drop_last() =~= old(particles)@);
    }
}

/// The draws behind one birth: the column, the outcome of the coin of the
/// variant (`false` where it has none), the colour level and the life.
#[derive(Clone, Copy, Debug, PartialEq, Eq, Structural)]
pub struct Birth {
    pub column: usize,
    pub coin: bool,
    pub shade: usize,
    pub life: usize,
}

/// Whether `birth` holds draws that a birth of this variant can make on a
/// grid of the given width: a column of the grid, an outcome of the coin that
/// the variant can have, and a colour level and a life from the ranges that
/// belong to that outcome.
pub open spec fn birth_fits(
    birth: Birth,
    fire_type: FireType,
    palette_len: int,
    width: int,
) -> bool {
    let colors = color_span_of(fire_type, palette_len, birth.coin);
    let lives = life_span_of(fire_type, birth.coin);
    &&& birth.column < width
    &&& birth.coin ==> coin_odds_of(fire_type) is Some
    &&& colors.0 <= birth.shade < colors.1
    &&& lives.0 <= birth.life < lives.1
}

/// The particle that the draws of a birth give on a grid of the given
/// height: in the drawn column of the row just above the base, with the drawn
/// colour and life.
pub open spec fn ember_of(birth: Birth, height: int) -> Particle {
    Particle {
        x: birth.column,
        y: (height - 2) as usize,
        life: birth.life as u8,
        color_idx: birth.shade as u8,
    }
}

/// The list of particles after the trial of a tick: with the particle of the
/// draws at its end if there was a birth, else as it was.
pub open spec fn with_birth(particles: Seq<Particle>, birth: Option<Birth>, height: int) -> Seq<
    Particle,
> {
    match birth {
        Some(draws) => particles.push(ember_of(draws, height)),
        None => particles,
    }
}

/// Settles the trial of a tick, given how it came out: `None` if no particle
/// is born, else the draws of the birth. The particle of the draws joins the
/// list at its end, and it is a newborn of its variant; without a birth the
/// list stays as it is.
pub fn spawn_particle(
    particles: &mut Vec<Particle>,
    fire_type: FireType,
    palette_len: usize,
    width: usize,
    height: usize,
    birth: Option<Birth>,
)
    requires
        2 <= palette_len <= 256,
        height >= 2,
        birth matches Some(draws) ==> birth_fits(draws, fire_type, palette_len as int, width as int),
    ensures
        final(particles)@ == with_birth(old(particles)@, birth, height as int),
        birth matches Some(draws) ==> newborn(
            ember_of(draws, height as int),
            fire_type,
            palette_len as int,
            width as int,
            height as int,
        ),
{
    match birth {
        Some(draws) => {
            let p = Particle {
                x: draws.column,
                y: height - 2,
                life: draws.life as u8,
                color_idx: draws.shade as u8,
            };
            assert(born_under(fire_type, palette_len as int, draws.coin, p.color_idx, p.life));
            particles.push(p);
        },
        None => {},
    }
}

/// One tick of the particles. Each particle that is alive climbs one row,
/// drifts by a random step, grows one tick older and paints the cell it has
/// come to; the others are dropped.
///
/// The grid and the particles that result are those of [`painted_all`] and
/// [`aged_all`] for the drifts that were drawn.
pub fn update_particles(
    particles: &mut Vec<Particle>,
    pixel_buffer: &mut Vec<u8>,
    width: usize,
    _height: usize,
    rng: &mut StdRng,
)
    requires
        width > 0,
    ensures
        exists|drifts: Seq<int>|
            {
                &&& drifts_for(drifts, old(particles)@.len())
                &&& final(particles)@ == #[trigger] aged_all(
                    old(particles)@,
                    drifts,
                    width as int,
                )
                &&& final(pixel_buffer)@ == painted_all(
                    old(pixel_buffer)@,
                    old(particles)@,
                    drifts,
                    width as int,
                )
            },
{
    let count = particles.len();
    let mut kept: Vec<Particle> = Vec::new();
    let ghost mut drifts: Seq<int> = Seq::empty();
    let mut i: usize = 0;
    while i < count
        invariant
            0 <= i <= count,
            count == particles@.len(),
            particles@ == old(particles)@,
            width > 0,
            drifts_for(drifts, i as nat),
            kept@ == aged_all(old(particles)@.take(i as int), drifts, width as int),
            pixel_buffer@ == painted_all(
                old(pixel_buffer)@,
                old(particles)@.take(i as int),
                drifts,
                width as int,
            ),
        decreases count - i,
    {
        let p = particles[i];
        let ghost seen = old(particles)@.take(i as int);
        let ghost next = old(particles)@.take(i + 1);
        assert(next.drop_last() =~= seen);
        assert(next.last() == p);
        if p.is_alive() {
            let drift = draw_between(rng, 0, 3);
            let moved = p.step(drift, width);
            assert(moved.y as int * width as int <= usize::MAX as int * usize::MAX as int)
                by (nonlinear_arith)
                requires
                    moved.y <= usize::MAX,
                    0 < width <= usize::MAX,
            ;
            let cell: u128 = moved.y as u128 * width as u128 + moved.x as u128;
            if cell < pixel_buffer.len() as u128 {
                pixel_buffer[cell as usize] = p.fade_now();
            }
            kept.push(moved);
            proof {
                assert(drifts.push(drift as int).drop_last() =~= drifts);
                drifts = drifts.push(drift as int);
            }
        } else {
            proof {
                assert(drifts.push(1).drop_last() =~= drifts);
                drifts = drifts.push(1);
            }
        }
        i += 1;
    }
    assert(old(particles)@.take(count as int) =~= old(particles)@);
    *particles = kept;
}

/// A newborn particle fits its grid: its life is below [`MAX_LIFE`] and the
/// level it paints is a level of the palette, never level 0.
pub proof fn lemma_newborn_fits(
    p: Particle,
    fire_type: FireType,
    palette_len: int,
    width: int,
    height: int,
)
    requires
        2 <= palette_len <= 256,
        height >= 2,
        newborn(p, fire_type, palette_len, width, height),
    ensures
        p.fits(width, height, palette_len),
        p.color_idx < palette_len,
        1 <= p.fade(),
{
    let life = p.life as int;
    let cap = if life <= 29 {
        29int
    } else if life <= 31 {
        31int
    } else {
        35int
    };
    lemma_product_cap(life, p.color_idx as int, cap);
}

/// A product is capped by the cap of one factor times the other.
proof fn lemma_product_cap(life: int, color: int, cap: int)
    by (nonlinear_arith)
    requires
        0 <= life <= cap,
        0 <= color,
    ensures
        0 <= life * color <= cap * color,
{
}

/// Ageing keeps a particle on its grid, takes it exactly one row up and one
/// tick on, and never brightens it.
pub proof fn lemma_aged_fits(p: Particle, drift: int, width: int, height: int, palette_len: int)
    requires
        p.fits(width, height, palette_len),
        p.alive(),
        0 <= drift <= 2,
        width <= usize::MAX,
    ensures
        p.aged(drift, width).fits(width, height, palette_len),
        p.aged(drift, width).y == p.y - 1,
        p.aged(drift, width).life == p.life - 1,
        p.aged(drift, width).color_idx == p.color_idx,
        1 <= p.aged(drift, width).fade() <= p.fade(),
        p.x - 1 <= p.aged(drift, width).x <= p.x + 1,
{
    let c = p.color_idx as int;
    let l = p.life as int;
    assert((l - 1) * c <= l * c && 0 <= (l - 1) * c) by (nonlinear_arith)
        requires
            0 <= c,
            1 <= l,
    ;
    assert(((l - 1) * c) / 30 <= (l * c) / 30);
}

/// The particles that a tick leaves all fit the grid, if they did before, and
/// there are no more of them than before.
pub proof fn lemma_aged_all_fit(
    particles: Seq<Particle>,
    drifts: Seq<int>,
    width: int,
    height: int,
    palette_len: int,
)
    requires
        drifts_for(drifts, particles.len()),
        width <= usize::MAX,
        forall|i: int|
            0 <= i < particles.len() ==> (#[trigger] particles[i]).fits(
                width,
                height,
                palette_len,
            ),
    ensures
        aged_all(particles, drifts, width).len() <= particles.len(),
        forall|j: int|
            0 <= j < aged_all(particles, drifts, width).len() ==> (#[trigger] aged_all(
                particles,
                drifts,
                width,
            )[j]).fits(width, height, palette_len),
    decreases particles.len(),
{
    if particles.len() > 0 {
        lemma_aged_all_fit(particles.drop_last(), drifts.drop_last(), width, height, palette_len);
        if particles.last().alive() {
            lemma_aged_fits(particles.last(), drifts.last(), width, height, palette_len);
        }
    }
}

/// Painting keeps the size of the grid and leaves the base row alone, and
/// keeps every cell a level of the palette, if the particles fit.
pub proof fn lemma_painted_all_bounded(
    grid: Seq<u8>,
    particles: Seq<Particle>,
    drifts: Seq<int>,
    width: int,
    height: int,
    palette_len: int,
)
    requires
        0 < width <= usize::MAX,
        grid.len() == width * height,
        drifts_for(drifts, particles.len()),
        forall|i: int| 0 <= i < grid.len() ==> #[trigger] grid[i] < palette_len,
        forall|i: int|
            0 <= i < particles.len() ==> (#[trigger] particles[i]).fits(
                width,
                height,
                palette_len,
            ),
    ensures
        painted_all(grid, particles, drifts, width).len() == grid.len(),
        forall|i: int|
            0 <= i < grid.len() ==> #[trigger] painted_all(grid, particles, drifts, width)[i]
                < palette_len,
        forall|i: int|
            (height - 1) * width <= i < grid.len() ==> #[trigger] painted_all(
                grid,
                particles,
                drifts,
                width,
            )[i] == grid[i],
    decreases particles.len(),
{
    if particles.len() > 0 {
        lemma_painted_all_bounded(
            grid,
            particles.drop_last(),
            drifts.drop_last(),
            width,
            height,
            palette_len,
        );
        let p = particles.last();
        assert(p.fits(width, height, palette_len));
        if p.alive() {
            lemma_aged_fits(p, drifts.last(), width, height, palette_len);
            let moved = p.aged(drifts.last(), width);
            lemma_cell_places(width, height, moved.x as int, moved.y as int, 0, height - 1);
        }
    }
}

/// Particles that are all gone after a tick have painted nothing.
pub proof fn lemma_idle_particles_paint_nothing(
    grid: Seq<u8>,
    particles: Seq<Particle>,
    drifts: Seq<int>,
    width: int,
)
    requires
        aged_all(particles, drifts, width).len() == 0,
    ensures
        painted_all(grid, particles, drifts, width) == grid,
    decreases particles.len(),
{
    if particles.len() > 0 {
        lemma_idle_particles_paint_nothing(
            grid,
            particles.drop_last(),
            drifts.drop_last(),
            width,
        );
    }
}

/// A staggered list is short: it has no more particles than its limit.
pub proof fn lemma_staggered_is_short(particles: Seq<Particle>, limit: int)
    requires
        staggered(particles, limit),
        0 <= limit,
    ensures
        particles.len() <= limit,
{
    if particles.len() > 0 {
        assert(particles[0].life + (particles.len() - 0) <= limit);
    }
}

/// A birth costs a staggered list one unit of its limit, if the newborn has
/// no more life than the old limit.
pub proof fn lemma_birth_keeps_staggered(particles: Seq<Particle>, p: Particle, limit: int)
    requires
        staggered(particles, limit),
        p.life <= limit,
    ensures
        staggered(particles.push(p), limit + 1),
{
    let grown = particles.push(p);
    assert forall|i: int| 0 <= i < grown.len() implies (#[trigger] grown[i]).life + (grown.len()
        - i) <= limit + 1 by {
        if i < particles.len() {
            assert(grown[i] == particles[i]);
        }
    }
}

/// A tick gives a staggered list one unit of its limit back: every particle
/// that stays has grown one tick older, and none has moved toward the end.
pub proof fn lemma_tick_keeps_staggered(
    particles: Seq<Particle>,
    drifts: Seq<int>,
    width: int,
    limit: int,
)
    requires
        staggered(particles, limit),
    ensures
        staggered(aged_all(particles, drifts, width), limit - 1),
    decreases particles.len(),
{
    if particles.len() > 0 {
        let earlier = particles.drop_last();
        let last = particles.last();
        assert(last.life + (particles.len() - (particles.len() - 1)) <= limit);
        assert forall|i: int| 0 <= i < earlier.len() implies (#[trigger] earlier[i]).life + (
        earlier.len() - i) <= limit - 1 by {
            assert(earlier[i] == particles[i]);
        }
        lemma_tick_keeps_staggered(earlier, drifts.drop_last(), width, limit - 1);
        let kept = aged_all(earlier, drifts.drop_last(), width);
        let after = aged_all(particles, drifts, width);
        assert forall|i: int| 0 <= i < after.len() implies (#[trigger] after[i]).life + (after.len()
            - i) <= limit - 1 by {
            if i < kept.len() {
                assert(after[i] == kept[i]);
            }
        }
    }
}

/// Whether `trace` is the course of one particle, tick by tick: every state
/// but the last is alive, and each next state is the one before it, aged with
/// some drift.
pub open spec fn is_course(trace: Seq<Particle>, width: int) -> bool {
    forall|i: int|
        0 <= i < trace.len() - 1 ==> {
            &&& (#[trigger] trace[i]).alive()
            &&& exists|drift: int| 0 <= drift <= 2 && trace[i + 1] == trace[i].aged(drift, width)
        }
}

/// The lifecycle of a particle. Along its course the row falls by exactly one
/// per tick and so does the life, so a course has no more ticks than the life
/// it began with; a particle whose life began below [`MAX_LIFE`] is gone after
/// fewer than [`MAX_LIFE`] ticks.
pub proof fn lemma_course_is_bounded(trace: Seq<Particle>, width: int)
    requires
        trace.len() > 0,
        is_course(trace, width),
    ensures
        forall|i: int|
            0 <= i < trace.len() ==> {
                &&& (#[trigger] trace[i]).y == trace[0].y - i
                &&& trace[i].life == trace[0].life - i
                &&& trace[i].color_idx == trace[0].color_idx
            },
        trace.len() - 1 <= trace[0].life,
        trace.len() - 1 <= trace[0].y,
        trace[0].life < MAX_LIFE ==> trace.len() <= MAX_LIFE,
    decreases trace.len(),
{
    if trace.len() > 1 {
        let shorter = trace.drop_last();
        assert forall|i: int| 0 <= i < shorter.len() - 1 implies {
            &&& (#[trigger] shorter[i]).alive()
            &&& exists|drift: int|
                0 <= drift <= 2 && shorter[i + 1] == shorter[i].aged(drift, width)
        } by {
            assert(trace[i].alive());
            assert(shorter[i] == trace[i] && shorter[i + 1] == trace[i + 1]);
        }
        lemma_course_is_bounded(shorter, width);
        let k = trace.len() - 2;
        assert(trace[k].alive());
        assert(shorter[k] == trace[k]);
        assert(shorter[0] == trace[0]);
        assert forall|i: int| 0 <= i < trace.len() implies {
            &&& (#[trigger] trace[i]).y == trace[0].y - i
            &&& trace[i].life == trace[0].life - i
            &&& trace[i].color_idx == trace[0].color_idx
        } by {
            if i < trace.len() - 1 {
                assert(shorter[i] == trace[i]);
            }
        }
    }
}

} // verus!
