//! The fire: a grid of heat levels with its palette and its embers, and the
//! tick that moves it on.

use crate::config::ConfigError;
use crate::fire_types::FireType;
use crate::palette::{generate_palette, is_palette_of, HOTTEST, PALETTE_LEN};
use crate::particle::{
    aged_all, drifts_for, lemma_aged_all_fit, lemma_birth_keeps_staggered,
    lemma_idle_particles_paint_nothing, lemma_newborn_fits, lemma_painted_all_bounded,
    lemma_staggered_is_short, lemma_tick_keeps_staggered, maybe_spawn_particle, newborn,
    painted_all, staggered, update_particles, Particle, MAX_LIFE,
};
use crate::random::draw_between;
use crate::spread::{
    draws_for, heat_rises, lemma_spread_bounded, lemma_spread_rises, reach_of, spread,
    spread_fire, Draw,
};
use rand::rngs::StdRng;
use vstd::prelude::*;

verus! {

/// A fire of `width` by `height` cells. `pixel_buffer` holds the heat level
/// of every cell, row by row from the top; the base of the fire is the last
/// row. `ticks` counts the ticks since the fire was built.
pub struct DoomFire {
    pub width: usize,
    pub height: usize,
    pub pixel_buffer: Vec<u8>,
    pub palette: Vec<[u8; 3]>,
    pub fire_type: FireType,
    pub particles: Vec<Particle>,
    pub ticks: u64,
}

/// Whether every level of a grid is a level of the palette.
pub open spec fn levels_in_palette(grid: Seq<u8>) -> bool {
    forall|i: int| 0 <= i < grid.len() ==> #[trigger] grid[i] < PALETTE_LEN
}

/// Whether every particle of a list fits a grid of the given size, and the
/// list is staggered as the births and ticks of a fire leave it.
pub open spec fn particles_fit(particles: Seq<Particle>, width: int, height: int) -> bool {
    &&& forall|i: int|
        0 <= i < particles.len() ==> (#[trigger] particles[i]).fits(
            width,
            height,
            PALETTE_LEN as int,
        )
    &&& staggered(particles, MAX_LIFE - 1)
}

/// Whether a grid is freshly seeded: cold everywhere but in the base row,
/// which holds the hottest level throughout or, for a variant with a varied
/// base, any levels of the upper half of the palette.
pub open spec fn is_seeded(grid: Seq<u8>, width: int, height: int, fire_type: FireType) -> bool {
    &&& grid.len() == width * height
    &&& forall|i: int| 0 <= i < (height - 1) * width ==> #[trigger] grid[i] == 0
    &&& forall|i: int|
        (height - 1) * width <= i < grid.len() ==> if fire_type.varied_base() {
            PALETTE_LEN / 2 <= #[trigger] grid[i] < PALETTE_LEN
        } else {
            grid[i] == HOTTEST
        }
}

/// The tick count after one more tick. The count stops at its largest value.
pub open spec fn next_tick(ticks: u64) -> u64 {
    if ticks < u64::MAX {
        (ticks + 1) as u64
    } else {
        ticks
    }
}

impl DoomFire {
    /// The invariant of a fire: the grid is not empty and fills the buffer,
    /// the palette is complete, every level of the grid is a level of the
    /// palette, every particle fits the grid, and the particles are
    /// staggered, so that there are fewer of them than [`MAX_LIFE`].
    pub open spec fn wf(&self) -> bool {
        &&& 0 < self.width
        &&& 0 < self.height
        &&& self.pixel_buffer@.len() == self.width * self.height
        &&& self.palette@.len() == PALETTE_LEN
        &&& levels_in_palette(self.pixel_buffer@)
        &&& particles_fit(self.particles@, self.width as int, self.height as int)
    }

    /// Whether two fires have the same size, palette and variant.
    pub open spec fn same_setup(&self, other: &DoomFire) -> bool {
        &&& self.width == other.width
        &&& self.height == other.height
        &&& self.palette@ == other.palette@
        &&& self.fire_type == other.fire_type
    }

    /// Whether this fire is `before` after a reset: the same setup and tick
    /// count, a freshly seeded grid and no particles.
    pub open spec fn reset_of(&self, before: &DoomFire) -> bool {
        &&& self.same_setup(before)
        &&& self.ticks == before.ticks
        &&& self.particles@.len() == 0
        &&& is_seeded(
            self.pixel_buffer@,
            self.width as int,
            self.height as int,
            self.fire_type,
        )
    }

    /// Whether this fire is `before` after one tick under the given wind, for
    /// the given draws of the heat pass, the particles that were born (none or
    /// one) and the sideways steps of the particles.
    ///
    /// The heat pass comes first. A newborn particle joins the list at its
    /// end. Then the particles move on and paint over the grid, the last one
    /// on top.
    pub open spec fn ticked_with(
        &self,
        before: &DoomFire,
        wind: int,
        draws: Seq<Seq<Draw>>,
        born: Seq<Particle>,
        drifts: Seq<int>,
    ) -> bool {
        let width = before.width as int;
        let height = before.height as int;
        let crowd = before.particles@ + born;
        &&& self.same_setup(before)
        &&& self.ticks == next_tick(before.ticks)
        &&& draws_for(draws, width, height)
        &&& born.len() <= 1
        &&& forall|i: int|
            0 <= i < born.len() ==> height >= 2 && newborn(
                #[trigger] born[i],
                before.fire_type,
                PALETTE_LEN as int,
                width,
                height,
            )
        &&& drifts_for(drifts, crowd.len())
        &&& self.pixel_buffer@ == painted_all(
            spread(before.pixel_buffer@, width, height, wind, draws),
            crowd,
            drifts,
            width,
        )
        &&& self.particles@ == aged_all(crowd, drifts, width)
    }

    /// Whether this fire is `before` after one tick under the given wind,
    /// whatever was drawn.
    pub open spec fn ticked(&self, before: &DoomFire, wind: int) -> bool {
        exists|draws: Seq<Seq<Draw>>, born: Seq<Particle>, drifts: Seq<int>|
            self.ticked_with(before, wind, draws, born, drifts)
    }

    /// Builds a fire of the given size with the palette of its variant, a
    /// freshly seeded grid, no particles and a tick count of zero. A grid
    /// without cells is refused, and so is one with more cells than can be
    /// addressed.
    pub fn new(
        width: usize,
        height: usize,
        fire_type: FireType,
        background_colour: Option<[u8; 3]>,
        rng: &mut StdRng,
    ) -> (r: Result<DoomFire, ConfigError>)
        ensures
            r matches Err(ConfigError::EmptyGrid) <==> width == 0 || height == 0,
            r matches Err(ConfigError::GridTooLarge) <==> width > 0 && height > 0 && width * height
                > usize::MAX,
            !(r matches Err(ConfigError::ZeroScale)),
            r matches Ok(fire) ==> {
                &&& fire.wf()
                &&& fire.width == width
                &&& fire.height == height
                &&& fire.fire_type == fire_type
                &&& is_palette_of(fire.palette@, fire_type, background_colour)
                &&& fire.particles@.len() == 0
                &&& fire.ticks == 0
                &&& is_seeded(fire.pixel_buffer@, width as int, height as int, fire_type)
            },
    {
        if width == 0 || height == 0 {
            return Err(ConfigError::EmptyGrid);
        }
        let size = match width.checked_mul(height) {
            Some(size) => size,
            None => {
                return Err(ConfigError::GridTooLarge);
            },
        };
        let mut fire = DoomFire {
            width,
            height,
            pixel_buffer: vec![0u8; size],
            palette: generate_palette(fire_type, background_colour),
            fire_type,
            particles: Vec::new(),
            ticks: 0,
        };
        fire.initialize_fire(rng);
        Ok(fire)
    }

    /// Whether the fire meets its invariant; see [`DoomFire::wf`].
    pub fn is_valid(&self) -> (r: bool)
        ensures
            r == self.wf(),
    {
        if self.width == 0 || self.height == 0 || self.palette.len() != PALETTE_LEN {
            return false;
        }
        let cells = self.pixel_buffer.len();
        match self.width.checked_mul(self.height) {
            Some(size) => {
                if cells != size {
                    return false;
                }
            },
            None => {
                return false;
            },
        }
        let mut i: usize = 0;
        while i < self.pixel_buffer.len()
            invariant
                i <= self.pixel_buffer@.len(),
                forall|k: int| 0 <= k < i ==> #[trigger] self.pixel_buffer@[k] < PALETTE_LEN,
            decreases self.pixel_buffer@.len() - i,
        {
            if self.pixel_buffer[i] as usize >= PALETTE_LEN {
                return false;
            }
            i += 1;
        }
        let count = self.particles.len();
        let mut j: usize = 0;
        while j < count
            invariant
                j <= count,
                count == self.particles@.len(),
                0 < self.height,
                forall|k: int|
                    0 <= k < j ==> (#[trigger] self.particles@[k]).fits(
                        self.width as int,
                        self.height as int,
                        PALETTE_LEN as int,
                    ),
                forall|k: int|
                    0 <= k < j ==> (#[trigger] self.particles@[k]).life + (count - k) <= MAX_LIFE
                        - 1,
            decreases count - j,
        {
            let p = self.particles[j];
            if p.x >= self.width || p.y >= self.height - 1 || p.life >= MAX_LIFE
                || p.fade_now() as usize >= PALETTE_LEN {
                return false;
            }
            if count - j >= MAX_LIFE as usize || p.life as usize + (count - j) >= MAX_LIFE as usize {
                return false;
            }
            j += 1;
        }
        true
    }

    /// Starts the fire afresh: the grid is cleared and its base row seeded
    /// again, and all particles are dropped. The base row gets the hottest
    /// level throughout, or, for a variant with a varied base, a level drawn
    /// for each cell from the upper half of the palette.
    pub fn initialize_fire(&mut self, rng: &mut StdRng)
        requires
            0 < old(self).width,
            0 < old(self).height,
            old(self).pixel_buffer@.len() == old(self).width * old(self).height,
            old(self).palette@.len() == PALETTE_LEN,
        ensures
            final(self).reset_of(old(self)),
            final(self).wf(),
    {
        let ghost w = self.width as int;
        let ghost h = self.height as int;
        let size = self.pixel_buffer.len();
        let mut i: usize = 0;
        while i < size
            invariant
                i <= size,
                size == self.pixel_buffer@.len(),
                self.same_setup(old(self)),
                self.ticks == old(self).ticks,
                forall|k: int| 0 <= k < i ==> #[trigger] self.pixel_buffer@[k] == 0,
            decreases size - i,
        {
            self.pixel_buffer[i] = 0;
            i += 1;
        }
        proof {
            assert((h - 1) * w + w == w * h) by (nonlinear_arith);
            assert(0 <= (h - 1) * w) by (nonlinear_arith)
                requires
                    1 <= h,
                    0 < w,
            ;
        }
        let base = size - self.width;
        let varied = self.fire_type == FireType::Candy;
        let mut x: usize = 0;
        while x < self.width
            invariant
                x <= self.width,
                size == self.pixel_buffer@.len(),
                size == w * h,
                base == (h - 1) * w,
                base + self.width == size,
                w == self.width,
                h == self.height,
                varied == self.fire_type.varied_base(),
                self.same_setup(old(self)),
                self.ticks == old(self).ticks,
                forall|k: int| 0 <= k < base ==> #[trigger] self.pixel_buffer@[k] == 0,
                forall|k: int|
                    base <= k < base + x ==> if varied {
                        PALETTE_LEN / 2 <= #[trigger] self.pixel_buffer@[k] < PALETTE_LEN
                    } else {
                        self.pixel_buffer@[k] == HOTTEST
                    },
            decreases self.width - x,
        {
            let level: u8 = if varied {
                draw_between(rng, PALETTE_LEN / 2, PALETTE_LEN) as u8
            } else {
                HOTTEST
            };
            self.pixel_buffer[base + x] = level;
            x += 1;
        }
        self.particles.clear();
    }

    /// Moves the fire on by one tick under the given wind, a number of
    /// columns by which all heat is shifted on its way up: the heat pass, then
    /// the birth of at most one particle, then the tick of the particles.
    ///
    /// Whatever is drawn, the base row stays as it is, and a tick that leaves no
    /// particle has painted nothing, so that heat has only risen: see
    /// [`heat_rises`].
    ///
    /// The result tells whether the palette is due for renewal, which it is
    /// after every tick of a variant with an animated palette; see
    /// [`DoomFire::set_palette`].
    pub fn update(&mut self, wind: isize, rng: &mut StdRng) -> (renew: bool)
        requires
            old(self).wf(),
        ensures
            renew == old(self).fire_type.animated(),
            final(self).wf(),
            final(self).ticked(old(self), wind as int),
            forall|i: int|
                (final(self).height - 1) * final(self).width <= i < final(self).pixel_buffer@.len()
                    ==> #[trigger] final(self).pixel_buffer@[i] == old(self).pixel_buffer@[i],
            final(self).particles@.len() == 0 ==> heat_rises(
                old(self).pixel_buffer@,
                final(self).pixel_buffer@,
                old(self).width as int,
                old(self).height as int,
                reach_of(wind as int),
            ),
            final(self).particles@.len() < MAX_LIFE,
    {
        let ghost w = self.width as int;
        let ghost h = self.height as int;
        let ghost start = self.pixel_buffer@;
        let ghost crowd_before = self.particles@;
        spread_fire(&mut self.pixel_buffer, self.width, self.height, wind, rng);
        let ghost draws = choose|draws: Seq<Seq<Draw>>|
            {
                &&& draws_for(draws, w, h)
                &&& self.pixel_buffer@ == #[trigger] spread(start, w, h, wind as int, draws)
            };
        if self.height >= 2 {
            maybe_spawn_particle(
                &mut self.particles,
                self.fire_type,
                PALETTE_LEN,
                self.width,
                self.height,
                rng,
            );
        }
        let ghost crowd = self.particles@;
        let ghost born = crowd.subrange(crowd_before.len() as int, crowd.len() as int);
        proof {
            assert(crowd =~= crowd_before + born);
            if crowd.len() > crowd_before.len() {
                assert(born[0] == crowd.last());
            }
        }
        update_particles(&mut self.particles, &mut self.pixel_buffer, self.width, self.height, rng);
        let ghost heated = spread(start, w, h, wind as int, draws);
        let ghost drifts = choose|drifts: Seq<int>|
            {
                &&& drifts_for(drifts, crowd.len())
                &&& self.particles@ == #[trigger] aged_all(crowd, drifts, w)
                &&& self.pixel_buffer@ == painted_all(heated, crowd, drifts, w)
            };
        self.ticks = self.ticks.saturating_add(1);
        proof {
            assert(self.ticked_with(old(self), wind as int, draws, born, drifts));
            lemma_tick_keeps_the_fire_sound(*old(self), *self, wind as int);
        }
        self.fire_type.is_animated()
    }

    /// Replaces the palette, as a variant with an animated palette needs
    /// after every tick. Nothing else changes.
    pub fn set_palette(&mut self, palette: Vec<[u8; 3]>)
        requires
            palette@.len() == PALETTE_LEN,
        ensures
            final(self).palette@ == palette@,
            final(self).width == old(self).width,
            final(self).height == old(self).height,
            final(self).pixel_buffer@ == old(self).pixel_buffer@,
            final(self).fire_type == old(self).fire_type,
            final(self).particles@ == old(self).particles@,
            final(self).ticks == old(self).ticks,
            old(self).wf() ==> final(self).wf(),
    {
        self.palette = palette;
    }
}

/// A tick keeps a fire sound, whatever is drawn. After a tick of a fire that
/// met its invariant, the fire meets it again: every level is a level of the
/// palette, and every particle fits the grid. There are fewer particles than
/// [`MAX_LIFE`]. The base row is as it was. And if no particle is left, none
/// has painted, so that heat has only risen: see [`heat_rises`].
pub proof fn lemma_tick_keeps_the_fire_sound(before: DoomFire, after: DoomFire, wind: int)
    requires
        before.wf(),
        after.ticked(&before, wind),
    ensures
        after.wf(),
        after.particles@.len() < MAX_LIFE,
        forall|i: int|
            (before.height - 1) * before.width <= i < before.pixel_buffer@.len()
                ==> #[trigger] after.pixel_buffer@[i] == before.pixel_buffer@[i],
        after.particles@.len() == 0 ==> heat_rises(
            before.pixel_buffer@,
            after.pixel_buffer@,
            before.width as int,
            before.height as int,
            reach_of(wind),
        ),
{
    let (draws, born, drifts) = choose|
        draws: Seq<Seq<Draw>>,
        born: Seq<Particle>,
        drifts: Seq<int>,
    | after.ticked_with(&before, wind, draws, born, drifts);
    let w = before.width as int;
    let h = before.height as int;
    let start = before.pixel_buffer@;
    let heated = spread(start, w, h, wind, draws);
    let crowd = before.particles@ + born;
    lemma_spread_bounded(start, w, h, wind, draws, PALETTE_LEN as int);
    lemma_spread_rises(start, w, h, wind, draws);
    if born.len() == 1 {
        lemma_newborn_fits(born[0], before.fire_type, PALETTE_LEN as int, w, h);
        lemma_birth_keeps_staggered(before.particles@, born[0], MAX_LIFE - 1);
        assert(crowd =~= before.particles@.push(born[0]));
    } else {
        assert(crowd =~= before.particles@);
    }
    assert forall|i: int| 0 <= i < crowd.len() implies (#[trigger] crowd[i]).fits(
        w,
        h,
        PALETTE_LEN as int,
    ) by {
        if i < before.particles@.len() {
            assert(crowd[i] == before.particles@[i]);
        }
    }
    lemma_painted_all_bounded(heated, crowd, drifts, w, h, PALETTE_LEN as int);
    lemma_aged_all_fit(crowd, drifts, w, h, PALETTE_LEN as int);
    lemma_tick_keeps_staggered(crowd, drifts, w, MAX_LIFE as int);
    lemma_staggered_is_short(after.particles@, MAX_LIFE - 1);
    if after.particles@.len() == 0 {
        lemma_idle_particles_paint_nothing(heated, crowd, drifts, w);
    }
}

/// Whether `states` is a run of a fire: each state but the first is the one
/// before it after a tick, under the wind of the same place in `winds`.
pub open spec fn is_run(states: Seq<DoomFire>, winds: Seq<int>) -> bool {
    &&& states.len() == winds.len() + 1
    &&& forall|i: int|
        0 <= i < winds.len() ==> states[i + 1].ticked(&states[i], #[trigger] winds[i])
}

/// The invariant holds at every tick of a run that starts from a fire that
/// meets it. So at every tick, under any winds and whatever is drawn, every
/// level of the grid is a level of the palette.
pub proof fn lemma_run_stays_sound(states: Seq<DoomFire>, winds: Seq<int>)
    requires
        is_run(states, winds),
        states[0].wf(),
    ensures
        forall|i: int| 0 <= i < states.len() ==> (#[trigger] states[i]).wf(),
    decreases winds.len(),
{
    if winds.len() > 0 {
        let earlier = states.drop_last();
        let calmer = winds.drop_last();
        assert forall|i: int| 0 <= i < calmer.len() implies earlier[i + 1].ticked(
            &earlier[i],
            #[trigger] calmer[i],
        ) by {
            assert(calmer[i] == winds[i]);
            assert(states[i + 1].ticked(&states[i], winds[i]));
        }
        lemma_run_stays_sound(earlier, calmer);
        let last = winds.len() - 1;
        assert(earlier[last] == states[last]);
        assert(states[last + 1].ticked(&states[last], winds[last]));
        lemma_tick_keeps_the_fire_sound(states[last], states[last + 1], winds[last]);
        assert forall|i: int| 0 <= i < states.len() implies (#[trigger] states[i]).wf() by {
            if i < earlier.len() {
                assert(earlier[i] == states[i]);
            }
        }
    }
}

/// Starting afresh twice gives what starting afresh once gives: for a variant
/// whose base is not varied, a fire that is reset again has the same grid, no
/// particles as before, and the same setup and tick count.
pub proof fn lemma_reset_is_idempotent(start: DoomFire, once: DoomFire, twice: DoomFire)
    requires
        once.reset_of(&start),
        twice.reset_of(&once),
        !start.fire_type.varied_base(),
    ensures
        twice.pixel_buffer@ == once.pixel_buffer@,
        twice.particles@ == once.particles@,
        twice.same_setup(&once),
        twice.ticks == once.ticks,
{
    assert(twice.pixel_buffer@ =~= once.pixel_buffer@);
    assert(twice.particles@ =~= once.particles@);
}

} // verus!
