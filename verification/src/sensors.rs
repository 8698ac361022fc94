//! Deterministic pseudo-random noise for the simulated sensors.
use vstd::prelude::*;
use vstd::arithmetic::div_mod::lemma_add_mod_noop;

verus! {

/// Multiplier of the linear congruential generator.
pub const LCG_MULTIPLIER: u64 = 6364136223846793005;

/// Increment of the linear congruential generator.
pub const LCG_INCREMENT: u64 = 1442695040888963407;

/// One step of the generator: `state * LCG_MULTIPLIER + LCG_INCREMENT` modulo 2^64.
pub open spec fn lcg_next(state: u64) -> u64 {
    ((state as nat * LCG_MULTIPLIER as nat + LCG_INCREMENT as nat) % 0x1_0000_0000_0000_0000nat) as u64
}

/// The 53 high bits of a generator state: the numerator of a draw in [0, 1)
/// whose denominator is 2^53.
pub open spec fn draw_bits(state: u64) -> u64 {
    state / 2048
}

/// A draw is the state with its 11 low bits dropped: 2048 times the draw is
/// within 2048 below the state, so every draw is below 2^53.
pub proof fn lemma_draw_bits_drops_low_bits(state: u64)
    ensures
        draw_bits(state) * 2048 <= state < (draw_bits(state) + 1) * 2048,
        draw_bits(state) < 0x20_0000_0000_0000,
{
}

/// The state reached from `seed` after `n` steps.
pub open spec fn lcg_iterate(seed: u64, n: nat) -> u64
    decreases n,
{
    if n == 0 {
        seed
    } else {
        lcg_next(lcg_iterate(seed, (n - 1) as nat))
    }
}

/// A small linear congruential generator; every sensor owns one, seeded so that
/// a simulation run is reproducible: the generator's state is always the seed
/// advanced by the number of draws taken so far.
#[derive(Clone, Copy)]
pub struct SimpleRng {
    state: u64,
    seed: Ghost<u64>,
    draws: Ghost<nat>,
}

impl SimpleRng {
    #[verifier::type_invariant]
    closed spec fn follows_seed(self) -> bool {
        self.state == lcg_iterate(self.seed@, self.draws@)
    }

    /// The generator's current state.
    pub closed spec fn spec_state(&self) -> u64 {
        self.state
    }

    /// The seed the generator started from.
    pub closed spec fn seed(&self) -> u64 {
        self.seed@
    }

    /// How many draws have been taken since the generator was seeded.
    pub closed spec fn draw_count(&self) -> nat {
        self.draws@
    }

    /// A generator whose state is the seed.
    pub fn new(seed: u64) -> (rng: Self)
        ensures
            rng.spec_state() == seed,
            rng.seed() == seed,
            rng.draw_count() == 0,
    {
        Self { state: seed, seed: Ghost(seed), draws: Ghost(0) }
    }

    /// Advances the generator one step and returns the 53 high bits of the new
    /// state; divided by 2^53 this is a uniform draw in [0, 1). The k-th draw
    /// after seeding is the k-th state reached from the seed, so generators
    /// seeded alike produce the same draws.
    pub fn next_bits(&mut self) -> (bits: u64)
        ensures
            final(self).spec_state() == lcg_next(old(self).spec_state()),
            bits == draw_bits(final(self).spec_state()),
            bits < 0x20_0000_0000_0000,
            final(self).seed() == old(self).seed(),
            final(self).draw_count() == old(self).draw_count() + 1,
            final(self).spec_state() == lcg_iterate(final(self).seed(), final(self).draw_count()),
            bits == draw_bits(lcg_iterate(old(self).seed(), old(self).draw_count() + 1)),
    {
        proof {
            use_type_invariant(&*self);
        }
        let old_state = self.state;
        let next = old_state.wrapping_mul(LCG_MULTIPLIER).wrapping_add(LCG_INCREMENT);
        proof {
            let m: int = 0x1_0000_0000_0000_0000int;
            let prod: int = old_state as int * LCG_MULTIPLIER as int;
            lemma_add_mod_noop(prod, LCG_INCREMENT as int, m);
            assert(LCG_INCREMENT as int % m == LCG_INCREMENT as int);
            assert((prod % m) % m == prod % m) by {
                vstd::arithmetic::div_mod::lemma_mod_twice(prod, m);
            }
            assert(next as int == (prod + LCG_INCREMENT as int) % m);
            assert(next == lcg_iterate(self.seed@, self.draws@ + 1));
        }
        *self = SimpleRng { state: next, seed: self.seed, draws: Ghost(self.draws@ + 1) };
        let bits = next >> 11;
        assert(bits == next / 2048 && bits < 0x20_0000_0000_0000) by (bit_vector)
            requires
                bits == next >> 11,
        ;
        bits
    }
}

/// Battery-level sensor; its readings carry noise drawn from its own generator.
pub struct BatterySensor {
    rng: SimpleRng,
}

impl BatterySensor {
    /// The state of the sensor's noise generator.
    pub closed spec fn noise_state(&self) -> u64 {
        self.rng.spec_state()
    }

    /// The seed of the sensor's noise generator.
    pub closed spec fn noise_seed(&self) -> u64 {
        self.rng.seed()
    }

    /// How many noise draws the sensor has taken.
    pub closed spec fn noise_draws(&self) -> nat {
        self.rng.draw_count()
    }

    /// A battery sensor whose noise generator starts from `seed`.
    pub fn new(seed: u64) -> (sensor: Self)
        ensures
            sensor.noise_state() == seed,
            sensor.noise_seed() == seed,
            sensor.noise_draws() == 0,
    {
        Self { rng: SimpleRng::new(seed) }
    }

    /// The next noise draw, as the numerator of a fraction of 2^53.
    pub fn next_noise_bits(&mut self) -> (bits: u64)
        ensures
            final(self).noise_state() == lcg_next(old(self).noise_state()),
            bits == draw_bits(final(self).noise_state()),
            bits < 0x20_0000_0000_0000,
            final(self).noise_seed() == old(self).noise_seed(),
            final(self).noise_draws() == old(self).noise_draws() + 1,
            bits == draw_bits(lcg_iterate(old(self).noise_seed(), old(self).noise_draws() + 1)),
    {
        self.rng.next_bits()
    }
}

/// Position sensor; each coordinate of a reading carries its own noise draw.
pub struct PositionSensor {
    rng: SimpleRng,
}

impl PositionSensor {
    /// The state of the sensor's noise generator.
    pub closed spec fn noise_state(&self) -> u64 {
        self.rng.spec_state()
    }

    /// The seed of the sensor's noise generator.
    pub closed spec fn noise_seed(&self) -> u64 {
        self.rng.seed()
    }

    /// How many noise draws the sensor has taken.
    pub closed spec fn noise_draws(&self) -> nat {
        self.rng.draw_count()
    }

    /// A position sensor whose noise generator starts from `seed`.
    pub fn new(seed: u64) -> (sensor: Self)
        ensures
            sensor.noise_state() == seed,
            sensor.noise_seed() == seed,
            sensor.noise_draws() == 0,
    {
        Self { rng: SimpleRng::new(seed) }
    }

    /// The next noise draw, as the numerator of a fraction of 2^53.
    pub fn next_noise_bits(&mut self) -> (bits: u64)
        ensures
            final(self).noise_state() == lcg_next(old(self).noise_state()),
            bits == draw_bits(final(self).noise_state()),
            bits < 0x20_0000_0000_0000,
            final(self).noise_seed() == old(self).noise_seed(),
            final(self).noise_draws() == old(self).noise_draws() + 1,
            bits == draw_bits(lcg_iterate(old(self).noise_seed(), old(self).noise_draws() + 1)),
    {
        self.rng.next_bits()
    }
}

} // verus!
