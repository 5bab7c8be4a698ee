use vstd::prelude::*;

verus! {

/// Multiplier of the linear-congruential step.
pub const MULTIPLIER: u64 = 1103515245;

/// Increment of the linear-congruential step.
pub const INCREMENT: u64 = 12345;

/// Modulus of the linear-congruential step (2^31).
pub const MODULUS: u64 = 0x8000_0000;

/// Added to the wall-clock seconds when seeding from the clock.
pub const SEED_OFFSET: u64 = 32000;

/// The state that `Rng::default` starts from.
pub const DEFAULT_SEED: u32 = 98766677;

/// One step of the generator: `(A * s + C) mod 2^31`.
pub open spec fn lcg_next(s: u32) -> u32 {
    ((MULTIPLIER * s + INCREMENT) % (MODULUS as int)) as u32
}

/// The state reached from `s` after `n` steps.
pub open spec fn lcg_iter(s: u32, n: nat) -> u32
    decreases n,
{
    if n == 0 {
        s
    } else {
        lcg_next(lcg_iter(s, (n - 1) as nat))
    }
}

/// The state seeded from `secs` seconds since the Unix epoch.
pub open spec fn seed_of_secs(secs: u64) -> u32 {
    (((secs + SEED_OFFSET) % 0x1_0000_0000_0000_0000) % (MODULUS as int)) as u32
}

/// Relies on `std::time::SystemTime::now` and `duration_since(UNIX_EPOCH)`: the
/// whole seconds since the Unix epoch, or 0 where the clock stands before it.
/// Nothing is known of the value.
#[verifier::external_body]
fn unix_secs() -> (r: u64) {
    std::time::SystemTime::now()
        .duration_since(std::time::UNIX_EPOCH)
        .map(|d| d.as_secs())
        .unwrap_or(0)
}

/// A linear-congruential pseudo-random generator of 31-bit values.
#[derive(Clone, Copy, Debug)]
pub struct Rng {
    last: u32,
}

impl Rng {
    /// The generator's state.
    pub closed spec fn state(&self) -> u32 {
        self.last
    }

    pub fn new(seed: u32) -> (r: Rng)
        ensures
            r.state() == seed,
    {
        Rng { last: seed }
    }

    /// A generator seeded from `secs` seconds since the Unix epoch.
    pub fn from_epoch_secs(secs: u64) -> (r: Rng)
        ensures
            r.state() == seed_of_secs(secs),
            r.state() < MODULUS,
    {
        let v: u64 = secs.wrapping_add(SEED_OFFSET);
        Rng { last: (v % MODULUS) as u32 }
    }

    /// A generator seeded from the wall clock: not reproducible.
    pub fn new_seeded() -> (r: Rng)
        ensures
            r.state() < MODULUS,
            exists|secs: u64| r.state() == seed_of_secs(secs),
    {
        let secs = unix_secs();
        Rng::from_epoch_secs(secs)
    }

    /// Advances the state one step and returns the new state.
    pub fn gen(&mut self) -> (r: u32)
        ensures
            r == lcg_next(old(self).state()),
            final(self).state() == r,
            r < MODULUS,
    {
        let s: u64 = self.last as u64;
        assert(MULTIPLIER * s <= MULTIPLIER * 0xffff_ffff) by (nonlinear_arith)
            requires
                s <= 0xffff_ffff,
        ;
        let v: u64 = MULTIPLIER * s + INCREMENT;
        self.last = (v % MODULUS) as u32;
        self.last
    }
}

impl Default for Rng {
    fn default() -> (r: Rng)
        ensures
            r.state() == DEFAULT_SEED,
    {
        Rng { last: DEFAULT_SEED }
    }
}

} // verus!
