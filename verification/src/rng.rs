use vstd::prelude::*;

verus! {

#[verifier::external_type_specification]
#[verifier::external_body]
pub struct ExStdRng(rand::rngs::StdRng);

/// The value a freshly seeded standard generator hands back from a bounded
/// draw, after earlier draws with the given history of bounds. The generator
/// is deterministic, so the value is a function of these arguments alone.
pub uninterp spec fn rng_draw(seed: u64, history: Seq<u64>, bound: u64) -> u64;

/// A seeded pseudo-random generator, together with the seed it was built from
/// and the bound of every draw made so far, so that contracts can name the
/// exact value each draw returns.
pub struct SeededRng {
    pub inner: rand::rngs::StdRng,
    pub seed: u64,
    pub history: Ghost<Seq<u64>>,
}

/// Relies on rand's StdRng through SeedableRng::seed_from_u64: a
/// deterministic pseudo-random generator, so one seed always yields one
/// stream of draws.
#[verifier::external_body]
fn std_rng_from_seed(seed: u64) -> rand::rngs::StdRng {
    rand::SeedableRng::seed_from_u64(seed)
}

impl SeededRng {
    pub(crate) fn new(seed: u64) -> (r: SeededRng)
        ensures
            r.seed == seed,
            r.history@ == Seq::<u64>::empty(),
    {
        SeededRng { inner: std_rng_from_seed(seed), seed, history: Ghost(Seq::empty()) }
    }

    /// Relies on rand's Rng::gen_range over 0..bound: the result lies below
    /// the bound, and on a deterministic generator it is a function of the
    /// seed and of the bounds drawn before it, nothing else.
    #[verifier::external_body]
    pub(crate) fn draw(&mut self, bound: u64) -> (r: u64)
        requires
            bound >= 1,
        ensures
            r == rng_draw(old(self).seed, old(self).history@, bound),
            r < bound,
            final(self).seed == old(self).seed,
            final(self).history@ == old(self).history@.push(bound),
    {
        rand::Rng::gen_range(&mut self.inner, 0..bound)
    }
}

/// Relies on rand::random: a fresh value from the thread-local generator;
/// nothing is promised of it.
#[verifier::external_body]
pub(crate) fn fresh_seed() -> u64 {
    rand::random()
}

/// The seed a run uses: the one the operator supplied, or a fresh one.
pub fn resolve_seed(seed: Option<u64>) -> (r: u64)
    ensures
        seed matches Some(s) ==> r == s,
{
    match seed {
        Some(s) => s,
        None => fresh_seed(),
    }
}

} // verus!
