//! Random draws, from the outside crates that provide them.
use crate::path::Turning;
use vstd::prelude::*;

verus! {

/// Relies on `macroquad::rand::gen_range` (quad-rand): for an integer type it returns
/// `low + (high - low) * r` truncated, with `r` drawn in `[0, 1)`, so a number below `n`.
#[verifier::external_body]
pub(crate) fn random_below(n: u32) -> (r: u32)
    requires
        0 < n <= 1024,
    ensures
        r < n,
{
    macroquad::rand::gen_range(0u32, n)
}

/// Relies on `rand::seq::IteratorRandom::choose` over a vector's exact-size iterator with
/// the thread-local generator: `None` for an empty vector, otherwise one of its elements.
#[verifier::external_body]
pub(crate) fn choose_turning(options: Vec<Turning>) -> (r: Option<Turning>)
    ensures
        r is None <==> options@.len() == 0,
        r matches Some(t) ==> options@.contains(t),
{
    rand::seq::IteratorRandom::choose(options.into_iter(), &mut rand::thread_rng())
}

} // verus!
