use rand::Rng;
use vstd::prelude::*;

use crate::sprite::{Sign, Tint};

verus! {

/// Relies on rand::random: a value drawn from the standard distribution of `T`
/// (uniform over all values for `u8` and `bool`). Nothing is promised of it.
pub assume_specification<T>[ rand::random::<T> ]() -> (r: T)
    where
        rand::distributions::Standard: rand::distributions::Distribution<T>,
;

/// Relies on rand::Rng::gen_range on the thread-local generator: a value drawn
/// uniformly from `[0, bound)`; it panics on an empty range, which `requires` excludes.
#[verifier::external_body]
fn random_below(bound: u64) -> (r: u64)
    requires
        bound > 0,
    ensures
        r < bound,
{
    rand::thread_rng().gen_range(0..bound)
}

/// A fresh tint: each colour channel drawn independently and uniformly.
pub fn random_tint() -> (t: Tint) {
    let r: u8 = rand::random::<u8>();
    let g: u8 = rand::random::<u8>();
    let b: u8 = rand::random::<u8>();
    Tint { r, g, b }
}

/// A fresh diagonal direction, uniformly one of the four.
pub fn random_direction() -> (d: (Sign, Sign)) {
    let dx = if rand::random::<bool>() { Sign::Pos } else { Sign::Neg };
    let dy = if rand::random::<bool>() { Sign::Pos } else { Sign::Neg };
    (dx, dy)
}

/// A position drawn uniformly from `[0, range)`, or 0 where the range is empty.
pub fn random_offset(range: u64) -> (r: u64)
    ensures
        range == 0 ==> r == 0,
        range > 0 ==> r < range,
{
    if range == 0 {
        0
    } else {
        random_below(range)
    }
}

} // verus!
