use vstd::prelude::*;

verus! {

#[verifier::external_type_specification]
#[verifier::external_body]
pub struct ExRandomNumberGenerator(bracket_lib::prelude::RandomNumberGenerator);

/// Relies on bracket_lib's `RandomNumberGenerator::range`, which draws a value
/// uniformly from `[min, max)` and panics on an empty range. Nothing more is
/// assumed of the draw: callers must hold for every outcome in the range.
#[verifier::external_body]
pub(crate) fn rng_range(rng: &mut bracket_lib::prelude::RandomNumberGenerator, min: i32, max: i32) -> (r: i32)
    requires
        min < max,
    ensures
        min <= r < max,
{
    rng.range(min, max)
}

/// Draws `n` values from `[min, max)`, in draw order.
pub fn draw_stream(rng: &mut bracket_lib::prelude::RandomNumberGenerator, n: usize, min: i32, max: i32) -> (v: Vec<i32>)
    requires
        min < max,
    ensures
        v@.len() == n,
        forall|i: int| 0 <= i < n ==> min <= #[trigger] v@[i] < max,
{
    let mut v: Vec<i32> = Vec::new();
    let mut i: usize = 0;
    while i < n
        invariant
            min < max,
            i <= n,
            v@.len() == i,
            forall|j: int| 0 <= j < i ==> min <= #[trigger] v@[j] < max,
        decreases n - i,
    {
        v.push(rng_range(rng, min, max));
        i += 1;
    }
    v
}

} // verus!
