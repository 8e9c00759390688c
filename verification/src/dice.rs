use vstd::prelude::*;

verus! {

/// Calls `macroquad::rand::gen_range` on `i32`. For `0 <= low < high <= 1024`
/// the generator scales a 32-bit draw into `[low, high)` in `f64` and
/// truncates, so the result lies in `[low, high)`. Which value comes out
/// depends on the generator's hidden global state, so nothing more is stated.
#[verifier::external_body]
pub(crate) fn roll(low: i32, high: i32) -> (r: i32)
    requires
        0 <= low < high <= 1024,
    ensures
        low <= r < high,
{
    macroquad::rand::gen_range(low, high)
}

} // verus!
