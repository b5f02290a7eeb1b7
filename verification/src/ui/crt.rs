//! The CRT layer's pseudo-random jitter: a 32-bit xorshift step.

use vstd::prelude::*;

verus! {

/// One xorshift32 step (shifts 13, 17, 5).
pub open spec fn spec_xorshift(x: u32) -> u32 {
    let a = x ^ ((x << 13u32) as u32);
    let b = a ^ (a >> 17u32);
    b ^ ((b << 5u32) as u32)
}

/// The next state of the jitter generator.
pub fn xorshift(x: u32) -> (r: u32)
    ensures
        r == spec_xorshift(x),
{
    let a = x ^ (x << 13u32);
    let b = a ^ (a >> 17u32);
    b ^ (b << 5u32)
}

/// The jitter value of a state: `0..997`.
pub fn jitter(x: u32) -> (r: u32)
    ensures
        r == x % 997,
        r < 997,
{
    x % 997
}

} // verus!
