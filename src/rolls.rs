use vstd::prelude::*;

use rand::Rng;

verus! {

/// Smallest number of steps between the end of one fruit and the next.
pub const FRUIT_COOLDOWN_MIN: u8 = 30;

/// Bound, exclusive, on the number of steps between two fruits.
pub const FRUIT_COOLDOWN_END: u8 = 180;

/// The random draws that one step of the game may consume.
#[derive(Clone, Copy, Debug)]
pub struct Rolls {
    /// Sampling picks for a new food cell.
    pub food_picks: [u64; 3],
    /// Sampling picks for a new fruit cell.
    pub fruit_picks: [u64; 3],
    /// Steps until the next fruit, should the current one end.
    pub fruit_cooldown: u8,
}

impl Rolls {
    /// Whether the draws are ones that `draw` can return.
    pub open spec fn valid(self) -> bool {
        FRUIT_COOLDOWN_MIN <= self.fruit_cooldown < FRUIT_COOLDOWN_END
    }

    /// Fresh draws from the thread's random source.
    pub fn draw() -> (r: Rolls)
        ensures
            r.valid(),
    {
        Rolls {
            food_picks: draw_picks(),
            fruit_picks: draw_picks(),
            fruit_cooldown: random_between(
                FRUIT_COOLDOWN_MIN as u64,
                FRUIT_COOLDOWN_END as u64,
            ) as u8,
        }
    }
}

/// Three sampling picks from the thread's random source.
pub fn draw_picks() -> [u64; 3] {
    [random_between(0, u64::MAX), random_between(0, u64::MAX), random_between(0, u64::MAX)]
}

/// Relies on rand's `Rng::gen_range` on `thread_rng()`: a value of the
/// half-open range `[low, high)`; it panics only on an empty range.
#[verifier::external_body]
fn random_between(low: u64, high: u64) -> (r: u64)
    requires
        low < high,
    ensures
        low <= r < high,
{
    rand::thread_rng().gen_range(low..high)
}

} // verus!
