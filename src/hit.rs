use vstd::prelude::*;

verus! {

/// Number of ticks over which a hit fades from its full amount to zero.
pub const HIT_WINDOW: u32 = 33;

/// Decayed magnitude of a hit of `amount` observed at `last`, queried at the
/// fractional tick `num / den`: a linear ramp from `amount` down to zero over
/// `HIT_WINDOW` ticks, truncated to an integer.
pub open spec fn decayed(amount: nat, last: nat, num: nat, den: nat) -> nat
    recommends
        den > 0,
{
    let window: nat = (HIT_WINDOW * den) as nat;
    let elapsed = if num >= last * den { (num - last * den) as nat } else { 0nat };
    let remaining = if elapsed >= window { 0nat } else { (window - elapsed) as nat };
    (amount * remaining) / window
}

/// The most recent hit and the tick it was seen at.
pub struct HitDecay {
    pub amount: u32,
    pub tick: u32,
}

impl HitDecay {
    /// No hit seen yet: the magnitude is zero everywhere.
    pub fn new() -> (r: HitDecay)
        ensures
            r.amount == 0,
            r.tick == 0,
    {
        HitDecay { amount: 0, tick: 0 }
    }

    /// Remembers a hit, replacing any earlier one.
    pub fn observe_hit(&mut self, tick: u32, amount: u32)
        ensures
            final(self).amount == amount,
            final(self).tick == tick,
    {
        self.amount = amount;
        self.tick = tick;
    }

    /// Magnitude at a whole tick.
    pub fn current_magnitude(&self, tick: u32) -> (r: u32)
        ensures
            r == decayed(self.amount as nat, self.tick as nat, tick as nat, 1),
    {
        self.magnitude_at(tick as u64, 1)
    }

    /// Magnitude at the fractional tick `num / den`.
    pub fn magnitude_at(&self, num: u64, den: u64) -> (r: u32)
        requires
            den > 0,
        ensures
            r == decayed(self.amount as nat, self.tick as nat, num as nat, den as nat),
            r <= self.amount,
    {
        let window: u128 = HIT_WINDOW as u128 * den as u128;
        proof {
            assert(self.tick as u128 * den as u128 <= 0xffff_ffffu128 * 0xffff_ffff_ffff_ffffu128) by (nonlinear_arith)
                requires self.tick <= 0xffff_ffffu32, den <= 0xffff_ffff_ffff_ffffu64;
        }
        let start: u128 = self.tick as u128 * den as u128;
        let elapsed: u128 = if num as u128 >= start { num as u128 - start } else { 0 };
        let remaining: u128 = if elapsed >= window { 0 } else { window - elapsed };
        proof {
            assert(self.amount as u128 * remaining <= self.amount as u128 * window) by (nonlinear_arith)
                requires remaining <= window;
            assert(window <= 33 * 0xffff_ffff_ffff_ffffu128) by (nonlinear_arith)
                requires window == 33 * (den as u128), den <= 0xffff_ffff_ffff_ffffu64;
            assert(self.amount as u128 * window <= 0xffff_ffffu128 * (33 * 0xffff_ffff_ffff_ffffu128)) by (nonlinear_arith)
                requires window <= 33 * 0xffff_ffff_ffff_ffffu128, self.amount <= 0xffff_ffffu32;
        }
        let scaled: u128 = self.amount as u128 * remaining;
        let r: u128 = scaled / window;
        proof {
            assert(r <= self.amount as u128) by (nonlinear_arith)
                requires r == scaled / window, scaled <= self.amount as u128 * window, window > 0;
        }
        r as u32
    }
}

} // verus!
