//! Timers that run toward a lifetime, and the entities that end with them.
//!
//! Durations are counted in millionths of a second.
use vstd::prelude::*;
use crate::fixed::{clamp, fx_div, fx_mul, ONE};

verus! {

/// A timer: `life` runs from zero toward `lifetime`, or back down where
/// `backwards` is set, at `scale` times the speed of the clock.
#[derive(Clone, Copy, Debug, PartialEq, Eq, Structural)]
pub struct Timed {
    pub life: i64,
    pub lifetime: i64,
    pub backwards: bool,
    pub scale: i64,
}

impl Default for Timed {
    fn default() -> (t: Self)
        ensures
            t.life == 0,
            t.lifetime == 0,
            !t.backwards,
            t.scale == ONE,
    {
        Timed { life: 0, lifetime: 0, backwards: false, scale: ONE }
    }
}

impl Timed {
    /// The fraction of the lifetime that has passed, between zero and one.
    /// A timer without a lifetime counts as finished once its life is not
    /// negative.
    pub open spec fn fin_spec(self) -> int {
        if self.lifetime > 0 {
            clamp(fx_div(self.life as int, self.lifetime as int), 0, ONE as int)
        } else if self.lifetime < 0 {
            clamp(fx_div(-self.life, -self.lifetime), 0, ONE as int)
        } else if self.life < 0 {
            0
        } else {
            ONE as int
        }
    }

    /// Whether the life has reached the lifetime.
    pub open spec fn ended_spec(self) -> bool {
        self.life >= self.lifetime
    }

    /// The life after the clock went on by `delta`, kept within what the
    /// counter can store.
    pub open spec fn life_after(self, delta: int) -> int {
        let step = fx_mul(delta, self.scale as int);
        if self.backwards {
            clamp(self.life - step, i64::MIN as int, i64::MAX as int)
        } else {
            clamp(self.life + step, i64::MIN as int, i64::MAX as int)
        }
    }

    /// A timer at zero that runs forward for `lifetime` at the speed of the
    /// clock.
    pub fn new(lifetime: i64) -> (t: Self)
        ensures
            t.life == 0,
            t.lifetime == lifetime,
            !t.backwards,
            t.scale == ONE,
    {
        Timed { life: 0, lifetime, backwards: false, scale: ONE }
    }

    /// The fraction of the lifetime that has passed.
    pub fn fin(self) -> (f: i64)
        ensures
            f == self.fin_spec(),
            0 <= f <= ONE,
    {
        self.fin_64()
    }

    /// The fraction of the lifetime that has passed.
    pub fn fin_64(self) -> (f: i64)
        ensures
            f == self.fin_spec(),
            0 <= f <= ONE,
    {
        if self.lifetime == 0 {
            if self.life < 0 {
                0
            } else {
                ONE
            }
        } else {
            let (life, lifetime): (i128, i128) = if self.lifetime > 0 {
                (self.life as i128, self.lifetime as i128)
            } else {
                (-(self.life as i128), -(self.lifetime as i128))
            };
            let q: i128 = (life * (ONE as i128)) / lifetime;
            if q < 0 {
                0
            } else if q > ONE as i128 {
                ONE
            } else {
                q as i64
            }
        }
    }

    /// Whether the life has reached the lifetime.
    pub fn ended(self) -> (e: bool)
        ensures
            e == self.ended_spec(),
    {
        self.life >= self.lifetime
    }

    /// Moves the timer on by `delta` of clock time.
    pub fn advance(&mut self, delta: i64)
        ensures
            final(self).life == old(self).life_after(delta as int),
            final(self).lifetime == old(self).lifetime,
            final(self).backwards == old(self).backwards,
            final(self).scale == old(self).scale,
    {
        proof {
            crate::fixed::lemma_product_bound(
                delta as int,
                self.scale as int,
                0x8000_0000_0000_0000,
                0x8000_0000_0000_0000,
            );
            crate::fixed::lemma_trunc_div_bound(delta * self.scale, ONE as int);
        }
        let step: i128 = ((delta as i128) * (self.scale as i128)) / (ONE as i128);
        let life: i128 = if self.backwards {
            (self.life as i128) - step
        } else {
            (self.life as i128) + step
        };
        self.life = if life < i64::MIN as i128 {
            i64::MIN
        } else if life > i64::MAX as i128 {
            i64::MAX
        } else {
            life as i64
        };
    }
}

/// Moves every timer on by `delta` of clock time.
pub fn timed_update_sys(delta: i64, all: &mut Vec<Timed>)
    ensures
        final(all).len() == old(all).len(),
        forall|i: int|
            0 <= i < old(all).len() ==> {
                &&& (#[trigger] final(all)[i]).life == old(all)[i].life_after(delta as int)
                &&& final(all)[i].lifetime == old(all)[i].lifetime
                &&& final(all)[i].backwards == old(all)[i].backwards
                &&& final(all)[i].scale == old(all)[i].scale
            },
{
    let n: usize = all.len();
    let mut i: usize = 0;
    while i < n
        invariant
            i <= n,
            all.len() == n,
            n == old(all).len(),
            forall|j: int|
                0 <= j < i ==> {
                    &&& (#[trigger] all[j]).life == old(all)[j].life_after(delta as int)
                    &&& all[j].lifetime == old(all)[j].lifetime
                    &&& all[j].backwards == old(all)[j].backwards
                    &&& all[j].scale == old(all)[j].scale
                },
            forall|j: int| i <= j < n ==> all[j] == old(all)[j],
        decreases n - i,
    {
        let mut timed: Timed = all[i];
        timed.advance(delta);
        all.set(i, timed);
        i += 1;
    }
}

/// Removes every timer that has ended, and keeps the others in order.
pub fn timed_post_update_sys(all: &mut Vec<Timed>)
    ensures
        final(all)@ == old(all)@.filter(|t: Timed| !t.ended_spec()),
{
    let mut kept: Vec<Timed> = Vec::new();
    let n: usize = all.len();
    let mut i: usize = 0;
    proof {
        reveal(Seq::filter);
        assert(all@.take(0) =~= Seq::<Timed>::empty());
    }
    while i < n
        invariant
            i <= n,
            n == all.len(),
            all@ == old(all)@,
            kept@ == all@.take(i as int).filter(|t: Timed| !t.ended_spec()),
        decreases n - i,
    {
        let timed: Timed = all[i];
        proof {
            reveal(Seq::filter);
            assert(all@.take(i + 1).drop_last() =~= all@.take(i as int));
        }
        if !timed.ended() {
            kept.push(timed);
        }
        i += 1;
    }
    proof {
        assert(all@.take(n as int) =~= all@);
    }
    *all = kept;
}

} // verus!
