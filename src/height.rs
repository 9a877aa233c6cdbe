//! Height arithmetic, in motor steps: how the dial moves the target and how
//! ticks bring the current height to it.
use vstd::arithmetic::div_mod::lemma_fundamental_div_mod;
use vstd::prelude::*;

verus! {

/// Where the dial moves a target height: one millimetre (`mm` steps) up for
/// a clockwise click, capped at `max`, or down for a counter-clockwise one,
/// floored at zero.
pub open spec fn turned(target: u32, clockwise: bool, mm: u32, max: u32) -> u32 {
    if clockwise {
        if target + mm > max {
            max
        } else {
            (target + mm) as u32
        }
    } else {
        if target < mm {
            0
        } else {
            (target - mm) as u32
        }
    }
}

/// The target after a run of clicks, oldest first; `true` is clockwise.
pub open spec fn dialed(target: u32, clicks: Seq<bool>, mm: u32, max: u32) -> u32
    decreases clicks.len(),
{
    if clicks.len() == 0 {
        target
    } else {
        turned(dialed(target, clicks.drop_last(), mm, max), clicks.last(), mm, max)
    }
}

/// The distance between two heights.
pub open spec fn gap(a: u32, b: u32) -> nat {
    if a < b {
        (b - a) as nat
    } else {
        (a - b) as nat
    }
}

/// How many steps one tick takes from `current` toward `target`: at most
/// `per_tick`, and never past the target.
pub open spec fn tick_steps(current: u32, target: u32, per_tick: u32) -> u32 {
    if gap(current, target) < per_tick {
        gap(current, target) as u32
    } else {
        per_tick
    }
}

/// The height after one tick from `current` toward `target`.
pub open spec fn toward(current: u32, target: u32, per_tick: u32) -> u32 {
    if current < target {
        (current + tick_steps(current, target, per_tick)) as u32
    } else {
        (current - tick_steps(current, target, per_tick)) as u32
    }
}

/// The height after `n` ticks from `current` toward `target`.
pub open spec fn after_ticks(current: u32, target: u32, per_tick: u32, n: nat) -> u32
    decreases n,
{
    if n == 0 {
        current
    } else {
        toward(after_ticks(current, target, per_tick, (n - 1) as nat), target, per_tick)
    }
}

/// The number of ticks that cover the distance: `⌈gap / per_tick⌉`.
pub open spec fn ticks_needed(current: u32, target: u32, per_tick: u32) -> nat
    recommends
        per_tick > 0,
{
    ((gap(current, target) + per_tick - 1) / (per_tick as int)) as nat
}

/// Whatever clicks of the dial arrive, the target stays within
/// `[0, max]`: it saturates at both ends and never wraps.
pub proof fn lemma_target_stays_in_range(target: u32, clicks: Seq<bool>, mm: u32, max: u32)
    requires
        target <= max,
    ensures
        dialed(target, clicks, mm, max) <= max,
    decreases clicks.len(),
{
    if clicks.len() > 0 {
        lemma_target_stays_in_range(target, clicks.drop_last(), mm, max);
    }
}

/// A burst of `n` clicks in one direction moves the target by `n`
/// millimetres in all, saturating at `max` going up and at zero going down.
pub proof fn lemma_clicks_accumulate(target: u32, n: nat, mm: u32, max: u32)
    requires
        target <= max,
    ensures
        dialed(target, Seq::new(n, |i: int| true), mm, max) == if target + n * mm >= max {
            max as int
        } else {
            target + n * mm
        },
        dialed(target, Seq::new(n, |i: int| false), mm, max) == if target - n * mm <= 0 {
            0
        } else {
            target - n * mm
        },
    decreases n,
{
    if n > 0 {
        let m = (n - 1) as nat;
        assert(Seq::new(n, |i: int| true).drop_last() =~= Seq::new(m, |i: int| true));
        assert(Seq::new(n, |i: int| false).drop_last() =~= Seq::new(m, |i: int| false));
        lemma_clicks_accumulate(target, m, mm, max);
        assert(n * mm == m * mm + mm) by (nonlinear_arith)
            requires
                m == n - 1,
        ;
        assert(m * mm >= 0) by (nonlinear_arith);
    }
}

/// One tick away from the target moves strictly toward it, by at most
/// `per_tick` steps, and never past it.
pub proof fn lemma_tick_approaches(current: u32, target: u32, per_tick: u32)
    requires
        per_tick > 0,
        current != target,
    ensures
        gap(toward(current, target, per_tick), target) < gap(current, target),
        gap(current, toward(current, target, per_tick)) <= per_tick,
        gap(current, toward(current, target, per_tick)) + gap(
            toward(current, target, per_tick),
            target,
        ) == gap(current, target),
{
}

/// After `n` ticks the distance left is the starting distance less
/// `n * per_tick`, or none, and the height stays on its starting side.
pub proof fn lemma_after_ticks(current: u32, target: u32, per_tick: u32, n: nat)
    requires
        per_tick > 0,
    ensures
        gap(after_ticks(current, target, per_tick, n), target) == if n * per_tick >= gap(
            current,
            target,
        ) {
            0
        } else {
            gap(current, target) - n * per_tick
        },
        current <= target ==> after_ticks(current, target, per_tick, n) <= target,
        current >= target ==> after_ticks(current, target, per_tick, n) >= target,
    decreases n,
{
    if n > 0 {
        let m = (n - 1) as nat;
        lemma_after_ticks(current, target, per_tick, m);
        assert(n * per_tick == m * per_tick + per_tick) by (nonlinear_arith)
            requires
                m == n - 1,
        ;
        assert(m * per_tick >= 0) by (nonlinear_arith);
    }
}

/// Ticking exactly `⌈gap / per_tick⌉` times brings the current height to
/// the target, and no smaller number of ticks does.
pub proof fn lemma_tracking_converges(current: u32, target: u32, per_tick: u32)
    requires
        per_tick > 0,
    ensures
        after_ticks(current, target, per_tick, ticks_needed(current, target, per_tick)) == target,
        forall|n: nat|
            n < ticks_needed(current, target, per_tick) ==> #[trigger] after_ticks(
                current,
                target,
                per_tick,
                n,
            ) != target,
{
    let g = gap(current, target) as int;
    let k = per_tick as int;
    let x = g + k - 1;
    let q = x / k;
    lemma_fundamental_div_mod(x, k);
    assert(0 <= x % k < k);
    assert(q >= 0) by (nonlinear_arith)
        requires
            x >= 0,
            k > 0,
            x == k * q + x % k,
            x % k < k,
    ;
    assert(q * k >= g) by (nonlinear_arith)
        requires
            x == k * q + x % k,
            x % k < k,
            x == g + k - 1,
    ;
    lemma_after_ticks(current, target, per_tick, q as nat);
    assert forall|n: nat| n < q implies #[trigger] after_ticks(current, target, per_tick, n)
        != target by {
        assert(n * k < g) by (nonlinear_arith)
            requires
                n < q,
                k > 0,
                x == k * q + x % k,
                0 <= x % k,
                x == g + k - 1,
        ;
        lemma_after_ticks(current, target, per_tick, n);
    }
}

} // verus!
