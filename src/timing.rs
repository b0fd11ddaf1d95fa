//! Wall-clock helpers and the delay computation that drives every timer.
use vstd::prelude::*;
use vstd::arithmetic::div_mod::{lemma_mod_multiples_vanish, lemma_small_mod};

verus! {

/// Seconds from `now` until the next run of a cadence anchored at `start_at`.
///
/// A future (or present) anchor is waited for directly; a past one is
/// continued on its original cadence.
pub open spec fn next_run_spec(start_at: u64, now: u64, interval: u64) -> int {
    if start_at >= now {
        start_at - now
    } else {
        interval - ((now - start_at) as int % interval as int)
    }
}

/// Returns the amount of seconds since the UNIX epoch (zero for a clock set
/// before it).
///
/// Relies on `std::time::SystemTime::now` and `duration_since`: the result is
/// the machine's clock, so nothing is promised of it.
#[verifier::external_body]
pub fn current_unix_timestamp() -> (r: u64) {
    match std::time::SystemTime::now().duration_since(std::time::SystemTime::UNIX_EPOCH) {
        Ok(elapsed) => elapsed.as_secs(),
        Err(_) => 0,
    }
}

/// Given the parameters returns the next run in seconds from now.
///
/// - `start_at`: unix timestamp in seconds
/// - `now`: unix timestamp in seconds
/// - `interval`: in seconds
pub fn next_run(start_at: u64, now: u64, interval: u64) -> (r: u64)
    requires
        start_at >= now || interval > 0,
    ensures
        r == next_run_spec(start_at, now, interval),
        start_at < now ==> 0 < r <= interval,
{
    if start_at >= now {
        start_at - now
    } else {
        interval - (now - start_at) % interval
    }
}

/// Seconds until the next point of the cadence `last_run + m * interval`
/// that lies strictly after `now` (or until `last_run` itself, when it lies
/// ahead of `now`).
pub open spec fn drift_delay_spec(last_run: u64, now: u64, interval: u64) -> int {
    if now >= last_run {
        interval - ((now - last_run) as int % interval as int)
    } else {
        last_run - now
    }
}

/// Delay before a timer first fires: a future `start_at` is waited for;
/// otherwise a known `last_run` keeps the cadence; otherwise fire at once.
pub open spec fn initial_delay_spec(start_at: u64, last_run: Option<u64>, now: u64, interval: u64) -> int {
    if start_at > now {
        start_at - now
    } else {
        match last_run {
            Some(lr) => drift_delay_spec(lr, now, interval),
            None => 0,
        }
    }
}

/// Computes the delay before a timer first fires, see [`initial_delay_spec`].
pub fn initial_delay(start_at: u64, last_run: Option<u64>, now: u64, interval: u64) -> (r: u64)
    requires
        interval > 0,
    ensures
        r == initial_delay_spec(start_at, last_run, now, interval),
        (match last_run {
            Some(lr) => start_at <= now && lr <= now ==> 0 < r <= interval,
            None => true,
        }),
{
    if start_at > now {
        start_at - now
    } else {
        match last_run {
            Some(lr) => {
                if now >= lr {
                    interval - (now - lr) % interval
                } else {
                    lr - now
                }
            },
            None => 0,
        }
    }
}

/// Drift correction: with `now = last_run + k * interval + d` (`k >= 1`,
/// `0 <= d < interval`) and no future `start_at`, the delay is `interval - d`,
/// however many whole intervals were missed.
pub proof fn lemma_drift_correction(start_at: u64, last_run: u64, now: u64, interval: u64, k: nat, d: nat)
    requires
        interval > 0,
        k >= 1,
        d < interval,
        now == last_run + k * interval + d,
        start_at <= now,
    ensures
        initial_delay_spec(start_at, Some(last_run), now, interval) == interval - d,
{
    lemma_mod_multiples_vanish(k as int, d as int, interval as int);
    lemma_small_mod(d, interval as nat);
    assert(interval * k == k * interval) by (nonlinear_arith);
}

/// Start-at precedence: a `start_at` in the future is waited for exactly,
/// whatever `last_run` holds.
pub proof fn lemma_start_at_precedence(start_at: u64, last_run: Option<u64>, now: u64, interval: u64)
    requires
        start_at > now,
    ensures
        initial_delay_spec(start_at, last_run, now, interval) == start_at - now,
{
}

} // verus!
