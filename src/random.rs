//! Random draws an idle unit needs, from the thread-local generator.

use rand::Rng;
use vstd::prelude::*;
use crate::behaviors::{duration_in_range, idle_params_ok};

verus! {

/// Relies on rand's `Rng::gen_range` with an inclusive `i64` range on
/// `thread_rng()`: the value lies in `lo..=hi` (the call panics on an empty
/// range, which `requires` rules out).
#[verifier::external_body]
fn random_between(lo: i64, hi: i64) -> (r: i64)
    requires
        lo <= hi,
    ensures
        lo <= r <= hi,
{
    rand::thread_rng().gen_range(lo..=hi)
}

/// The idle dwell duration for an offset drawn from
/// `-duration_spread..=duration_spread`: `base_duration` minus the offset.
pub fn idle_duration_from_offset(base_duration: u64, duration_spread: u64, offset: i64) -> (r: u64)
    requires
        idle_params_ok(base_duration, duration_spread),
        -(duration_spread as int) <= offset <= duration_spread,
    ensures
        r == base_duration - offset,
        duration_in_range(r as int, base_duration as int, duration_spread as int),
{
    (base_duration as i64 - offset) as u64
}

/// Draws an idle dwell duration: `base_duration` minus an offset drawn
/// uniformly from `-duration_spread..=duration_spread`.
pub fn draw_idle_duration(base_duration: u64, duration_spread: u64) -> (r: u64)
    requires
        idle_params_ok(base_duration, duration_spread),
    ensures
        duration_in_range(r as int, base_duration as int, duration_spread as int),
{
    let spread: i64 = duration_spread as i64;
    let offset: i64 = random_between(-spread, spread);
    idle_duration_from_offset(base_duration, duration_spread, offset)
}

} // verus!
