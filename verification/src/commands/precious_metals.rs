//! Precious metals: which candle stands for "30 days ago" in the Gold/Silver
//! Ratio's rate of change. The ratio itself is arithmetic on prices and is the
//! application's.

use vstd::prelude::*;

verus! {

pub const SECONDS_PER_DAY: i64 = 86_400;

/// How far back the GSR's rate of change looks, in days.
pub const GSR_LOOKBACK_DAYS: i64 = 30;

pub open spec fn distance(a: i64, b: i64) -> int {
    if a >= b {
        a - b
    } else {
        b - a
    }
}

fn distance_exec(a: i64, b: i64) -> (r: u128)
    ensures
        r == distance(a, b),
{
    let x = a as i128;
    let y = b as i128;
    if x >= y {
        (x - y) as u128
    } else {
        (y - x) as u128
    }
}

/// The moment `GSR_LOOKBACK_DAYS` before `now_unix`.
pub fn lookback_start(now_unix: i64) -> (r: i64)
    requires
        now_unix >= i64::MIN + GSR_LOOKBACK_DAYS * SECONDS_PER_DAY,
    ensures
        r == now_unix - GSR_LOOKBACK_DAYS * SECONDS_PER_DAY,
{
    now_unix - GSR_LOOKBACK_DAYS * SECONDS_PER_DAY
}

/// Position of the candle whose timestamp is nearest `target_unix`; the first
/// one among equally near candles, `None` for no candles. Since the window grew
/// to 90 days, the first candle can no longer be assumed to be 30 days old.
pub fn nearest_index(timestamps: &[i64], target_unix: i64) -> (r: Option<usize>)
    ensures
        match r {
            None => timestamps@.len() == 0,
            Some(i) => {
                &&& i < timestamps@.len()
                &&& forall|j: int|
                    0 <= j < timestamps@.len() ==> distance(timestamps@[i as int], target_unix) <= distance(
                        #[trigger] timestamps@[j],
                        target_unix,
                    )
                &&& forall|j: int|
                    0 <= j < i ==> distance(timestamps@[i as int], target_unix) < distance(
                        #[trigger] timestamps@[j],
                        target_unix,
                    )
            },
        },
{
    let n = timestamps.len();
    if n == 0 {
        return None;
    }
    let mut best: usize = 0;
    let mut best_distance: u128 = distance_exec(timestamps[0], target_unix);
    let mut k: usize = 1;
    while k < n
        invariant
            n == timestamps@.len(),
            1 <= k <= n,
            best < k,
            best_distance == distance(timestamps@[best as int], target_unix),
            forall|j: int| 0 <= j < k ==> best_distance <= distance(#[trigger] timestamps@[j], target_unix),
            forall|j: int| 0 <= j < best ==> best_distance < distance(#[trigger] timestamps@[j], target_unix),
        decreases n - k,
    {
        let d = distance_exec(timestamps[k], target_unix);
        if d < best_distance {
            best = k;
            best_distance = d;
        }
        k = k + 1;
    }
    Some(best)
}

} // verus!
