//! Clock-offset estimation from one NTP-style four-timestamp exchange.

use vstd::prelude::*;
use crate::pid::div_trunc;

verus! {

/// Result of one time-synchronization round: the estimated clock offset
/// (server time minus client time, in signed microseconds) and the measured
/// round-trip time (microseconds, excluding server-side processing).
#[derive(Debug, Clone, Copy, PartialEq, Eq, Structural)]
pub struct ClockOffset {
    pub offset: i64,
    pub rtt: u64,
}

/// The round-trip time of a consistent exchange: the total client-side wait
/// minus the server-side processing window.
pub open spec fn spec_rtt(t0: int, t1: int, t2: int, t3: int) -> int {
    (t3 - t0) - (t2 - t1)
}

/// The offset estimate of an exchange: the mean of the two one-way clock
/// differences, rounded towards zero as signed 64-bit division truncates.
pub open spec fn spec_offset(t0: int, t1: int, t2: int, t3: int) -> int {
    div_trunc((t1 - t0) + (t2 - t3), 2)
}

/// A four-timestamp sample the estimator accepts: timestamps fit in signed
/// 64-bit arithmetic and the client-side wait covers the server-side window.
pub open spec fn consistent_sample(t0: u64, t1: u64, t2: u64, t3: u64) -> bool {
    &&& t0 <= i64::MAX
    &&& t1 <= i64::MAX
    &&& t2 <= i64::MAX
    &&& t3 <= i64::MAX
    &&& t0 <= t3
    &&& t1 <= t2
    &&& t2 - t1 <= t3 - t0
}

impl ClockOffset {
    /// Calculate offset and RTT from the four timestamps of one round:
    /// `t0` client send time, `t1` server receive time, `t2` server transmit
    /// time, `t3` client receive time.
    pub fn calculate(t0: u64, t1: u64, t2: u64, t3: u64) -> (r: Self)
        requires
            consistent_sample(t0, t1, t2, t3),
        ensures
            r.rtt == spec_rtt(t0 as int, t1 as int, t2 as int, t3 as int),
            r.offset == spec_offset(t0 as int, t1 as int, t2 as int, t3 as int),
            r.rtt >= 0,
    {
        let rtt = (t3 - t0) - (t2 - t1);
        let forward = t1 as i128 - t0 as i128;
        let backward = t2 as i128 - t3 as i128;
        let sum = forward + backward;
        let offset = crate::pid::div_trunc_i128(sum, 2);
        proof {
            let s = sum as int;
            if s >= 0 {
                assert(s / 2 <= s) by (nonlinear_arith)
                    requires s >= 0
                ;
            } else {
                assert((-s) / 2 <= -s) by (nonlinear_arith)
                    requires s < 0
                ;
            }
        }
        ClockOffset { offset: offset as i64, rtt }
    }
}

/// With one-way latencies `fwd` and `bwd` and a true clock offset `delta`,
/// the estimate is off by at most half the path asymmetry (to within the
/// rounding of one microsecond), it is exact on a symmetric path, and the
/// measured round trip is the non-negative sum of the two latencies.
pub proof fn lemma_offset_accuracy(t0: int, t1: int, t2: int, t3: int, delta: int, fwd: int, bwd: int)
    requires
        fwd >= 0,
        bwd >= 0,
        t1 == t0 + delta + fwd,
        t3 == t2 - delta + bwd,
    ensures
        spec_rtt(t0, t1, t2, t3) == fwd + bwd,
        spec_rtt(t0, t1, t2, t3) >= 0,
        2 * abs(spec_offset(t0, t1, t2, t3) - delta) <= abs(fwd - bwd) + 1,
        fwd == bwd ==> spec_offset(t0, t1, t2, t3) == delta,
{
    let d = fwd - bwd;
    let x = 2 * delta + d;
    assert((t1 - t0) + (t2 - t3) == x);
    let offset = div_trunc(x, 2);
    if x >= 0 {
        assert(2 * (x / 2) <= x < 2 * (x / 2) + 2) by (nonlinear_arith)
            requires x >= 0
        ;
        if d == 0 {
            assert(x / 2 == delta) by (nonlinear_arith)
                requires x == 2 * delta, x >= 0
            ;
        }
    } else {
        let m = -x;
        assert(2 * (m / 2) <= m < 2 * (m / 2) + 2) by (nonlinear_arith)
            requires m > 0
        ;
        assert(offset == -(m / 2));
        if d == 0 {
            assert(m / 2 == -delta) by (nonlinear_arith)
                requires m == -(2 * delta), m > 0
            ;
        }
    }
    assert(x - 1 <= 2 * offset <= x + 1);
}

/// The absolute value of a mathematical integer.
pub open spec fn abs(x: int) -> int {
    if x >= 0 {
        x
    } else {
        -x
    }
}

} // verus!
