//! Proportional-integral-derivative controller for smooth drift
//! correction, in fixed-point arithmetic.
//!
//! Every quantity is a real value scaled by [`SCALE`] and stored in an
//! `i64`: an error of one millisecond is `1_000_000`, a gain of `0.005`
//! is `5_000`, a time step of one second is `1_000_000`. Divisions
//! truncate towards zero.

use vstd::prelude::*;

verus! {

/// The fixed-point scale: stored values are real values times this.
pub const SCALE: i64 = 1_000_000;

/// The anti-windup bound: the integrator is clamped to one hundred
/// real units, i.e. [`SCALE`] times one hundred.
pub const INTEGRAL_LIMIT: i64 = 100_000_000;

/// The largest magnitude `next` accepts for its error input
/// (one thousand milliseconds of drift) and for its time step
/// (one thousand seconds), which keeps every intermediate product small.
pub const PID_INPUT_LIMIT: i64 = 1_000_000_000;

/// The largest gain `new` accepts: a real gain of one.
pub const PID_GAIN_LIMIT: i64 = 1_000_000;

/// Signed division truncating towards zero, the rounding the controller
/// uses everywhere.
pub open spec fn div_trunc(a: int, b: int) -> int {
    if a >= 0 {
        a / b
    } else {
        -((-a) / b)
    }
}

/// A value clamped into the inclusive interval `[lo, hi]`.
pub open spec fn clamp_int(x: int, lo: int, hi: int) -> int {
    if x < lo {
        lo
    } else if x > hi {
        hi
    } else {
        x
    }
}

/// The integrator after one step: the accumulated error-times-time,
/// clamped against windup.
pub open spec fn spec_pid_integral(integral: int, error: int, dt: int) -> int {
    clamp_int(integral + div_trunc(error * dt, SCALE as int), -(INTEGRAL_LIMIT as int), INTEGRAL_LIMIT as int)
}

/// The derivative term of one step: the error slope over the time step,
/// zero on a degenerate step.
pub open spec fn spec_pid_derivative(error: int, last_error: int, dt: int) -> int {
    if dt > 0 {
        div_trunc((error - last_error) * (SCALE as int), dt)
    } else {
        0
    }
}

/// The controller output for one step, given the already-updated
/// integrator.
pub open spec fn spec_pid_output(kp: int, ki: int, kd: int, error: int, integral: int, derivative: int) -> int {
    div_trunc(kp * error + ki * integral + kd * derivative, SCALE as int)
}

/// Drift-correction controller producing a playback-rate adjustment from
/// measured drift samples. Gains are fixed at construction; the
/// integrator is clamped to [`INTEGRAL_LIMIT`] against windup.
#[derive(Debug, Clone, PartialEq, Eq, Structural)]
pub struct PidController {
    kp: i64,
    ki: i64,
    kd: i64,
    integral: i64,
    last_error: i64,
}

impl PidController {
    /// The proportional gain, fixed at construction.
    pub closed spec fn spec_kp(self) -> i64 {
        self.kp
    }

    /// The integral gain, fixed at construction.
    pub closed spec fn spec_ki(self) -> i64 {
        self.ki
    }

    /// The derivative gain, fixed at construction.
    pub closed spec fn spec_kd(self) -> i64 {
        self.kd
    }

    /// The integrator accumulator.
    pub closed spec fn spec_integral(self) -> i64 {
        self.integral
    }

    /// The error of the previous step.
    pub closed spec fn spec_last_error(self) -> i64 {
        self.last_error
    }

    /// A controller is well-formed when its gains are moderate and its
    /// integrator sits within the anti-windup bound; `new` establishes
    /// this and every operation preserves it.
    pub open spec fn wf(self) -> bool {
        &&& 0 <= self.spec_kp() <= PID_GAIN_LIMIT
        &&& 0 <= self.spec_ki() <= PID_GAIN_LIMIT
        &&& 0 <= self.spec_kd() <= PID_GAIN_LIMIT
        &&& -(INTEGRAL_LIMIT as int) <= self.spec_integral() <= INTEGRAL_LIMIT as int
        &&& -(PID_INPUT_LIMIT as int) <= self.spec_last_error() <= PID_INPUT_LIMIT as int
    }

    /// A fresh controller with the given gains (real gains times
    /// [`SCALE`]) and a zeroed integrator.
    pub fn new(kp: i64, ki: i64, kd: i64) -> (r: Self)
        requires
            0 <= kp <= PID_GAIN_LIMIT,
            0 <= ki <= PID_GAIN_LIMIT,
            0 <= kd <= PID_GAIN_LIMIT,
        ensures
            r.wf(),
            r.spec_kp() == kp,
            r.spec_ki() == ki,
            r.spec_kd() == kd,
            r.spec_integral() == 0,
            r.spec_last_error() == 0,
    {
        PidController { kp, ki, kd, integral: 0, last_error: 0 }
    }

    /// Zero the integrator and the remembered error; called on any
    /// discontinuous jump such as a seek or a resync.
    pub fn reset(&mut self)
        ensures
            final(self).spec_integral() == 0,
            final(self).spec_last_error() == 0,
            final(self).spec_kp() == old(self).spec_kp(),
            final(self).spec_ki() == old(self).spec_ki(),
            final(self).spec_kd() == old(self).spec_kd(),
            old(self).wf() ==> final(self).wf(),
    {
        self.integral = 0;
        self.last_error = 0;
    }

    /// One controller step: accumulate `error` over `dt` into the clamped
    /// integrator, take the error slope, and return the combined output
    /// (a real rate adjustment times [`SCALE`]). `error` is the drift to
    /// cancel, in milliseconds times [`SCALE`]; `dt` is the time since the
    /// previous step, in seconds times [`SCALE`].
    pub fn next(&mut self, error: i64, dt: i64) -> (r: i64)
        requires
            old(self).wf(),
            -PID_INPUT_LIMIT <= error <= PID_INPUT_LIMIT,
            0 <= dt <= PID_INPUT_LIMIT,
        ensures
            final(self).wf(),
            final(self).spec_integral() == spec_pid_integral(
                old(self).spec_integral() as int,
                error as int,
                dt as int,
            ),
            final(self).spec_last_error() == error,
            final(self).spec_kp() == old(self).spec_kp(),
            final(self).spec_ki() == old(self).spec_ki(),
            final(self).spec_kd() == old(self).spec_kd(),
            r == spec_pid_output(
                old(self).spec_kp() as int,
                old(self).spec_ki() as int,
                old(self).spec_kd() as int,
                error as int,
                final(self).spec_integral() as int,
                spec_pid_derivative(error as int, old(self).spec_last_error() as int, dt as int),
            ),
            -(INTEGRAL_LIMIT as int) <= final(self).spec_integral() <= INTEGRAL_LIMIT as int,
    {
        proof {
            lemma_mul_bound(error as int, dt as int, PID_INPUT_LIMIT as int, PID_INPUT_LIMIT as int);
        }
        let step = div_trunc_i128(error as i128 * dt as i128, SCALE as i128);
        proof {
            lemma_div_trunc_bound(error as int * dt as int, SCALE as int, 0x1000_0000_0000_0000_0000);
        }
        let unclamped = self.integral as i128 + step;
        let integral = clamp_i128(
            unclamped,
            -(INTEGRAL_LIMIT as i128),
            INTEGRAL_LIMIT as i128,
        );
        self.integral = integral as i64;

        let derivative: i128 = if dt > 0 {
            let diff = error as i128 - self.last_error as i128;
            proof {
                lemma_mul_bound(diff as int, SCALE as int, 2 * PID_INPUT_LIMIT as int, SCALE as int);
                lemma_div_trunc_bound(diff as int * SCALE as int, dt as int, 0x1000_0000_0000_0000_0000);
            }
            div_trunc_i128(diff * SCALE as i128, dt as i128)
        } else {
            0
        };
        self.last_error = error;

        proof {
            lemma_mul_bound(self.kp as int, error as int, PID_GAIN_LIMIT as int, PID_INPUT_LIMIT as int);
            lemma_mul_bound(self.ki as int, integral as int, PID_GAIN_LIMIT as int, INTEGRAL_LIMIT as int);
            lemma_mul_bound(
                self.kd as int,
                derivative as int,
                PID_GAIN_LIMIT as int,
                2 * PID_INPUT_LIMIT as int * SCALE as int,
            );
        }
        let p = self.kp as i128 * error as i128;
        let i = self.ki as i128 * integral;
        let d = self.kd as i128 * derivative;
        let out = div_trunc_i128(p + i + d, SCALE as i128);
        proof {
            lemma_div_trunc_bound(
                p as int + i as int + d as int,
                SCALE as int,
                0x1000_0000_0000_0000_0000_0000,
            );
            assert(-(i64::MAX as int) <= out <= i64::MAX as int);
        }
        out as i64
    }
}

/// `|a * b| <= ba * bb` when the factors are bounded by `ba` and `bb`.
proof fn lemma_mul_bound(a: int, b: int, ba: int, bb: int)
    requires
        0 <= ba,
        0 <= bb,
        -ba <= a <= ba,
        -bb <= b <= bb,
    ensures
        -(ba * bb) <= a * b <= ba * bb,
{
    assert(-(ba * bb) <= a * b <= ba * bb) by (nonlinear_arith)
        requires
            0 <= ba,
            0 <= bb,
            -ba <= a <= ba,
            -bb <= b <= bb,
    ;
}

/// Truncating division shrinks magnitude: a bound on the dividend bounds
/// the quotient.
proof fn lemma_div_trunc_bound(a: int, b: int, bound: int)
    requires
        b > 0,
        -bound <= a <= bound,
        0 <= bound,
    ensures
        -bound <= div_trunc(a, b) <= bound,
{
    if a >= 0 {
        assert(0 <= a / b <= a) by (nonlinear_arith)
            requires b > 0, a >= 0
        ;
    } else {
        assert(0 <= (-a) / b <= -a) by (nonlinear_arith)
            requires b > 0, a < 0
        ;
    }
}

/// Executable truncating division on `i128`, matching [`div_trunc`].
pub(crate) fn div_trunc_i128(a: i128, b: i128) -> (r: i128)
    requires
        b > 0,
        a > i128::MIN,
    ensures
        r == div_trunc(a as int, b as int),
{
    if a >= 0 {
        let q = (a as u128) / (b as u128);
        q as i128
    } else {
        let q = ((-a) as u128) / (b as u128);
        proof {
            assert(0 <= ((-a) as u128) as int / (b as int) <= (-a) as int) by (nonlinear_arith)
                requires b > 0, a < 0
            ;
        }
        -(q as i128)
    }
}

/// Executable clamp on `i128`, matching [`clamp_int`].
fn clamp_i128(x: i128, lo: i128, hi: i128) -> (r: i128)
    requires
        lo <= hi,
    ensures
        r == clamp_int(x as int, lo as int, hi as int),
        lo <= r <= hi,
{
    if x < lo {
        lo
    } else if x > hi {
        hi
    } else {
        x
    }
}

} // verus!
