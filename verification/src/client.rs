//! The client engine: one session's sync state, the handling of server
//! messages, burst averaging, and drift correction.

use vstd::prelude::*;
use crate::clock::{ClockOffset, consistent_sample, spec_offset, spec_rtt};
use crate::messages::{ServerMessage, ServerMessageV};
use crate::pid::{
    PidController, SCALE, PID_INPUT_LIMIT, clamp_int, div_trunc, spec_pid_derivative,
    spec_pid_integral, spec_pid_output,
};

verus! {

/// The reference proportional gain for audio drift, `0.005` in fixed point.
pub const DRIFT_KP: i64 = 5_000;

/// The reference integral gain for audio drift, `0.0001` in fixed point.
pub const DRIFT_KI: i64 = 100;

/// The reference derivative gain for audio drift, `0.001` in fixed point.
pub const DRIFT_KD: i64 = 1_000;

/// The lowest playback-rate multiplier ever applied, `0.95` in fixed
/// point: the hard clamp that protects audio from pitch artefacts.
pub const RATE_MIN: i64 = 950_000;

/// The highest playback-rate multiplier ever applied, `1.05` in fixed
/// point.
pub const RATE_MAX: i64 = 1_050_000;

/// The largest drift magnitude, in milliseconds, the correction accepts.
pub const DRIFT_LIMIT: i64 = 1_000;

/// Per-client sync state: the latest offset and round-trip estimates, the
/// last drift sample, and the drift controller.
#[derive(Debug)]
pub struct ClientState {
    /// Estimated server time minus client time, in signed microseconds.
    pub offset: i64,
    /// Last measured round trip, in microseconds.
    pub rtt: u64,
    /// Last measured audible drift, in milliseconds.
    pub drift: i64,
    /// The drift controller.
    pub pid: PidController,
}

/// What the engine asks of the audio subsystem after one server message.
#[derive(Debug, Clone, PartialEq, Eq)]
pub enum ClientAction {
    /// Nothing to do.
    Nothing,
    /// Prepare `track_url` at `start_at_position_ms` and start playing
    /// `wait_us` microseconds from now.
    Play { track_url: String, start_at_position_ms: u64, wait_us: u64 },
    /// Render the live stream as its chunks arrive.
    PlayLive { track_url: String },
    /// The start instant already passed: report the missed deadline and do
    /// not start mid-cue.
    Skipped,
    /// Pause; `server_time` records when (informational).
    Pause { server_time: u64 },
    /// Restart time synchronization.
    Resync,
}

/// The mathematical view of a `ClientAction`.
pub enum ClientActionV {
    Nothing,
    Play { track_url: Seq<char>, start_at_position_ms: u64, wait_us: u64 },
    PlayLive { track_url: Seq<char> },
    Skipped,
    Pause { server_time: u64 },
    Resync,
}

impl View for ClientAction {
    type V = ClientActionV;

    open spec fn view(&self) -> ClientActionV {
        match self {
            ClientAction::Nothing => ClientActionV::Nothing,
            ClientAction::Play { track_url, start_at_position_ms, wait_us } => ClientActionV::Play {
                track_url: track_url@,
                start_at_position_ms: *start_at_position_ms,
                wait_us: *wait_us,
            },
            ClientAction::PlayLive { track_url } => ClientActionV::PlayLive {
                track_url: track_url@,
            },
            ClientAction::Skipped => ClientActionV::Skipped,
            ClientAction::Pause { server_time } => ClientActionV::Pause {
                server_time: *server_time,
            },
            ClientAction::Resync => ClientActionV::Resync,
        }
    }
}

/// The client's approximation of server time: its local clock plus the
/// estimated offset, floored at zero.
pub open spec fn spec_server_now(local_now: u64, offset: i64) -> int {
    if local_now + offset >= 0 {
        local_now + offset
    } else {
        0
    }
}

/// The sync state after one server message: only a consistent time
/// response changes it, installing that round's estimates.
pub open spec fn spec_on_message_sync(offset: i64, rtt: u64, msg: ServerMessageV, local_now: u64) -> (i64, u64) {
    match msg {
        ServerMessageV::TimeResponse { t0, t1, t2, seq } => {
            if consistent_sample(t0, t1, t2, local_now)
                && i64::MIN <= spec_offset(t0 as int, t1 as int, t2 as int, local_now as int) <= i64::MAX {
                (
                    spec_offset(t0 as int, t1 as int, t2 as int, local_now as int) as i64,
                    spec_rtt(t0 as int, t1 as int, t2 as int, local_now as int) as u64,
                )
            } else {
                (offset, rtt)
            }
        },
        _ => (offset, rtt),
    }
}

/// The action one server message is owed, given the current offset
/// estimate. A play command whose start instant is the live sentinel is
/// rendered immediately; one whose start instant is still ahead is armed
/// for the remaining wait; a late one is skipped.
pub open spec fn spec_on_message_action(offset: i64, msg: ServerMessageV, local_now: u64) -> ClientActionV {
    match msg {
        ServerMessageV::PlayCommand { track_url, start_at_server_time, start_at_position_ms, .. } => {
            let now_server = spec_server_now(local_now, offset);
            if start_at_server_time == 0 {
                ClientActionV::PlayLive { track_url }
            } else if start_at_server_time > now_server {
                ClientActionV::Play {
                    track_url,
                    start_at_position_ms,
                    wait_us: (start_at_server_time - now_server) as u64,
                }
            } else {
                ClientActionV::Skipped
            }
        },
        ServerMessageV::PauseCommand { server_time } => ClientActionV::Pause { server_time },
        ServerMessageV::SyncRequired => ClientActionV::Resync,
        _ => ClientActionV::Nothing,
    }
}

/// The arithmetic room a server message needs on the client at local time
/// `local_now`: the approximated server time must fit in 64 bits.
pub open spec fn client_msg_fits(offset: i64, msg: ServerMessageV, local_now: u64) -> bool {
    msg is PlayCommand ==> local_now + offset <= u64::MAX
}

impl ClientState {
    /// The engine is well-formed when its controller is; construction
    /// establishes it and every operation preserves it.
    pub open spec fn wf(self) -> bool {
        self.pid.wf()
    }

    /// A fresh engine: no estimates yet, the controller at the reference
    /// audio tuning.
    pub fn new() -> (r: Self)
        ensures
            r.wf(),
            r.offset == 0,
            r.rtt == 0,
            r.drift == 0,
            r.pid.spec_integral() == 0,
            r.pid.spec_last_error() == 0,
            r.pid.spec_kp() == DRIFT_KP,
            r.pid.spec_ki() == DRIFT_KI,
            r.pid.spec_kd() == DRIFT_KD,
    {
        ClientState {
            offset: 0,
            rtt: 0,
            drift: 0,
            pid: PidController::new(DRIFT_KP, DRIFT_KI, DRIFT_KD),
        }
    }

    /// Feed one completed time round into the estimator: a consistent
    /// sample installs its offset and round trip and reports success, an
    /// inconsistent one is discarded as an ignorable sync failure.
    pub fn handle_time_response(&mut self, t0: u64, t1: u64, t2: u64, t3: u64) -> (ok: bool)
        ensures
            ok == consistent_sample(t0, t1, t2, t3),
            ok ==> final(self).offset == spec_offset(t0 as int, t1 as int, t2 as int, t3 as int)
                && final(self).rtt == spec_rtt(t0 as int, t1 as int, t2 as int, t3 as int),
            !ok ==> final(self).offset == old(self).offset && final(self).rtt == old(self).rtt,
            final(self).drift == old(self).drift,
            final(self).pid == old(self).pid,
            old(self).wf() ==> final(self).wf(),
    {
        let limit: u64 = i64::MAX as u64;
        if t0 <= limit && t1 <= limit && t2 <= limit && t3 <= limit && t0 <= t3 && t1 <= t2
            && t2 - t1 <= t3 - t0 {
            let stats = ClockOffset::calculate(t0, t1, t2, t3);
            self.offset = stats.offset;
            self.rtt = stats.rtt;
            true
        } else {
            false
        }
    }

    /// The client's approximation of the current server time.
    pub fn server_now(&self, local_now: u64) -> (r: u64)
        requires
            local_now + self.offset <= u64::MAX,
        ensures
            r == spec_server_now(local_now, self.offset),
    {
        let shifted = local_now as i128 + self.offset as i128;
        if shifted >= 0 {
            shifted as u64
        } else {
            0
        }
    }

    /// React to one server message at local time `local_now`: a time
    /// response updates the sync estimates, a play command is armed,
    /// rendered live, or skipped when late, a pause and a resync are
    /// passed through.
    pub fn on_server_message(&mut self, msg: &ServerMessage, local_now: u64) -> (r: ClientAction)
        requires
            client_msg_fits(old(self).offset, msg@, local_now),
        ensures
            (final(self).offset, final(self).rtt) == spec_on_message_sync(
                old(self).offset,
                old(self).rtt,
                msg@,
                local_now,
            ),
            r@ == spec_on_message_action(old(self).offset, msg@, local_now),
            final(self).drift == old(self).drift,
            final(self).pid == old(self).pid,
            old(self).wf() ==> final(self).wf(),
    {
        match msg {
            ServerMessage::TimeResponse { t0, t1, t2, seq: _ } => {
                self.handle_time_response(*t0, *t1, *t2, local_now);
                ClientAction::Nothing
            },
            ServerMessage::PlayCommand {
                track_url,
                start_at_server_time,
                start_at_position_ms,
                server_time_at_broadcast: _,
            } => {
                let now_server = self.server_now(local_now);
                if *start_at_server_time == 0 {
                    ClientAction::PlayLive { track_url: track_url.clone() }
                } else if *start_at_server_time > now_server {
                    ClientAction::Play {
                        track_url: track_url.clone(),
                        start_at_position_ms: *start_at_position_ms,
                        wait_us: *start_at_server_time - now_server,
                    }
                } else {
                    ClientAction::Skipped
                }
            },
            ServerMessage::PauseCommand { server_time } => ClientAction::Pause {
                server_time: *server_time,
            },
            ServerMessage::SyncRequired => ClientAction::Resync,
            ServerMessage::Welcome { .. } => ClientAction::Nothing,
        }
    }

    /// Map one drift sample to the playback-rate multiplier (real rate
    /// times [`SCALE`]): the controller is fed the negated drift over the
    /// elapsed `dt` (seconds times [`SCALE`]) and the adjusted unit rate is
    /// hard-clamped into `[RATE_MIN, RATE_MAX]`.
    pub fn calculate_correction(&mut self, drift_ms: i64, dt: i64) -> (rate: i64)
        requires
            old(self).wf(),
            -DRIFT_LIMIT <= drift_ms <= DRIFT_LIMIT,
            0 <= dt <= PID_INPUT_LIMIT,
        ensures
            final(self).wf(),
            final(self).drift == drift_ms,
            final(self).offset == old(self).offset,
            final(self).rtt == old(self).rtt,
            ({
                let error = -drift_ms * SCALE;
                let integral = spec_pid_integral(
                    old(self).pid.spec_integral() as int,
                    error as int,
                    dt as int,
                );
                let output = spec_pid_output(
                    old(self).pid.spec_kp() as int,
                    old(self).pid.spec_ki() as int,
                    old(self).pid.spec_kd() as int,
                    error as int,
                    integral,
                    spec_pid_derivative(error as int, old(self).pid.spec_last_error() as int, dt as int),
                );
                &&& final(self).pid.spec_integral() == integral
                &&& final(self).pid.spec_last_error() == error
                &&& rate == clamp_int(SCALE + output, RATE_MIN as int, RATE_MAX as int)
            }),
            RATE_MIN <= rate <= RATE_MAX,
    {
        self.drift = drift_ms;
        let error = -drift_ms * SCALE;
        let output = self.pid.next(error, dt);
        let raw = SCALE as i128 + output as i128;
        let rate = if raw < RATE_MIN as i128 {
            RATE_MIN
        } else if raw > RATE_MAX as i128 {
            RATE_MAX
        } else {
            raw as i64
        };
        rate
    }

    /// Zero the drift controller; called on any discontinuous jump such
    /// as a seek or a resync after a large offset change.
    pub fn reset_correction(&mut self)
        ensures
            final(self).pid.spec_integral() == 0,
            final(self).pid.spec_last_error() == 0,
            final(self).offset == old(self).offset,
            final(self).rtt == old(self).rtt,
            final(self).drift == old(self).drift,
            old(self).wf() ==> final(self).wf(),
    {
        self.pid.reset();
    }
}

/// The sum of a burst of offset samples.
pub open spec fn spec_sum(s: Seq<i64>) -> int
    decreases s.len(),
{
    if s.len() == 0 {
        0
    } else {
        spec_sum(s.drop_last()) + s.last()
    }
}

/// The mean offset of a burst of samples, rounded towards zero: the
/// aggregate a sync burst installs when it uses the mean policy.
pub fn mean_offset(samples: &Vec<i64>) -> (r: i64)
    requires
        samples@.len() > 0,
    ensures
        r == div_trunc(spec_sum(samples@), samples@.len() as int),
{
    let n = samples.len();
    let mut sum: i128 = 0;
    let mut i: usize = 0;
    proof {
        assert(samples@.subrange(0, 0) =~= Seq::<i64>::empty());
    }
    while i < n
        invariant
            n == samples@.len(),
            i <= n,
            sum == spec_sum(samples@.subrange(0, i as int)),
            -(i as int) * 0x8000_0000_0000_0000 <= sum <= (i as int) * 0x7fff_ffff_ffff_ffff,
        decreases n - i,
    {
        proof {
            assert(samples@.subrange(0, i + 1).drop_last() =~= samples@.subrange(0, i as int));
            assert((i as int + 1) * 0x8000_0000_0000_0000
                == (i as int) * 0x8000_0000_0000_0000 + 0x8000_0000_0000_0000) by (nonlinear_arith);
            assert((i as int + 1) * 0x7fff_ffff_ffff_ffff
                == (i as int) * 0x7fff_ffff_ffff_ffff + 0x7fff_ffff_ffff_ffff) by (nonlinear_arith);
        }
        sum = sum + samples[i] as i128;
        i = i + 1;
    }
    proof {
        assert(samples@.subrange(0, n as int) =~= samples@);
        lemma_mean_fits(spec_sum(samples@), n as int);
        assert((n as int) < 0x1_0000_0000_0000_0000);
    }
    crate::pid::div_trunc_i128(sum, n as i128) as i64
}

/// A sum of `n` 64-bit samples, divided by `n`, lands back in 64-bit
/// range.
proof fn lemma_mean_fits(sum: int, n: int)
    requires
        n > 0,
        n < 0x1_0000_0000_0000_0000,
        -n * 0x8000_0000_0000_0000 <= sum <= n * 0x7fff_ffff_ffff_ffff,
    ensures
        -0x8000_0000_0000_0000 <= div_trunc(sum, n) <= 0x7fff_ffff_ffff_ffff,
        sum > -0x8000_0000_0000_0000_0000_0000_0000_0000,
{
    if sum >= 0 {
        assert(sum / n <= 0x7fff_ffff_ffff_ffff) by (nonlinear_arith)
            requires n > 0, 0 <= sum <= n * 0x7fff_ffff_ffff_ffff
        ;
    } else {
        assert((-sum) / n <= 0x8000_0000_0000_0000) by (nonlinear_arith)
            requires n > 0, 0 <= -sum <= n * 0x8000_0000_0000_0000
        ;
    }
    assert(n * 0x8000_0000_0000_0000 < 0x8000_0000_0000_0000_0000_0000_0000_0000) by (nonlinear_arith)
        requires 0 < n < 0x1_0000_0000_0000_0000
    ;
}

} // verus!
