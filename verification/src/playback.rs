//! The server's authoritative playback state and its control operations.

use vstd::prelude::*;
use crate::messages::{ControlCommand, ControlCommandV, ServerMessage, ServerMessageV, opt_msg_view};

verus! {

/// Authoritative playback state, one instance per server. The effective
/// position at any server time `t >= last_update_time` is
/// `position_ms + (is_playing ? (t - last_update_time) / 1000 : 0)`.
#[derive(Debug, Clone, PartialEq, Eq)]
pub struct PlaybackState {
    /// Whether playback is running.
    pub is_playing: bool,
    /// The selected track; empty means none, `"live"` means live capture.
    pub track_url: String,
    /// The track position, in milliseconds, authoritative at
    /// `last_update_time`.
    pub position_ms: u64,
    /// Server time, in microseconds, when `position_ms` was last refreshed.
    pub last_update_time: u64,
}

/// The mathematical view of a `PlaybackState`.
pub struct PlaybackStateV {
    pub is_playing: bool,
    pub track_url: Seq<char>,
    pub position_ms: u64,
    pub last_update_time: u64,
}

impl View for PlaybackState {
    type V = PlaybackStateV;

    open spec fn view(&self) -> PlaybackStateV {
        PlaybackStateV {
            is_playing: self.is_playing,
            track_url: self.track_url@,
            position_ms: self.position_ms,
            last_update_time: self.last_update_time,
        }
    }
}

/// The effective playback position at server time `now`, per the state
/// invariant: the stored position, advanced by the elapsed wall time only
/// while playing.
pub open spec fn spec_position_at(s: PlaybackStateV, now: int) -> int {
    if s.is_playing {
        s.position_ms + (now - s.last_update_time) / 1000
    } else {
        s.position_ms as int
    }
}

/// The state after `Play { start_at_ms, .. }` at server time `now`.
pub open spec fn spec_play_state(s: PlaybackStateV, start_at_ms: u64, now: u64) -> PlaybackStateV {
    PlaybackStateV { is_playing: true, position_ms: start_at_ms, last_update_time: now, ..s }
}

/// The `PlayCommand` broadcast by `Play { start_at_ms, delay_ms }` at
/// server time `now`: an empty track selection is substituted by the
/// hosted-file streaming sentinel.
pub open spec fn spec_play_message(s: PlaybackStateV, start_at_ms: u64, delay_ms: u64, now: u64) -> ServerMessageV {
    ServerMessageV::PlayCommand {
        track_url: if s.track_url.len() == 0 {
            "stream"@
        } else {
            s.track_url
        },
        start_at_server_time: (now + delay_ms * 1000) as u64,
        start_at_position_ms: start_at_ms,
        server_time_at_broadcast: now,
    }
}

/// The state after `Pause` at server time `now`: while playing, the
/// position advances by the elapsed milliseconds so the effective position
/// is preserved.
pub open spec fn spec_pause_state(s: PlaybackStateV, now: u64) -> PlaybackStateV {
    PlaybackStateV {
        is_playing: false,
        position_ms: if s.is_playing {
            (s.position_ms + (now - s.last_update_time) / 1000) as u64
        } else {
            s.position_ms
        },
        last_update_time: now,
        ..s
    }
}

/// The `PauseCommand` broadcast by `Pause` at server time `now`.
pub open spec fn spec_pause_message(now: u64) -> ServerMessageV {
    ServerMessageV::PauseCommand { server_time: now }
}

/// The state after `Seek { position_ms }` at server time `now`.
pub open spec fn spec_seek_state(s: PlaybackStateV, position_ms: u64, now: u64) -> PlaybackStateV {
    PlaybackStateV { position_ms, last_update_time: now, ..s }
}

/// The resync window, in microseconds, granted to peers after a seek
/// while playing.
pub const SEEK_RESYNC_US: u64 = 500_000;

/// The `PlayCommand` broadcast by `Seek { position_ms }` at server time
/// `now` while playing.
pub open spec fn spec_seek_message(s: PlaybackStateV, position_ms: u64, now: u64) -> ServerMessageV {
    ServerMessageV::PlayCommand {
        track_url: s.track_url,
        start_at_server_time: (now + SEEK_RESYNC_US) as u64,
        start_at_position_ms: position_ms,
        server_time_at_broadcast: now,
    }
}

/// The message a control command at server time `now` publishes on the
/// control bus, if any: a paused seek publishes nothing.
pub open spec fn spec_command_message(s: PlaybackStateV, cmd: ControlCommandV, now: u64) -> Option<ServerMessageV> {
    match cmd {
        ControlCommandV::Play { start_at_ms, delay_ms } => Some(
            spec_play_message(s, start_at_ms, delay_ms, now),
        ),
        ControlCommandV::Pause => Some(spec_pause_message(now)),
        ControlCommandV::Seek { position_ms } => if s.is_playing {
            Some(spec_seek_message(s, position_ms, now))
        } else {
            None
        },
    }
}

/// The state a control command at server time `now` leaves behind.
pub open spec fn spec_command_state(s: PlaybackStateV, cmd: ControlCommandV, now: u64) -> PlaybackStateV {
    match cmd {
        ControlCommandV::Play { start_at_ms, delay_ms } => spec_play_state(s, start_at_ms, now),
        ControlCommandV::Pause => spec_pause_state(s, now),
        ControlCommandV::Seek { position_ms } => spec_seek_state(s, position_ms, now),
    }
}

/// The arithmetic room a control command needs at server time `now`:
/// the start instant and the advanced position must fit in 64 bits.
pub open spec fn command_fits(s: PlaybackStateV, cmd: ControlCommandV, now: u64) -> bool {
    match cmd {
        ControlCommandV::Play { start_at_ms, delay_ms } => now + delay_ms * 1000 <= u64::MAX,
        ControlCommandV::Pause => s.position_ms + (now - s.last_update_time) / 1000 <= u64::MAX,
        ControlCommandV::Seek { position_ms } => now + SEEK_RESYNC_US <= u64::MAX,
    }
}

impl PlaybackState {
    /// The idle state a fresh server starts in: nothing selected, paused
    /// at position zero.
    pub fn new() -> (r: Self)
        ensures
            !r.is_playing,
            r.track_url@ == Seq::<char>::empty(),
            r.position_ms == 0,
            r.last_update_time == 0,
    {
        PlaybackState {
            is_playing: false,
            track_url: String::new(),
            position_ms: 0,
            last_update_time: 0,
        }
    }

    /// The effective playback position at server time `now`, in
    /// milliseconds.
    pub fn position_at(&self, now: u64) -> (r: u64)
        requires
            now >= self.last_update_time,
            spec_position_at(self@, now as int) <= u64::MAX,
        ensures
            r == spec_position_at(self@, now as int),
    {
        if self.is_playing {
            self.position_ms + (now - self.last_update_time) / 1000
        } else {
            self.position_ms
        }
    }

    /// Whether the effective position at server time `now` fits in
    /// 64 bits, which `position_at` expects.
    pub fn position_fits(&self, now: u64) -> (r: bool)
        requires
            now >= self.last_update_time,
        ensures
            r == (spec_position_at(self@, now as int) <= u64::MAX),
    {
        if self.is_playing {
            let elapsed_ms = (now - self.last_update_time) / 1000;
            self.position_ms <= u64::MAX - elapsed_ms
        } else {
            true
        }
    }

    /// Whether a control command's arithmetic fits at server time `now`,
    /// which `process_control_command` expects.
    pub fn command_fits_at(&self, cmd: &ControlCommand, now: u64) -> (r: bool)
        requires
            now >= self.last_update_time,
        ensures
            r == command_fits(self@, cmd@, now),
    {
        match cmd {
            ControlCommand::Play { start_at_ms: _, delay_ms } => {
                let cap = (u64::MAX - now) / 1000;
                let r = *delay_ms <= cap;
                proof {
                    let d = *delay_ms as int;
                    let q = u64::MAX - now;
                    if d <= q / 1000 {
                        assert(d * 1000 <= q) by (nonlinear_arith)
                            requires 0 <= d <= q / 1000, q >= 0
                        ;
                    } else {
                        assert(d * 1000 > q) by (nonlinear_arith)
                            requires d > q / 1000, q >= 0, d >= 0
                        ;
                    }
                }
                r
            },
            ControlCommand::Pause => {
                let elapsed_ms = (now - self.last_update_time) / 1000;
                self.position_ms <= u64::MAX - elapsed_ms
            },
            ControlCommand::Seek { position_ms: _ } => now <= u64::MAX - SEEK_RESYNC_US,
        }
    }

    /// Select the track the next play operation will broadcast.
    pub fn set_track_url(&mut self, track_url: String)
        ensures
            final(self)@ == (PlaybackStateV { track_url: track_url@, ..old(self)@ }),
    {
        self.track_url = track_url;
    }

    /// Run one control operation at server time `now`: update the state
    /// and return the message to publish on the control bus, if any.
    pub fn process_control_command(&mut self, cmd: &ControlCommand, now: u64) -> (r: Option<ServerMessage>)
        requires
            now >= old(self).last_update_time,
            command_fits(old(self)@, cmd@, now),
        ensures
            final(self)@ == spec_command_state(old(self)@, cmd@, now),
            opt_msg_view(r) == spec_command_message(old(self)@, cmd@, now),
            final(self).last_update_time == now,
            r matches Some(m) ==> m@.well_anchored() && !m@.is_welcome(),
    {
        match cmd {
            ControlCommand::Play { start_at_ms, delay_ms } => {
                self.is_playing = true;
                self.position_ms = *start_at_ms;
                self.last_update_time = now;
                let start_at_server_time = now + *delay_ms * 1000;
                let track_url = if self.track_url.as_str().is_empty() {
                    "stream".to_owned()
                } else {
                    self.track_url.clone()
                };
                Some(ServerMessage::PlayCommand {
                    track_url,
                    start_at_server_time,
                    start_at_position_ms: *start_at_ms,
                    server_time_at_broadcast: now,
                })
            },
            ControlCommand::Pause => {
                if self.is_playing {
                    let elapsed_micros = now - self.last_update_time;
                    self.position_ms = self.position_ms + elapsed_micros / 1000;
                }
                self.is_playing = false;
                self.last_update_time = now;
                Some(ServerMessage::PauseCommand { server_time: now })
            },
            ControlCommand::Seek { position_ms } => {
                self.position_ms = *position_ms;
                self.last_update_time = now;
                if self.is_playing {
                    Some(ServerMessage::PlayCommand {
                        track_url: self.track_url.clone(),
                        start_at_server_time: now + SEEK_RESYNC_US,
                        start_at_position_ms: *position_ms,
                        server_time_at_broadcast: now,
                    })
                } else {
                    None
                }
            },
        }
    }

    /// Enter live-capture mode at server time `now` and return the
    /// broadcast that announces it, whose start instant of zero tells
    /// clients to render chunks as they arrive.
    pub fn start_live(&mut self, now: u64) -> (r: ServerMessage)
        requires
            now >= old(self).last_update_time,
        ensures
            final(self).last_update_time >= old(self).last_update_time,
            final(self)@ == (PlaybackStateV {
                is_playing: true,
                track_url: "live"@,
                position_ms: 0u64,
                last_update_time: now,
            }),
            r@ == (ServerMessageV::PlayCommand {
                track_url: "live"@,
                start_at_server_time: 0u64,
                start_at_position_ms: 0u64,
                server_time_at_broadcast: now,
            }),
            r@.well_anchored() && !r@.is_welcome(),
    {
        self.is_playing = true;
        self.track_url = "live".to_owned();
        self.position_ms = 0;
        self.last_update_time = now;
        ServerMessage::PlayCommand {
            track_url: "live".to_owned(),
            start_at_server_time: 0,
            start_at_position_ms: 0,
            server_time_at_broadcast: now,
        }
    }

    /// Leave live-capture mode at server time `now` and return the pause
    /// broadcast that announces it.
    pub fn stop_live(&mut self, now: u64) -> (r: ServerMessage)
        ensures
            final(self)@ == (PlaybackStateV { is_playing: false, ..old(self)@ }),
            r@ == spec_pause_message(now),
            r@.well_anchored() && !r@.is_welcome(),
    {
        self.is_playing = false;
        ServerMessage::PauseCommand { server_time: now }
    }

    /// Whether the state is in live-capture mode.
    pub fn is_live(&self) -> (r: bool)
        ensures
            r == (self.track_url@ == "live"@),
    {
        let live: String = "live".to_owned();
        self.track_url.eq(&live)
    }
}

/// Every control operation stamps the state with its own time, so under
/// the monotone server clock `last_update_time` never decreases.
pub proof fn lemma_update_time_monotone(s: PlaybackStateV, cmd: ControlCommandV, now: u64)
    requires
        now >= s.last_update_time,
    ensures
        spec_command_state(s, cmd, now).last_update_time == now >= s.last_update_time,
{
}

/// Pausing preserves the effective position: at any time `t` after the
/// pause, the paused state reports the position the playing state had at
/// the instant of the pause.
pub proof fn lemma_pause_preserves_position(s: PlaybackStateV, now: u64, t: int)
    requires
        now >= s.last_update_time,
        t >= now,
        spec_position_at(s, now as int) <= u64::MAX,
    ensures
        spec_position_at(spec_pause_state(s, now), t) == spec_position_at(s, now as int),
{
}

/// The position invariant across every control operation: immediately
/// after an operation at time `now`, the effective position is the stored
/// one; a pause keeps the effective position the play had; and a play or
/// seek restarts it from the requested position.
pub proof fn lemma_position_invariant(s: PlaybackStateV, cmd: ControlCommandV, now: u64)
    requires
        now >= s.last_update_time,
        command_fits(s, cmd, now),
    ensures
        spec_position_at(spec_command_state(s, cmd, now), now as int)
            == spec_command_state(s, cmd, now).position_ms,
        cmd is Pause ==> spec_position_at(spec_command_state(s, cmd, now), now as int)
            == spec_position_at(s, now as int),
        cmd matches ControlCommandV::Play { start_at_ms, .. }
            ==> spec_position_at(spec_command_state(s, cmd, now), now as int) == start_at_ms,
        cmd matches ControlCommandV::Seek { position_ms }
            ==> spec_position_at(spec_command_state(s, cmd, now), now as int) == position_ms,
{
}

/// Playing, then pausing, then reading the position: the result is the
/// requested start position plus the milliseconds the track played, exact
/// to within the one millisecond lost to integer division.
pub proof fn lemma_play_pause_position(s: PlaybackStateV, start_at_ms: u64, t_play: u64, t_pause: u64, t_read: int)
    requires
        t_play >= s.last_update_time,
        t_pause >= t_play,
        t_read >= t_pause,
        start_at_ms + (t_pause - t_play) / 1000 <= u64::MAX,
    ensures
        ({
            let played = spec_play_state(s, start_at_ms, t_play);
            let paused = spec_pause_state(played, t_pause);
            let pos = spec_position_at(paused, t_read);
            &&& pos == start_at_ms + (t_pause - t_play) / 1000
            &&& 1000 * (pos - start_at_ms) <= t_pause - t_play < 1000 * (pos - start_at_ms) + 1000
        }),
{
    let e = t_pause - t_play;
    assert(1000 * (e / 1000) <= e < 1000 * (e / 1000) + 1000) by (nonlinear_arith)
        requires e >= 0
    ;
}

/// Every message a control operation publishes is well-anchored: its start
/// instant, when it has one and is not the live sentinel, does not precede
/// the broadcast instant. No operation ever publishes a `Welcome`.
pub proof fn lemma_command_messages_anchored(s: PlaybackStateV, cmd: ControlCommandV, now: u64)
    requires
        command_fits(s, cmd, now),
    ensures
        spec_command_message(s, cmd, now) matches Some(m) ==> m.well_anchored() && !m.is_welcome(),
{
}

} // verus!
