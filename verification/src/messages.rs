//! The wire protocol's closed message unions: client-to-server,
//! server-to-client, and the host's control commands.
//!
//! Each executable type carries a mathematical view (`@`) in which every
//! string is a `Seq<char>`; all contracts in this crate speak over these
//! views.

use vstd::prelude::*;

verus! {

/// A control operation the host issues against the authoritative
/// playback state.
#[derive(Debug, Clone, PartialEq, Eq)]
pub enum ControlCommand {
    /// Start playback at track position `start_at_ms`, `delay_ms`
    /// milliseconds from now.
    Play { start_at_ms: u64, delay_ms: u64 },
    /// Stop playback, preserving the effective position.
    Pause,
    /// Move the authoritative position to `position_ms`.
    Seek { position_ms: u64 },
}

/// The mathematical view of a `ControlCommand`.
pub enum ControlCommandV {
    Play { start_at_ms: u64, delay_ms: u64 },
    Pause,
    Seek { position_ms: u64 },
}

impl View for ControlCommand {
    type V = ControlCommandV;

    open spec fn view(&self) -> ControlCommandV {
        match self {
            ControlCommand::Play { start_at_ms, delay_ms } => ControlCommandV::Play {
                start_at_ms: *start_at_ms,
                delay_ms: *delay_ms,
            },
            ControlCommand::Pause => ControlCommandV::Pause,
            ControlCommand::Seek { position_ms } => ControlCommandV::Seek {
                position_ms: *position_ms,
            },
        }
    }
}

/// A message a client sends to the server.
#[derive(Debug, Clone, PartialEq, Eq)]
pub enum ClientMessage {
    /// Associate this session with a device identifier (observational).
    Join { device_id: String },
    /// One time-synchronization round; `t0` is the client send time.
    TimeRequest { t0: u64, seq: u8 },
    /// Self-reported sync quality, stored on the peer record.
    Telemetry { rtt: u64, offset: i64, drift: i64, status: String },
    /// Ask the server to broadcast playback of a track.
    PlayRequest { track_url: String, delay_ms: u64 },
    /// Ask the server to run a control operation.
    CommandRequest { cmd: ControlCommand },
}

/// The mathematical view of a `ClientMessage`.
pub enum ClientMessageV {
    Join { device_id: Seq<char> },
    TimeRequest { t0: u64, seq: u8 },
    Telemetry { rtt: u64, offset: i64, drift: i64, status: Seq<char> },
    PlayRequest { track_url: Seq<char>, delay_ms: u64 },
    CommandRequest { cmd: ControlCommandV },
}

impl View for ClientMessage {
    type V = ClientMessageV;

    open spec fn view(&self) -> ClientMessageV {
        match self {
            ClientMessage::Join { device_id } => ClientMessageV::Join { device_id: device_id@ },
            ClientMessage::TimeRequest { t0, seq } => ClientMessageV::TimeRequest {
                t0: *t0,
                seq: *seq,
            },
            ClientMessage::Telemetry { rtt, offset, drift, status } => ClientMessageV::Telemetry {
                rtt: *rtt,
                offset: *offset,
                drift: *drift,
                status: status@,
            },
            ClientMessage::PlayRequest { track_url, delay_ms } => ClientMessageV::PlayRequest {
                track_url: track_url@,
                delay_ms: *delay_ms,
            },
            ClientMessage::CommandRequest { cmd } => ClientMessageV::CommandRequest { cmd: cmd@ },
        }
    }
}

/// A message the server sends to a client.
#[derive(Debug, Clone, PartialEq, Eq)]
pub enum ServerMessage {
    /// First frame of every session: the assigned session identifier.
    Welcome { session_id: String },
    /// Reply to a `TimeRequest`: `t1` server receive time, `t2` server
    /// transmit time, echoing `t0` and `seq`.
    TimeResponse { t0: u64, t1: u64, t2: u64, seq: u8 },
    /// Start playing `track_url` at `start_at_position_ms` when the server
    /// clock reaches `start_at_server_time` (zero means render immediately,
    /// used for live capture).
    PlayCommand {
        track_url: String,
        start_at_server_time: u64,
        start_at_position_ms: u64,
        server_time_at_broadcast: u64,
    },
    /// Stop playing; `server_time` records when the pause happened.
    PauseCommand { server_time: u64 },
    /// Directs the client to restart time synchronization.
    SyncRequired,
}

/// The mathematical view of a `ServerMessage`.
pub enum ServerMessageV {
    Welcome { session_id: Seq<char> },
    TimeResponse { t0: u64, t1: u64, t2: u64, seq: u8 },
    PlayCommand {
        track_url: Seq<char>,
        start_at_server_time: u64,
        start_at_position_ms: u64,
        server_time_at_broadcast: u64,
    },
    PauseCommand { server_time: u64 },
    SyncRequired,
}

impl View for ServerMessage {
    type V = ServerMessageV;

    open spec fn view(&self) -> ServerMessageV {
        match self {
            ServerMessage::Welcome { session_id } => ServerMessageV::Welcome {
                session_id: session_id@,
            },
            ServerMessage::TimeResponse { t0, t1, t2, seq } => ServerMessageV::TimeResponse {
                t0: *t0,
                t1: *t1,
                t2: *t2,
                seq: *seq,
            },
            ServerMessage::PlayCommand {
                track_url,
                start_at_server_time,
                start_at_position_ms,
                server_time_at_broadcast,
            } => ServerMessageV::PlayCommand {
                track_url: track_url@,
                start_at_server_time: *start_at_server_time,
                start_at_position_ms: *start_at_position_ms,
                server_time_at_broadcast: *server_time_at_broadcast,
            },
            ServerMessage::PauseCommand { server_time } => ServerMessageV::PauseCommand {
                server_time: *server_time,
            },
            ServerMessage::SyncRequired => ServerMessageV::SyncRequired,
        }
    }
}

impl ServerMessageV {
    /// Whether this message is the session greeting.
    pub open spec fn is_welcome(self) -> bool {
        self matches ServerMessageV::Welcome { .. }
    }

    /// A `PlayCommand` is well-anchored when its start instant does not
    /// precede the broadcast instant, except for the live-mode sentinel
    /// start instant of zero; every other message is trivially so.
    pub open spec fn well_anchored(self) -> bool {
        match self {
            ServerMessageV::PlayCommand { start_at_server_time, server_time_at_broadcast, .. } => {
                start_at_server_time == 0 || start_at_server_time >= server_time_at_broadcast
            },
            _ => true,
        }
    }
}

/// The view of an optional server message.
pub open spec fn opt_msg_view(r: Option<ServerMessage>) -> Option<ServerMessageV> {
    match r {
        Some(m) => Some(m@),
        None => None,
    }
}

} // verus!
