//! Peer sessions: the registry of connected peers, the connect-time
//! greeting and state relay, and the dispatch of inbound client messages.

use vstd::prelude::*;
use crate::messages::{ClientMessage, ClientMessageV, ServerMessage, ServerMessageV, opt_msg_view};
use crate::playback::{
    PlaybackState, PlaybackStateV, command_fits, spec_command_message, spec_command_state,
    spec_position_at,
};

verus! {

/// How a session encodes its frames: compact binary for devices, the
/// self-describing text form for dashboards.
#[derive(Debug, Clone, Copy, PartialEq, Eq, Structural)]
pub enum PeerKind {
    Peer,
    Dashboard,
}

/// One connected peer session.
#[derive(Debug, Clone, PartialEq, Eq)]
pub struct Peer {
    /// Unique identifier the server assigned at connect.
    pub session_id: String,
    /// Transport address, kept for diagnostics.
    pub remote_addr: String,
    /// Most recent round-trip time the client reported (observability).
    pub last_rtt: u64,
    /// Most recent offset the client reported (observability).
    pub last_offset: i64,
    /// The encoding negotiated at connect.
    pub kind: PeerKind,
}

/// The mathematical view of a `Peer`.
pub struct PeerV {
    pub session_id: Seq<char>,
    pub remote_addr: Seq<char>,
    pub last_rtt: u64,
    pub last_offset: i64,
    pub kind: PeerKind,
}

impl View for Peer {
    type V = PeerV;

    open spec fn view(&self) -> PeerV {
        PeerV {
            session_id: self.session_id@,
            remote_addr: self.remote_addr@,
            last_rtt: self.last_rtt,
            last_offset: self.last_offset,
            kind: self.kind,
        }
    }
}

/// Whether some registered peer carries the given session identifier.
pub open spec fn spec_contains(s: Seq<PeerV>, id: Seq<char>) -> bool {
    exists|i: int| 0 <= i < s.len() && s[i].session_id == id
}

/// The index of the peer carrying the given session identifier; meaningful
/// only under [`spec_contains`] and the registry's uniqueness invariant.
pub open spec fn spec_index_of(s: Seq<PeerV>, id: Seq<char>) -> int {
    choose|i: int| 0 <= i < s.len() && s[i].session_id == id
}

/// The set of active peer sessions, keyed by session identifier.
/// Identifiers are unique; inserts replace, removals drop the entry.
#[derive(Debug)]
pub struct PeerRegistry {
    peers: Vec<Peer>,
}

impl View for PeerRegistry {
    type V = Seq<PeerV>;

    closed spec fn view(&self) -> Seq<PeerV> {
        self.peers@.map(|i: int, p: Peer| p@)
    }
}

impl PeerRegistry {
    /// Registered session identifiers are pairwise distinct; established
    /// at construction and preserved by every operation.
    pub open spec fn wf(self) -> bool {
        forall|i: int, j: int|
            0 <= i < j < self@.len() ==> self@[i].session_id != self@[j].session_id
    }

    /// An empty registry.
    pub fn new() -> (r: Self)
        ensures
            r@ == Seq::<PeerV>::empty(),
            r.wf(),
    {
        let r = PeerRegistry { peers: Vec::new() };
        proof {
            assert(r@ =~= Seq::<PeerV>::empty());
        }
        r
    }

    /// How many peers are connected.
    pub fn len(&self) -> (r: usize)
        ensures
            r == self@.len(),
    {
        self.peers.len()
    }

    /// The position of the peer with the given identifier, scanning from
    /// the front; `None` when no peer carries it.
    fn find_index(&self, session_id: &String) -> (r: Option<usize>)
        ensures
            match r {
                Some(j) => j < self@.len() && self@[j as int].session_id == session_id@
                    && forall|k: int| 0 <= k < j ==> self@[k].session_id != session_id@,
                None => forall|k: int|
                    0 <= k < self@.len() ==> self@[k].session_id != session_id@,
            },
    {
        let n = self.peers.len();
        let mut j: usize = 0;
        while j < n
            invariant
                n == self@.len(),
                j <= n,
                forall|k: int| 0 <= k < j ==> self@[k].session_id != session_id@,
            decreases n - j,
        {
            if self.peers[j].session_id.eq(session_id) {
                return Some(j);
            }
            j = j + 1;
        }
        None
    }

    /// Whether a peer with the given identifier is registered.
    pub fn contains(&self, session_id: &String) -> (r: bool)
        ensures
            r == spec_contains(self@, session_id@),
    {
        self.find_index(session_id).is_some()
    }

    /// Register a peer: a fresh identifier is appended, a known one has
    /// its record replaced. Returns whether the identifier was fresh.
    pub fn register(&mut self, peer: Peer) -> (fresh: bool)
        requires
            old(self).wf(),
        ensures
            final(self).wf(),
            fresh == !spec_contains(old(self)@, peer@.session_id),
            if fresh {
                final(self)@ == old(self)@.push(peer@)
            } else {
                final(self)@ == old(self)@.update(
                    spec_index_of(old(self)@, peer@.session_id),
                    peer@,
                )
            },
    {
        let found = self.find_index(&peer.session_id);
        match found {
            Some(j) => {
                proof {
                    let s = self@;
                    let id = peer@.session_id;
                    assert(spec_contains(s, id));
                    let w = spec_index_of(s, id);
                    assert(0 <= w < s.len() && s[w].session_id == id);
                    assert(w == j as int);
                }
                self.peers.set(j, peer);
                proof {
                    assert(final(self)@ =~= old(self)@.update(j as int, peer@));
                }
                false
            },
            None => {
                self.peers.push(peer);
                proof {
                    assert(final(self)@ =~= old(self)@.push(peer@));
                }
                true
            },
        }
    }

    /// Drop the peer with the given identifier on disconnect; returns
    /// whether it was registered.
    pub fn remove(&mut self, session_id: &String) -> (removed: bool)
        requires
            old(self).wf(),
        ensures
            final(self).wf(),
            removed == spec_contains(old(self)@, session_id@),
            if removed {
                final(self)@ == old(self)@.remove(spec_index_of(old(self)@, session_id@))
            } else {
                final(self)@ == old(self)@
            },
    {
        let found = self.find_index(session_id);
        match found {
            Some(j) => {
                proof {
                    let s = self@;
                    let id = session_id@;
                    assert(spec_contains(s, id));
                    let w = spec_index_of(s, id);
                    assert(0 <= w < s.len() && s[w].session_id == id);
                    assert(w == j as int);
                }
                self.peers.remove(j);
                proof {
                    assert(final(self)@ =~= old(self)@.remove(j as int));
                }
                true
            },
            None => {
                proof {
                    assert(final(self)@ =~= old(self)@);
                }
                false
            },
        }
    }

    /// Store the telemetry a client reported on its peer record; a report
    /// from an unknown session is dropped.
    pub fn set_telemetry(&mut self, session_id: &String, rtt: u64, offset: i64)
        requires
            old(self).wf(),
        ensures
            final(self).wf(),
            final(self)@ == spec_set_telemetry(old(self)@, session_id@, rtt, offset),
    {
        let found = self.find_index(session_id);
        match found {
            Some(j) => {
                proof {
                    let s = self@;
                    let id = session_id@;
                    assert(spec_contains(s, id));
                    let w = spec_index_of(s, id);
                    assert(0 <= w < s.len() && s[w].session_id == id);
                    assert(w == j as int);
                }
                let old_peer = &self.peers[j];
                let updated = Peer {
                    session_id: old_peer.session_id.clone(),
                    remote_addr: old_peer.remote_addr.clone(),
                    last_rtt: rtt,
                    last_offset: offset,
                    kind: old_peer.kind,
                };
                self.peers.set(j, updated);
                proof {
                    assert(final(self)@ =~= spec_set_telemetry(old(self)@, session_id@, rtt, offset));
                }
            },
            None => {
                proof {
                    assert(final(self)@ =~= old(self)@);
                }
            },
        }
    }
}

/// The registry contents after a telemetry report: the matching record,
/// if any, with its two observability fields refreshed.
pub open spec fn spec_set_telemetry(s: Seq<PeerV>, id: Seq<char>, rtt: u64, offset: i64) -> Seq<PeerV> {
    if spec_contains(s, id) {
        let j = spec_index_of(s, id);
        s.update(j, PeerV { last_rtt: rtt, last_offset: offset, ..s[j] })
    } else {
        s
    }
}

/// Relies on `uuid::Uuid::new_v4` and its `Display` form: a freshly drawn
/// random identifier rendered as the 36-character hyphenated text form.
/// Nothing is assumed about which identifier comes back.
#[verifier::external_body]
fn fresh_session_id() -> (r: String)
    ensures
        r@.len() == 36,
{
    uuid::Uuid::new_v4().to_string()
}

/// The frames a session is owed at connect, after the server assigned
/// `session_id` at server time `now`: the greeting first, then, while
/// playing, the state relay that lets a late joiner catch up at the
/// current effective position, starting immediately.
pub open spec fn spec_connect_frames(s: PlaybackStateV, session_id: Seq<char>, now: u64) -> Seq<ServerMessageV> {
    let greeting = seq![ServerMessageV::Welcome { session_id }];
    if s.is_playing {
        greeting.push(
            ServerMessageV::PlayCommand {
                track_url: s.track_url,
                start_at_server_time: now,
                start_at_position_ms: spec_position_at(s, now as int) as u64,
                server_time_at_broadcast: now,
            },
        )
    } else {
        greeting
    }
}

/// Build the connect-time frames for a new session: `Welcome` first, then
/// the state relay while playing.
pub fn connect_frames(pb: &PlaybackState, session_id: String, now: u64) -> (r: Vec<ServerMessage>)
    requires
        now >= pb.last_update_time,
        spec_position_at(pb@, now as int) <= u64::MAX,
    ensures
        r@.map(|i: int, m: ServerMessage| m@) == spec_connect_frames(pb@, session_id@, now),
        r@.len() >= 1,
        r@[0]@ == (ServerMessageV::Welcome { session_id: session_id@ }),
        forall|i: int| 0 < i < r@.len() ==> !(#[trigger] r@[i]@).is_welcome(),
        forall|i: int| 0 <= i < r@.len() ==> (#[trigger] r@[i]@).well_anchored(),
    {
    let mut frames: Vec<ServerMessage> = Vec::new();
    frames.push(ServerMessage::Welcome { session_id });
    if pb.is_playing {
        let current_pos = pb.position_at(now);
        frames.push(ServerMessage::PlayCommand {
            track_url: pb.track_url.clone(),
            start_at_server_time: now,
            start_at_position_ms: current_pos,
            server_time_at_broadcast: now,
        });
    }
    proof {
        assert(frames@.map(|i: int, m: ServerMessage| m@) =~= spec_connect_frames(pb@, session_id@, now));
        assert(frames@[0]@ == frames@.map(|i: int, m: ServerMessage| m@)[0]);
    }
    frames
}

/// Accept one session: draw a fresh identifier, register the peer record,
/// and return the identifier with the frames owed at connect.
pub fn accept_peer(
    reg: &mut PeerRegistry,
    pb: &PlaybackState,
    remote_addr: String,
    kind: PeerKind,
    now: u64,
) -> (r: (String, Vec<ServerMessage>))
    requires
        old(reg).wf(),
        now >= pb.last_update_time,
        spec_position_at(pb@, now as int) <= u64::MAX,
    ensures
        final(reg).wf(),
        ({
            let (session_id, frames) = r;
            let peer = PeerV {
                session_id: session_id@,
                remote_addr: remote_addr@,
                last_rtt: 0u64,
                last_offset: 0i64,
                kind,
            };
            &&& frames@.map(|i: int, m: ServerMessage| m@) == spec_connect_frames(pb@, session_id@, now)
            &&& frames@[0]@ == (ServerMessageV::Welcome { session_id: session_id@ })
            &&& spec_contains(final(reg)@, session_id@)
            &&& if spec_contains(old(reg)@, session_id@) {
                final(reg)@ == old(reg)@.update(spec_index_of(old(reg)@, session_id@), peer)
            } else {
                final(reg)@ == old(reg)@.push(peer)
            }
        }),
{
    let session_id = fresh_session_id();
    let peer = Peer {
        session_id: session_id.clone(),
        remote_addr,
        last_rtt: 0,
        last_offset: 0,
        kind,
    };
    let ghost regv = reg@;
    reg.register(peer);
    proof {
        if spec_contains(regv, session_id@) {
            let w = spec_index_of(regv, session_id@);
            assert(final(reg)@[w].session_id == session_id@);
        } else {
            assert(final(reg)@[final(reg)@.len() - 1].session_id == session_id@);
        }
    }
    let frames = connect_frames(pb, session_id.clone(), now);
    (session_id, frames)
}

/// What an inbound client message leaves behind: the direct reply owed on
/// the same channel, if any, and the message to publish on the control
/// bus, if any.
pub struct Dispatch {
    pub reply: Option<ServerMessage>,
    pub broadcast: Option<ServerMessage>,
}

/// The direct reply an inbound message is owed: exactly the time requests
/// are answered, echoing `t0` and `seq` and carrying the two server clock
/// reads.
pub open spec fn spec_dispatch_reply(msg: ClientMessageV, t1: u64, t2: u64) -> Option<ServerMessageV> {
    match msg {
        ClientMessageV::TimeRequest { t0, seq } => Some(
            ServerMessageV::TimeResponse { t0, t1, t2, seq },
        ),
        _ => None,
    }
}

/// The broadcast an inbound message causes: a play request publishes a
/// `PlayCommand` starting `delay_ms` from now at position zero, and a
/// command request publishes what the control operation publishes.
pub open spec fn spec_dispatch_broadcast(s: PlaybackStateV, msg: ClientMessageV, now: u64) -> Option<ServerMessageV> {
    match msg {
        ClientMessageV::PlayRequest { track_url, delay_ms } => Some(
            ServerMessageV::PlayCommand {
                track_url,
                start_at_server_time: (now + delay_ms * 1000) as u64,
                start_at_position_ms: 0u64,
                server_time_at_broadcast: now,
            },
        ),
        ClientMessageV::CommandRequest { cmd } => spec_command_message(s, cmd, now),
        _ => None,
    }
}

/// The playback state an inbound message leaves behind: only a command
/// request changes it.
pub open spec fn spec_dispatch_state(s: PlaybackStateV, msg: ClientMessageV, now: u64) -> PlaybackStateV {
    match msg {
        ClientMessageV::CommandRequest { cmd } => spec_command_state(s, cmd, now),
        _ => s,
    }
}

/// The registry an inbound message leaves behind: only telemetry
/// touches it.
pub open spec fn spec_dispatch_registry(reg: Seq<PeerV>, id: Seq<char>, msg: ClientMessageV) -> Seq<PeerV> {
    match msg {
        ClientMessageV::Telemetry { rtt, offset, .. } => spec_set_telemetry(reg, id, rtt, offset),
        _ => reg,
    }
}

/// The arithmetic room an inbound message needs at server time `now`.
pub open spec fn dispatch_fits(s: PlaybackStateV, msg: ClientMessageV, now: u64) -> bool {
    match msg {
        ClientMessageV::PlayRequest { delay_ms, .. } => now + delay_ms * 1000 <= u64::MAX,
        ClientMessageV::CommandRequest { cmd } => command_fits(s, cmd, now),
        _ => true,
    }
}

/// Whether an inbound message's arithmetic fits at server time `now`,
/// which `handle_client_message` expects.
pub fn dispatch_fits_at(pb: &PlaybackState, msg: &ClientMessage, now: u64) -> (r: bool)
    requires
        now >= pb.last_update_time,
    ensures
        r == dispatch_fits(pb@, msg@, now),
{
    match msg {
        ClientMessage::PlayRequest { track_url: _, delay_ms } => {
            let cap = (u64::MAX - now) / 1000;
            let r = *delay_ms <= cap;
            proof {
                let d = *delay_ms as int;
                let q = u64::MAX - now;
                if d <= q / 1000 {
                    assert(d * 1000 <= q) by (nonlinear_arith)
                        requires 0 <= d <= q / 1000, q >= 0
                    ;
                } else {
                    assert(d * 1000 > q) by (nonlinear_arith)
                        requires d > q / 1000, q >= 0, d >= 0
                    ;
                }
            }
            r
        },
        ClientMessage::CommandRequest { cmd } => pb.command_fits_at(cmd, now),
        _ => true,
    }
}

/// Dispatch one inbound client message for the session `session_id` at
/// server time `now`: a join is observational, a time request is answered
/// on the same channel, telemetry lands on the peer record, a play request
/// is broadcast, and a command request runs the control operation.
pub fn handle_client_message(
    pb: &mut PlaybackState,
    reg: &mut PeerRegistry,
    session_id: &String,
    msg: &ClientMessage,
    now: u64,
) -> (r: Dispatch)
    requires
        old(reg).wf(),
        now >= old(pb).last_update_time,
        dispatch_fits(old(pb)@, msg@, now),
    ensures
        final(reg).wf(),
        final(pb)@ == spec_dispatch_state(old(pb)@, msg@, now),
        final(reg)@ == spec_dispatch_registry(old(reg)@, session_id@, msg@),
        opt_msg_view(r.reply) == spec_dispatch_reply(msg@, now, now),
        opt_msg_view(r.broadcast) == spec_dispatch_broadcast(old(pb)@, msg@, now),
        r.reply matches Some(m) ==> !m@.is_welcome(),
        r.broadcast matches Some(m) ==> !m@.is_welcome() && m@.well_anchored(),
{
    match msg {
        ClientMessage::Join { device_id } => Dispatch { reply: None, broadcast: None },
        ClientMessage::TimeRequest { t0, seq } => {
            let t1 = now;
            let t2 = now;
            Dispatch {
                reply: Some(ServerMessage::TimeResponse { t0: *t0, t1, t2, seq: *seq }),
                broadcast: None,
            }
        },
        ClientMessage::Telemetry { rtt, offset, .. } => {
            reg.set_telemetry(session_id, *rtt, *offset);
            Dispatch { reply: None, broadcast: None }
        },
        ClientMessage::PlayRequest { track_url, delay_ms } => {
            let start_at_server_time = now + *delay_ms * 1000;
            Dispatch {
                reply: None,
                broadcast: Some(ServerMessage::PlayCommand {
                    track_url: track_url.clone(),
                    start_at_server_time,
                    start_at_position_ms: 0,
                    server_time_at_broadcast: now,
                }),
            }
        },
        ClientMessage::CommandRequest { cmd } => {
            let broadcast = pb.process_control_command(cmd, now);
            Dispatch { reply: None, broadcast }
        },
    }
}

/// On one session, the greeting precedes everything else: a transcript
/// that starts with the connect frames and goes on with messages of the
/// session loop — time replies and control-bus broadcasts, none of which
/// is ever a `Welcome` — carries the `Welcome` first and nowhere else.
pub proof fn lemma_welcome_first(frames: Seq<ServerMessageV>, later: Seq<ServerMessageV>)
    requires
        frames.len() >= 1,
        frames[0].is_welcome(),
        forall|i: int| 0 < i < frames.len() ==> !(#[trigger] frames[i]).is_welcome(),
        forall|j: int| 0 <= j < later.len() ==> !(#[trigger] later[j]).is_welcome(),
    ensures
        (frames + later)[0].is_welcome(),
        forall|k: int| 0 < k < (frames + later).len() ==> !(#[trigger] (frames + later)[k]).is_welcome(),
{
    let t = frames + later;
    assert forall|k: int| 0 < k < t.len() implies !(#[trigger] t[k]).is_welcome() by {
        if k < frames.len() {
            assert(t[k] == frames[k]);
        } else {
            assert(t[k] == later[k - frames.len()]);
        }
    }
}

} // verus!
