use sonic_sync::messages::{ClientMessage, ControlCommand, ServerMessage};
use sonic_sync::playback::PlaybackState;
use sonic_sync::session::{accept_peer, connect_frames, handle_client_message, Peer, PeerKind, PeerRegistry};

fn idle_state() -> PlaybackState {
    PlaybackState::new()
}

#[test]
fn play_broadcast_from_idle() {
    // Idle state, a play at server time 1_000_000 with a 500 ms delay.
    let mut pb = idle_state();
    let msg = pb.process_control_command(
        &ControlCommand::Play { start_at_ms: 0, delay_ms: 500 },
        1_000_000,
    );
    assert!(pb.is_playing);
    assert_eq!(pb.position_ms, 0);
    assert_eq!(pb.last_update_time, 1_000_000);
    assert_eq!(
        msg,
        Some(ServerMessage::PlayCommand {
            track_url: "stream".to_string(),
            start_at_server_time: 1_500_000,
            start_at_position_ms: 0,
            server_time_at_broadcast: 1_000_000,
        })
    );
}

#[test]
fn pause_preserves_position() {
    // Two seconds after the play of the previous scenario, a pause lands
    // the position at 2000 ms.
    let mut pb = idle_state();
    pb.process_control_command(&ControlCommand::Play { start_at_ms: 0, delay_ms: 500 }, 1_000_000);
    let msg = pb.process_control_command(&ControlCommand::Pause, 3_000_000);
    assert!(!pb.is_playing);
    assert_eq!(pb.position_ms, 2000);
    assert_eq!(pb.last_update_time, 3_000_000);
    assert_eq!(msg, Some(ServerMessage::PauseCommand { server_time: 3_000_000 }));
}

#[test]
fn late_join_relay() {
    // A session that connects while playing receives, after the greeting,
    // an immediate play command at the current effective position.
    let mut pb = idle_state();
    pb.process_control_command(&ControlCommand::Play { start_at_ms: 0, delay_ms: 500 }, 1_000_000);
    let frames = connect_frames(&pb, "abc".to_string(), 2_250_000);
    assert_eq!(frames.len(), 2);
    assert_eq!(frames[0], ServerMessage::Welcome { session_id: "abc".to_string() });
    assert_eq!(
        frames[1],
        ServerMessage::PlayCommand {
            track_url: "".to_string(),
            start_at_server_time: 2_250_000,
            start_at_position_ms: 1250,
            server_time_at_broadcast: 2_250_000,
        }
    );
}

#[test]
fn seek_while_playing_rebroadcasts() {
    let mut pb = idle_state();
    pb.set_track_url("http://h/track.mp3".to_string());
    pb.process_control_command(&ControlCommand::Play { start_at_ms: 0, delay_ms: 0 }, 1_000_000);
    let msg = pb.process_control_command(
        &ControlCommand::Seek { position_ms: 40_000 },
        2_000_000,
    );
    assert_eq!(pb.position_ms, 40_000);
    assert_eq!(
        msg,
        Some(ServerMessage::PlayCommand {
            track_url: "http://h/track.mp3".to_string(),
            start_at_server_time: 2_500_000,
            start_at_position_ms: 40_000,
            server_time_at_broadcast: 2_000_000,
        })
    );
}

#[test]
fn seek_while_paused_is_silent() {
    let mut pb = idle_state();
    let msg = pb.process_control_command(&ControlCommand::Seek { position_ms: 500 }, 1_000_000);
    assert_eq!(msg, None);
    assert_eq!(pb.position_ms, 500);
    assert!(!pb.is_playing);
}

#[test]
fn live_mode_round() {
    let mut pb = idle_state();
    let start = pb.start_live(7_000_000);
    assert!(pb.is_live());
    assert_eq!(
        start,
        ServerMessage::PlayCommand {
            track_url: "live".to_string(),
            start_at_server_time: 0,
            start_at_position_ms: 0,
            server_time_at_broadcast: 7_000_000,
        }
    );
    let stop = pb.stop_live(8_000_000);
    assert_eq!(stop, ServerMessage::PauseCommand { server_time: 8_000_000 });
    assert!(!pb.is_playing);
    assert!(pb.is_live());
}

#[test]
fn registry_register_remove() {
    let mut reg = PeerRegistry::new();
    assert_eq!(reg.len(), 0);
    let fresh = reg.register(Peer {
        session_id: "s1".to_string(),
        remote_addr: "10.0.0.1:9".to_string(),
        last_rtt: 0,
        last_offset: 0,
        kind: PeerKind::Peer,
    });
    assert!(fresh);
    assert!(reg.contains(&"s1".to_string()));
    assert_eq!(reg.len(), 1);
    let again = reg.register(Peer {
        session_id: "s1".to_string(),
        remote_addr: "10.0.0.2:9".to_string(),
        last_rtt: 1,
        last_offset: 2,
        kind: PeerKind::Dashboard,
    });
    assert!(!again);
    assert_eq!(reg.len(), 1);
    assert!(reg.remove(&"s1".to_string()));
    assert!(!reg.remove(&"s1".to_string()));
    assert_eq!(reg.len(), 0);
}

#[test]
fn accept_assigns_distinct_ids() {
    let mut reg = PeerRegistry::new();
    let pb = idle_state();
    let (id1, frames1) = accept_peer(&mut reg, &pb, "a:1".to_string(), PeerKind::Peer, 10);
    let (id2, _frames2) = accept_peer(&mut reg, &pb, "a:2".to_string(), PeerKind::Dashboard, 11);
    assert_eq!(id1.len(), 36);
    assert_eq!(id2.len(), 36);
    assert_ne!(id1, id2);
    assert!(reg.contains(&id1));
    assert!(reg.contains(&id2));
    assert_eq!(frames1[0], ServerMessage::Welcome { session_id: id1.clone() });
}

#[test]
fn dispatch_time_request() {
    let mut pb = idle_state();
    let mut reg = PeerRegistry::new();
    let sid = "s".to_string();
    let d = handle_client_message(
        &mut pb,
        &mut reg,
        &sid,
        &ClientMessage::TimeRequest { t0: 123, seq: 7 },
        42_000,
    );
    assert_eq!(
        d.reply,
        Some(ServerMessage::TimeResponse { t0: 123, t1: 42_000, t2: 42_000, seq: 7 })
    );
    assert_eq!(d.broadcast, None);
}

#[test]
fn dispatch_telemetry_and_command() {
    let mut pb = idle_state();
    let mut reg = PeerRegistry::new();
    let sid = "s".to_string();
    reg.register(Peer {
        session_id: "s".to_string(),
        remote_addr: "x".to_string(),
        last_rtt: 0,
        last_offset: 0,
        kind: PeerKind::Peer,
    });
    let d = handle_client_message(
        &mut pb,
        &mut reg,
        &sid,
        &ClientMessage::Telemetry { rtt: 9, offset: -4, drift: 1, status: "ok".to_string() },
        50,
    );
    assert_eq!(d.reply, None);
    assert_eq!(d.broadcast, None);

    let d2 = handle_client_message(
        &mut pb,
        &mut reg,
        &sid,
        &ClientMessage::CommandRequest { cmd: ControlCommand::Play { start_at_ms: 5, delay_ms: 1 } },
        100,
    );
    assert!(pb.is_playing);
    assert_eq!(pb.position_ms, 5);
    assert_eq!(
        d2.broadcast,
        Some(ServerMessage::PlayCommand {
            track_url: "stream".to_string(),
            start_at_server_time: 1_100,
            start_at_position_ms: 5,
            server_time_at_broadcast: 100,
        })
    );
}

#[test]
fn dispatch_play_request_broadcasts() {
    let mut pb = idle_state();
    let mut reg = PeerRegistry::new();
    let sid = "s".to_string();
    let d = handle_client_message(
        &mut pb,
        &mut reg,
        &sid,
        &ClientMessage::PlayRequest { track_url: "u".to_string(), delay_ms: 3 },
        1_000,
    );
    assert_eq!(
        d.broadcast,
        Some(ServerMessage::PlayCommand {
            track_url: "u".to_string(),
            start_at_server_time: 4_000,
            start_at_position_ms: 0,
            server_time_at_broadcast: 1_000,
        })
    );
    // The playback state is untouched by a bare play request.
    assert!(!pb.is_playing);
}

#[test]
fn overflowing_arithmetic_is_rejected() {
    let pb = idle_state();
    assert!(!pb.command_fits_at(&ControlCommand::Play { start_at_ms: 0, delay_ms: u64::MAX }, 1_000));
    assert!(pb.command_fits_at(&ControlCommand::Play { start_at_ms: 0, delay_ms: 500 }, 1_000));
    assert!(!pb.command_fits_at(&ControlCommand::Seek { position_ms: 0 }, u64::MAX));
    assert!(pb.position_fits(5));
    assert!(!sonic_sync::session::dispatch_fits_at(
        &pb,
        &ClientMessage::PlayRequest { track_url: "u".to_string(), delay_ms: u64::MAX },
        1_000,
    ));
}
