use sonic_sync::client::{mean_offset, ClientAction, ClientState};
use sonic_sync::messages::ServerMessage;

#[test]
fn sync_updates_from_time_response() {
    let mut engine = ClientState::new();
    // Round (1000, 1550, 1560, 1110): offset 500, rtt 100.
    let action = engine.on_server_message(
        &ServerMessage::TimeResponse { t0: 1000, t1: 1550, t2: 1560, seq: 0 },
        1110,
    );
    assert_eq!(action, ClientAction::Nothing);
    assert_eq!(engine.offset, 500);
    assert_eq!(engine.rtt, 100);
}

#[test]
fn inconsistent_sample_is_discarded() {
    let mut engine = ClientState::new();
    let ok = engine.handle_time_response(1000, 2000, 1000, 900);
    assert!(!ok);
    assert_eq!(engine.offset, 0);
    assert_eq!(engine.rtt, 0);
}

#[test]
fn play_command_armed_with_offset() {
    let mut engine = ClientState::new();
    engine.handle_time_response(1000, 1550, 1560, 1110);
    // Local clock 10_000, estimated server time 10_500; a start instant of
    // 12_000 leaves 1_500 to wait.
    let action = engine.on_server_message(
        &ServerMessage::PlayCommand {
            track_url: "u".to_string(),
            start_at_server_time: 12_000,
            start_at_position_ms: 40,
            server_time_at_broadcast: 9_000,
        },
        10_000,
    );
    assert_eq!(
        action,
        ClientAction::Play { track_url: "u".to_string(), start_at_position_ms: 40, wait_us: 1_500 }
    );
}

#[test]
fn late_play_command_is_skipped() {
    let mut engine = ClientState::new();
    let action = engine.on_server_message(
        &ServerMessage::PlayCommand {
            track_url: "u".to_string(),
            start_at_server_time: 500,
            start_at_position_ms: 0,
            server_time_at_broadcast: 400,
        },
        9_000,
    );
    assert_eq!(action, ClientAction::Skipped);
}

#[test]
fn live_play_command_renders_immediately() {
    let mut engine = ClientState::new();
    let action = engine.on_server_message(
        &ServerMessage::PlayCommand {
            track_url: "live".to_string(),
            start_at_server_time: 0,
            start_at_position_ms: 0,
            server_time_at_broadcast: 400,
        },
        9_000,
    );
    assert_eq!(action, ClientAction::PlayLive { track_url: "live".to_string() });
}

#[test]
fn pause_and_resync_pass_through() {
    let mut engine = ClientState::new();
    assert_eq!(
        engine.on_server_message(&ServerMessage::PauseCommand { server_time: 77 }, 1),
        ClientAction::Pause { server_time: 77 }
    );
    assert_eq!(engine.on_server_message(&ServerMessage::SyncRequired, 1), ClientAction::Resync);
    assert_eq!(
        engine.on_server_message(&ServerMessage::Welcome { session_id: "s".to_string() }, 1),
        ClientAction::Nothing
    );
}

#[test]
fn mean_offset_exact() {
    assert_eq!(mean_offset(&vec![10, 20, 31]), 20);
    assert_eq!(mean_offset(&vec![-5, -6]), -5);
    assert_eq!(mean_offset(&vec![7]), 7);
}

#[test]
fn correction_is_clamped() {
    let mut engine = ClientState::new();
    // A kilometre-sized drift saturates at the lower multiplier bound.
    let rate = engine.calculate_correction(1_000, 1_000_000);
    assert_eq!(rate, 950_000);
    assert_eq!(engine.drift, 1_000);
    // A drift in the other direction saturates at the upper bound.
    let mut engine2 = ClientState::new();
    let rate2 = engine2.calculate_correction(-1_000, 1_000_000);
    assert_eq!(rate2, 1_050_000);
}

#[test]
fn correction_exact_small_drift() {
    let mut engine = ClientState::new();
    // 1 ms of drift over 1 s at the reference tuning: the controller
    // output is -0.0061, so the rate is 0.9939 of unit.
    let rate = engine.calculate_correction(1, 1_000_000);
    assert_eq!(rate, 993_900);
    engine.reset_correction();
    // After a reset and with no drift the rate is exactly the unit rate.
    let rate0 = engine.calculate_correction(0, 1_000_000);
    assert_eq!(rate0, 1_000_000);
}

#[test]
fn server_now_applies_offset() {
    let mut engine = ClientState::new();
    engine.handle_time_response(1000, 800, 900, 1300);
    assert_eq!(engine.offset, -300);
    assert_eq!(engine.server_now(10_000), 9_700);
    // The approximation floors at zero when the offset would go past the
    // epoch.
    assert_eq!(engine.server_now(100), 0);
}
