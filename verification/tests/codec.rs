use sonic_sync::messages::{ClientMessage, ControlCommand, ServerMessage};
use sonic_sync::wire_binary::{
    decode_client_message, decode_control_command, decode_server_message, encode_client_message,
    encode_control_command, encode_server_message,
};
use sonic_sync::wire_text::{
    decode_client_message_text, decode_control_command_text, decode_server_message_text,
    encode_client_message_text, encode_control_command_text, encode_server_message_text,
};

fn server_messages() -> Vec<ServerMessage> {
    vec![
        ServerMessage::Welcome { session_id: "f0a1-42".to_string() },
        ServerMessage::TimeResponse { t0: 1000, t1: 1100, t2: 1200, seq: 3 },
        ServerMessage::PlayCommand {
            track_url: "http://h/tr\u{00e9}s \u{1f3b5}.mp3".to_string(),
            start_at_server_time: 1_500_000,
            start_at_position_ms: 0,
            server_time_at_broadcast: 1_000_000,
        },
        ServerMessage::PauseCommand { server_time: 3_000_000 },
        ServerMessage::SyncRequired,
    ]
}

fn client_messages() -> Vec<ClientMessage> {
    vec![
        ClientMessage::Join { device_id: "CLI-77".to_string() },
        ClientMessage::TimeRequest { t0: u64::MAX, seq: 255 },
        ClientMessage::Telemetry { rtt: 42, offset: -617, drift: -3, status: "ok".to_string() },
        ClientMessage::PlayRequest { track_url: "".to_string(), delay_ms: 3000 },
        ClientMessage::CommandRequest { cmd: ControlCommand::Seek { position_ms: 77 } },
        ClientMessage::CommandRequest { cmd: ControlCommand::Pause },
        ClientMessage::CommandRequest { cmd: ControlCommand::Play { start_at_ms: 1, delay_ms: 2 } },
    ]
}

#[test]
fn binary_round_trip_server() {
    for m in server_messages() {
        let bytes = encode_server_message(&m);
        assert_eq!(decode_server_message(bytes.as_slice()), Some(m));
    }
}

#[test]
fn binary_round_trip_client() {
    for m in client_messages() {
        let bytes = encode_client_message(&m);
        assert_eq!(decode_client_message(bytes.as_slice()), Some(m));
    }
}

#[test]
fn binary_round_trip_command() {
    for c in [
        ControlCommand::Play { start_at_ms: 0, delay_ms: 500 },
        ControlCommand::Pause,
        ControlCommand::Seek { position_ms: u64::MAX },
    ] {
        let bytes = encode_control_command(&c);
        assert_eq!(decode_control_command(bytes.as_slice()), Some(c));
    }
}

#[test]
fn text_round_trip_server() {
    for m in server_messages() {
        let text = encode_server_message_text(&m);
        assert_eq!(decode_server_message_text(text.as_str()), Some(m));
    }
}

#[test]
fn text_round_trip_client() {
    for m in client_messages() {
        let text = encode_client_message_text(&m);
        assert_eq!(decode_client_message_text(text.as_str()), Some(m));
    }
}

#[test]
fn text_round_trip_command() {
    for c in [
        ControlCommand::Play { start_at_ms: 9, delay_ms: 500 },
        ControlCommand::Pause,
        ControlCommand::Seek { position_ms: 0 },
    ] {
        let text = encode_control_command_text(&c);
        assert_eq!(decode_control_command_text(text.as_str()), Some(c));
    }
}

#[test]
fn text_form_is_readable() {
    let text = encode_server_message_text(&ServerMessage::PauseCommand { server_time: 16 });
    assert_eq!(text, "pause at=0000000000000010");
    let cmd = encode_control_command_text(&ControlCommand::Pause);
    assert_eq!(cmd, "pause");
}

#[test]
fn decode_rejects_malformed() {
    // Unknown discriminator.
    assert_eq!(decode_server_message(&[9u8]), None);
    // Empty frame.
    assert_eq!(decode_client_message(&[]), None);
    // Truncated length prefix.
    assert_eq!(decode_server_message(&[0u8, 1, 2]), None);
    // String length pointing past the end.
    let mut bad = vec![0u8];
    bad.extend_from_slice(&100u64.to_le_bytes());
    bad.extend_from_slice(b"xy");
    assert_eq!(decode_server_message(bad.as_slice()), None);
    // Invalid UTF-8 payload.
    let mut nonutf = vec![0u8];
    nonutf.extend_from_slice(&2u64.to_le_bytes());
    nonutf.extend_from_slice(&[0xff, 0xfe]);
    assert_eq!(decode_server_message(nonutf.as_slice()), None);
    // Trailing garbage after a well-formed message.
    let mut long = encode_server_message(&ServerMessage::SyncRequired);
    long.push(0);
    assert_eq!(decode_server_message(long.as_slice()), None);
}

#[test]
fn text_decode_rejects_malformed() {
    assert_eq!(decode_server_message_text("nonsense"), None);
    assert_eq!(decode_server_message_text(""), None);
    // Bad hexadecimal digits in a field.
    assert_eq!(decode_server_message_text("pause at=00000000000000zz"), None);
    // Truncated field.
    assert_eq!(decode_server_message_text("pause at=00000000"), None);
    // Trailing garbage.
    assert_eq!(decode_server_message_text("resyncX"), None);
    assert_eq!(decode_client_message_text("command pausemore"), None);
}
