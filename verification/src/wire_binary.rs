//! The binary wire encoding: a tagged union with an explicit one-byte
//! discriminator, little-endian integers, and length-prefixed UTF-8
//! strings. Each frame carries exactly one message; decoding consumes the
//! whole frame.

use vstd::prelude::*;
use vstd::bytes::lemma_auto_spec_u64_to_from_le_bytes;
use crate::messages::{
    ClientMessage, ClientMessageV, ControlCommand, ControlCommandV, ServerMessage, ServerMessageV,
};
use crate::wire::{
    read_str, read_u64, sd_str, sd_u64, sd_u8, spec_enc_str, spec_enc_u64, str_fits, write_str,
    write_u64, lemma_piece, lemma_rt_str, lemma_rt_u64,
};

verus! {

/// Casting a signed 64-bit value through its unsigned bit pattern and
/// back is the identity: the wire carries `i64` fields this way.
pub proof fn lemma_cast_i64(x: i64)
    ensures
        ((x as u64) as i64) == x,
{
    assert(((x as u64) as i64) == x) by (bit_vector);
}

/// The binary form of a control command.
pub open spec fn spec_enc_cmd(c: ControlCommandV) -> Seq<u8> {
    match c {
        ControlCommandV::Play { start_at_ms, delay_ms } => seq![0u8] + spec_enc_u64(start_at_ms)
            + spec_enc_u64(delay_ms),
        ControlCommandV::Pause => seq![1u8],
        ControlCommandV::Seek { position_ms } => seq![2u8] + spec_enc_u64(position_ms),
    }
}

/// Parse one control command at `i`.
pub open spec fn sdec_cmd_at(b: Seq<u8>, i: int) -> Option<(ControlCommandV, int)> {
    match sd_u8(b, i) {
        None => None,
        Some((tag, j)) => if tag == 0 {
            match sd_u64(b, j) {
                None => None,
                Some((start_at_ms, j1)) => match sd_u64(b, j1) {
                    None => None,
                    Some((delay_ms, j2)) => Some(
                        (ControlCommandV::Play { start_at_ms, delay_ms }, j2),
                    ),
                },
            }
        } else if tag == 1 {
            Some((ControlCommandV::Pause, j))
        } else if tag == 2 {
            match sd_u64(b, j) {
                None => None,
                Some((position_ms, j1)) => Some((ControlCommandV::Seek { position_ms }, j1)),
            }
        } else {
            None
        },
    }
}

/// Parse a whole frame as a control command: one command, nothing after
/// it.
pub open spec fn sdec_cmd(b: Seq<u8>) -> Option<ControlCommandV> {
    match sdec_cmd_at(b, 0) {
        Some((c, j)) => if j == b.len() {
            Some(c)
        } else {
            None
        },
        None => None,
    }
}

/// The binary form of a client message.
pub open spec fn spec_enc_client(m: ClientMessageV) -> Seq<u8> {
    match m {
        ClientMessageV::Join { device_id } => seq![0u8] + spec_enc_str(device_id),
        ClientMessageV::TimeRequest { t0, seq } => seq![1u8] + spec_enc_u64(t0) + seq![seq],
        ClientMessageV::Telemetry { rtt, offset, drift, status } => seq![2u8] + spec_enc_u64(rtt)
            + spec_enc_u64(offset as u64) + spec_enc_u64(drift as u64) + spec_enc_str(status),
        ClientMessageV::PlayRequest { track_url, delay_ms } => seq![3u8] + spec_enc_str(track_url)
            + spec_enc_u64(delay_ms),
        ClientMessageV::CommandRequest { cmd } => seq![4u8] + spec_enc_cmd(cmd),
    }
}

/// Parse a whole frame as a client message.
pub open spec fn sdec_client(b: Seq<u8>) -> Option<ClientMessageV> {
    match sd_u8(b, 0) {
        None => None,
        Some((tag, j)) => if tag == 0 {
            match sd_str(b, j) {
                Some((device_id, j1)) => if j1 == b.len() {
                    Some(ClientMessageV::Join { device_id })
                } else {
                    None
                },
                None => None,
            }
        } else if tag == 1 {
            match sd_u64(b, j) {
                Some((t0, j1)) => match sd_u8(b, j1) {
                    Some((seq, j2)) => if j2 == b.len() {
                        Some(ClientMessageV::TimeRequest { t0, seq })
                    } else {
                        None
                    },
                    None => None,
                },
                None => None,
            }
        } else if tag == 2 {
            match sd_u64(b, j) {
                Some((rtt, j1)) => match sd_u64(b, j1) {
                    Some((offset, j2)) => match sd_u64(b, j2) {
                        Some((drift, j3)) => match sd_str(b, j3) {
                            Some((status, j4)) => if j4 == b.len() {
                                Some(ClientMessageV::Telemetry {
                                    rtt,
                                    offset: offset as i64,
                                    drift: drift as i64,
                                    status,
                                })
                            } else {
                                None
                            },
                            None => None,
                        },
                        None => None,
                    },
                    None => None,
                },
                None => None,
            }
        } else if tag == 3 {
            match sd_str(b, j) {
                Some((track_url, j1)) => match sd_u64(b, j1) {
                    Some((delay_ms, j2)) => if j2 == b.len() {
                        Some(ClientMessageV::PlayRequest { track_url, delay_ms })
                    } else {
                        None
                    },
                    None => None,
                },
                None => None,
            }
        } else if tag == 4 {
            match sdec_cmd_at(b, j) {
                Some((cmd, j1)) => if j1 == b.len() {
                    Some(ClientMessageV::CommandRequest { cmd })
                } else {
                    None
                },
                None => None,
            }
        } else {
            None
        },
    }
}

/// The binary form of a server message.
pub open spec fn spec_enc_server(m: ServerMessageV) -> Seq<u8> {
    match m {
        ServerMessageV::Welcome { session_id } => seq![0u8] + spec_enc_str(session_id),
        ServerMessageV::TimeResponse { t0, t1, t2, seq } => seq![1u8] + spec_enc_u64(t0)
            + spec_enc_u64(t1) + spec_enc_u64(t2) + seq![seq],
        ServerMessageV::PlayCommand {
            track_url,
            start_at_server_time,
            start_at_position_ms,
            server_time_at_broadcast,
        } => seq![2u8] + spec_enc_str(track_url) + spec_enc_u64(start_at_server_time)
            + spec_enc_u64(start_at_position_ms) + spec_enc_u64(server_time_at_broadcast),
        ServerMessageV::PauseCommand { server_time } => seq![3u8] + spec_enc_u64(server_time),
        ServerMessageV::SyncRequired => seq![4u8],
    }
}

/// Parse a whole frame as a server message.
pub open spec fn sdec_server(b: Seq<u8>) -> Option<ServerMessageV> {
    match sd_u8(b, 0) {
        None => None,
        Some((tag, j)) => if tag == 0 {
            match sd_str(b, j) {
                Some((session_id, j1)) => if j1 == b.len() {
                    Some(ServerMessageV::Welcome { session_id })
                } else {
                    None
                },
                None => None,
            }
        } else if tag == 1 {
            match sd_u64(b, j) {
                Some((t0, j1)) => match sd_u64(b, j1) {
                    Some((t1, j2)) => match sd_u64(b, j2) {
                        Some((t2, j3)) => match sd_u8(b, j3) {
                            Some((seq, j4)) => if j4 == b.len() {
                                Some(ServerMessageV::TimeResponse { t0, t1, t2, seq })
                            } else {
                                None
                            },
                            None => None,
                        },
                        None => None,
                    },
                    None => None,
                },
                None => None,
            }
        } else if tag == 2 {
            match sd_str(b, j) {
                Some((track_url, j1)) => match sd_u64(b, j1) {
                    Some((start_at_server_time, j2)) => match sd_u64(b, j2) {
                        Some((start_at_position_ms, j3)) => match sd_u64(b, j3) {
                            Some((server_time_at_broadcast, j4)) => if j4 == b.len() {
                                Some(ServerMessageV::PlayCommand {
                                    track_url,
                                    start_at_server_time,
                                    start_at_position_ms,
                                    server_time_at_broadcast,
                                })
                            } else {
                                None
                            },
                            None => None,
                        },
                        None => None,
                    },
                    None => None,
                },
                None => None,
            }
        } else if tag == 3 {
            match sd_u64(b, j) {
                Some((server_time, j1)) => if j1 == b.len() {
                    Some(ServerMessageV::PauseCommand { server_time })
                } else {
                    None
                },
                None => None,
            }
        } else if tag == 4 {
            if j == b.len() {
                Some(ServerMessageV::SyncRequired)
            } else {
                None
            }
        } else {
            None
        },
    }
}

/// Encode a control command.
pub fn encode_control_command(c: &ControlCommand) -> (r: Vec<u8>)
    ensures
        r@ == spec_enc_cmd(c@),
{
    let mut out: Vec<u8> = Vec::new();
    match c {
        ControlCommand::Play { start_at_ms, delay_ms } => {
            out.push(0u8);
            write_u64(&mut out, *start_at_ms);
            write_u64(&mut out, *delay_ms);
        },
        ControlCommand::Pause => {
            out.push(1u8);
        },
        ControlCommand::Seek { position_ms } => {
            out.push(2u8);
            write_u64(&mut out, *position_ms);
        },
    }
    proof {
        assert(out@ =~= spec_enc_cmd(c@));
    }
    out
}

/// Decode one control command at `at`, yielding the command and the
/// position after it.
fn decode_cmd_at(data: &[u8], at: usize) -> (r: Option<(ControlCommand, usize)>)
    ensures
        match r {
            Some((c, j)) => sdec_cmd_at(data@, at as int) == Some((c@, j as int)),
            None => sdec_cmd_at(data@, at as int) is None,
        },
{
    let len = data.len();
    if at >= len {
        return None;
    }
    let tag = data[at];
    let j = at + 1;
    if tag == 0 {
        if len - j < 16 {
            return None;
        }
        let start_at_ms = read_u64(data, j);
        let delay_ms = read_u64(data, j + 8);
        Some((ControlCommand::Play { start_at_ms, delay_ms }, j + 16))
    } else if tag == 1 {
        Some((ControlCommand::Pause, j))
    } else if tag == 2 {
        if len - j < 8 {
            return None;
        }
        let position_ms = read_u64(data, j);
        Some((ControlCommand::Seek { position_ms }, j + 8))
    } else {
        None
    }
}

/// Decode a whole frame as a control command; `None` on a malformed or
/// incompletely consumed frame.
pub fn decode_control_command(data: &[u8]) -> (r: Option<ControlCommand>)
    ensures
        match r {
            Some(c) => sdec_cmd(data@) == Some(c@),
            None => sdec_cmd(data@) is None,
        },
{
    match decode_cmd_at(data, 0) {
        Some((c, j)) => if j == data.len() {
            Some(c)
        } else {
            None
        },
        None => None,
    }
}

/// Encode a client message.
pub fn encode_client_message(m: &ClientMessage) -> (r: Vec<u8>)
    ensures
        r@ == spec_enc_client(m@),
{
    let mut out: Vec<u8> = Vec::new();
    match m {
        ClientMessage::Join { device_id } => {
            out.push(0u8);
            write_str(&mut out, device_id.as_str());
        },
        ClientMessage::TimeRequest { t0, seq } => {
            out.push(1u8);
            write_u64(&mut out, *t0);
            out.push(*seq);
        },
        ClientMessage::Telemetry { rtt, offset, drift, status } => {
            out.push(2u8);
            write_u64(&mut out, *rtt);
            write_u64(&mut out, *offset as u64);
            write_u64(&mut out, *drift as u64);
            write_str(&mut out, status.as_str());
        },
        ClientMessage::PlayRequest { track_url, delay_ms } => {
            out.push(3u8);
            write_str(&mut out, track_url.as_str());
            write_u64(&mut out, *delay_ms);
        },
        ClientMessage::CommandRequest { cmd } => {
            out.push(4u8);
            let mut body = encode_control_command(cmd);
            out.append(&mut body);
        },
    }
    proof {
        assert(out@ =~= spec_enc_client(m@));
    }
    out
}

/// Decode a whole frame as a client message; `None` on a malformed or
/// incompletely consumed frame.
pub fn decode_client_message(data: &[u8]) -> (r: Option<ClientMessage>)
    ensures
        match r {
            Some(m) => sdec_client(data@) == Some(m@),
            None => sdec_client(data@) is None,
        },
{
    let len = data.len();
    if len == 0 {
        return None;
    }
    let tag = data[0];
    let j: usize = 1;
    if tag == 0 {
        if len - j < 8 {
            return None;
        }
        match read_str(data, j) {
            Some((device_id, j1)) => if j1 == len {
                Some(ClientMessage::Join { device_id })
            } else {
                None
            },
            None => None,
        }
    } else if tag == 1 {
        if len - j < 9 {
            return None;
        }
        let t0 = read_u64(data, j);
        let seq = data[j + 8];
        if j + 9 == len {
            Some(ClientMessage::TimeRequest { t0, seq })
        } else {
            None
        }
    } else if tag == 2 {
        if len - j < 32 {
            return None;
        }
        let rtt = read_u64(data, j);
        let offset = read_u64(data, j + 8);
        let drift = read_u64(data, j + 16);
        match read_str(data, j + 24) {
            Some((status, j4)) => if j4 == len {
                Some(ClientMessage::Telemetry {
                    rtt,
                    offset: offset as i64,
                    drift: drift as i64,
                    status,
                })
            } else {
                None
            },
            None => None,
        }
    } else if tag == 3 {
        if len - j < 8 {
            return None;
        }
        match read_str(data, j) {
            Some((track_url, j1)) => {
                if len - j1 < 8 {
                    return None;
                }
                let delay_ms = read_u64(data, j1);
                if j1 + 8 == len {
                    Some(ClientMessage::PlayRequest { track_url, delay_ms })
                } else {
                    None
                }
            },
            None => None,
        }
    } else if tag == 4 {
        match decode_cmd_at(data, j) {
            Some((cmd, j1)) => if j1 == len {
                Some(ClientMessage::CommandRequest { cmd })
            } else {
                None
            },
            None => None,
        }
    } else {
        None
    }
}

/// Encode a server message.
pub fn encode_server_message(m: &ServerMessage) -> (r: Vec<u8>)
    ensures
        r@ == spec_enc_server(m@),
{
    let mut out: Vec<u8> = Vec::new();
    match m {
        ServerMessage::Welcome { session_id } => {
            out.push(0u8);
            write_str(&mut out, session_id.as_str());
        },
        ServerMessage::TimeResponse { t0, t1, t2, seq } => {
            out.push(1u8);
            write_u64(&mut out, *t0);
            write_u64(&mut out, *t1);
            write_u64(&mut out, *t2);
            out.push(*seq);
        },
        ServerMessage::PlayCommand {
            track_url,
            start_at_server_time,
            start_at_position_ms,
            server_time_at_broadcast,
        } => {
            out.push(2u8);
            write_str(&mut out, track_url.as_str());
            write_u64(&mut out, *start_at_server_time);
            write_u64(&mut out, *start_at_position_ms);
            write_u64(&mut out, *server_time_at_broadcast);
        },
        ServerMessage::PauseCommand { server_time } => {
            out.push(3u8);
            write_u64(&mut out, *server_time);
        },
        ServerMessage::SyncRequired => {
            out.push(4u8);
        },
    }
    proof {
        assert(out@ =~= spec_enc_server(m@));
    }
    out
}

/// Decode a whole frame as a server message; `None` on a malformed or
/// incompletely consumed frame.
pub fn decode_server_message(data: &[u8]) -> (r: Option<ServerMessage>)
    ensures
        match r {
            Some(m) => sdec_server(data@) == Some(m@),
            None => sdec_server(data@) is None,
        },
{
    let len = data.len();
    if len == 0 {
        return None;
    }
    let tag = data[0];
    let j: usize = 1;
    if tag == 0 {
        if len - j < 8 {
            return None;
        }
        match read_str(data, j) {
            Some((session_id, j1)) => if j1 == len {
                Some(ServerMessage::Welcome { session_id })
            } else {
                None
            },
            None => None,
        }
    } else if tag == 1 {
        if len - j < 25 {
            return None;
        }
        let t0 = read_u64(data, j);
        let t1 = read_u64(data, j + 8);
        let t2 = read_u64(data, j + 16);
        let seq = data[j + 24];
        if j + 25 == len {
            Some(ServerMessage::TimeResponse { t0, t1, t2, seq })
        } else {
            None
        }
    } else if tag == 2 {
        if len - j < 8 {
            return None;
        }
        match read_str(data, j) {
            Some((track_url, j1)) => {
                if len - j1 < 24 {
                    return None;
                }
                let start_at_server_time = read_u64(data, j1);
                let start_at_position_ms = read_u64(data, j1 + 8);
                let server_time_at_broadcast = read_u64(data, j1 + 16);
                if j1 + 24 == len {
                    Some(ServerMessage::PlayCommand {
                        track_url,
                        start_at_server_time,
                        start_at_position_ms,
                        server_time_at_broadcast,
                    })
                } else {
                    None
                }
            },
            None => None,
        }
    } else if tag == 3 {
        if len - j < 8 {
            return None;
        }
        let server_time = read_u64(data, j);
        if j + 8 == len {
            Some(ServerMessage::PauseCommand { server_time })
        } else {
            None
        }
    } else if tag == 4 {
        if j == len {
            Some(ServerMessage::SyncRequired)
        } else {
            None
        }
    } else {
        None
    }
}

/// A client message's binary form fits only while each of its strings
/// does; every message held in memory fits.
pub open spec fn client_wire_fits(m: ClientMessageV) -> bool {
    match m {
        ClientMessageV::Join { device_id } => str_fits(device_id),
        ClientMessageV::Telemetry { status, .. } => str_fits(status),
        ClientMessageV::PlayRequest { track_url, .. } => str_fits(track_url),
        _ => true,
    }
}

/// A server message's binary form fits only while each of its strings
/// does; every message held in memory fits.
pub open spec fn server_wire_fits(m: ServerMessageV) -> bool {
    match m {
        ServerMessageV::Welcome { session_id } => str_fits(session_id),
        ServerMessageV::PlayCommand { track_url, .. } => str_fits(track_url),
        _ => true,
    }
}

/// Parsing an encoded control command inside a larger buffer yields the
/// command back and stops right after it.
pub proof fn lemma_rt_cmd_at(b: Seq<u8>, i: int, c: ControlCommandV)
    requires
        0 <= i,
        i + spec_enc_cmd(c).len() <= b.len(),
        b.subrange(i, i + spec_enc_cmd(c).len()) == spec_enc_cmd(c),
    ensures
        sdec_cmd_at(b, i) == Some((c, i + spec_enc_cmd(c).len())),
{
    lemma_auto_spec_u64_to_from_le_bytes();
    let whole = spec_enc_cmd(c);
    let l = whole.len();
    assert(b.subrange(i, i + l)[0] == b[i]);
    match c {
        ControlCommandV::Play { start_at_ms, delay_ms } => {
            assert(whole.subrange(1, 9) =~= spec_enc_u64(start_at_ms));
            lemma_piece(b, i, whole, 1, spec_enc_u64(start_at_ms));
            lemma_rt_u64(b, i + 1, start_at_ms);
            assert(whole.subrange(9, 17) =~= spec_enc_u64(delay_ms));
            lemma_piece(b, i, whole, 9, spec_enc_u64(delay_ms));
            lemma_rt_u64(b, i + 9, delay_ms);
        },
        ControlCommandV::Pause => {
        },
        ControlCommandV::Seek { position_ms } => {
            assert(whole.subrange(1, 9) =~= spec_enc_u64(position_ms));
            lemma_piece(b, i, whole, 1, spec_enc_u64(position_ms));
            lemma_rt_u64(b, i + 1, position_ms);
        },
    }
}

/// Decoding the binary form of a control command yields the command back.
pub proof fn lemma_cmd_round_trip(c: ControlCommandV)
    ensures
        sdec_cmd(spec_enc_cmd(c)) == Some(c),
{
    let b = spec_enc_cmd(c);
    assert(b.subrange(0, b.len() as int) =~= b);
    lemma_rt_cmd_at(b, 0, c);
}

/// Decoding the binary form of a client message yields the message back.
pub proof fn lemma_client_round_trip(m: ClientMessageV)
    requires
        client_wire_fits(m),
    ensures
        sdec_client(spec_enc_client(m)) == Some(m),
{
    lemma_auto_spec_u64_to_from_le_bytes();
    let b = spec_enc_client(m);
    assert(b.subrange(0, b.len() as int) =~= b);
    match m {
        ClientMessageV::Join { device_id } => {
            let es = spec_enc_str(device_id);
            assert(b.subrange(1, 1 + es.len() as int) =~= es);
            lemma_rt_str(b, 1, device_id);
        },
        ClientMessageV::TimeRequest { t0, seq } => {
            assert(b.subrange(1, 9) =~= spec_enc_u64(t0));
            lemma_rt_u64(b, 1, t0);
            assert(b[9] == seq);
        },
        ClientMessageV::Telemetry { rtt, offset, drift, status } => {
            assert(b.subrange(1, 9) =~= spec_enc_u64(rtt));
            lemma_rt_u64(b, 1, rtt);
            assert(b.subrange(9, 17) =~= spec_enc_u64(offset as u64));
            lemma_rt_u64(b, 9, offset as u64);
            assert(b.subrange(17, 25) =~= spec_enc_u64(drift as u64));
            lemma_rt_u64(b, 17, drift as u64);
            let es = spec_enc_str(status);
            assert(b.subrange(25, 25 + es.len() as int) =~= es);
            lemma_rt_str(b, 25, status);
            lemma_cast_i64(offset);
            lemma_cast_i64(drift);
        },
        ClientMessageV::PlayRequest { track_url, delay_ms } => {
            let es = spec_enc_str(track_url);
            assert(b.subrange(1, 1 + es.len() as int) =~= es);
            lemma_rt_str(b, 1, track_url);
            assert(b.subrange(1 + es.len() as int, 9 + es.len() as int) =~= spec_enc_u64(delay_ms));
            lemma_rt_u64(b, 1 + es.len() as int, delay_ms);
        },
        ClientMessageV::CommandRequest { cmd } => {
            let ec = spec_enc_cmd(cmd);
            assert(b.subrange(1, 1 + ec.len() as int) =~= ec);
            lemma_rt_cmd_at(b, 1, cmd);
        },
    }
}

/// Decoding the binary form of a server message yields the message back.
pub proof fn lemma_server_round_trip(m: ServerMessageV)
    requires
        server_wire_fits(m),
    ensures
        sdec_server(spec_enc_server(m)) == Some(m),
{
    lemma_auto_spec_u64_to_from_le_bytes();
    let b = spec_enc_server(m);
    assert(b.subrange(0, b.len() as int) =~= b);
    match m {
        ServerMessageV::Welcome { session_id } => {
            let es = spec_enc_str(session_id);
            assert(b.subrange(1, 1 + es.len() as int) =~= es);
            lemma_rt_str(b, 1, session_id);
        },
        ServerMessageV::TimeResponse { t0, t1, t2, seq } => {
            assert(b.subrange(1, 9) =~= spec_enc_u64(t0));
            lemma_rt_u64(b, 1, t0);
            assert(b.subrange(9, 17) =~= spec_enc_u64(t1));
            lemma_rt_u64(b, 9, t1);
            assert(b.subrange(17, 25) =~= spec_enc_u64(t2));
            lemma_rt_u64(b, 17, t2);
            assert(b[25] == seq);
        },
        ServerMessageV::PlayCommand {
            track_url,
            start_at_server_time,
            start_at_position_ms,
            server_time_at_broadcast,
        } => {
            let es = spec_enc_str(track_url);
            let n = es.len() as int;
            assert(b.subrange(1, 1 + n) =~= es);
            lemma_rt_str(b, 1, track_url);
            assert(b.subrange(1 + n, 9 + n) =~= spec_enc_u64(start_at_server_time));
            lemma_rt_u64(b, 1 + n, start_at_server_time);
            assert(b.subrange(9 + n, 17 + n) =~= spec_enc_u64(start_at_position_ms));
            lemma_rt_u64(b, 9 + n, start_at_position_ms);
            assert(b.subrange(17 + n, 25 + n) =~= spec_enc_u64(server_time_at_broadcast));
            lemma_rt_u64(b, 17 + n, server_time_at_broadcast);
        },
        ServerMessageV::PauseCommand { server_time } => {
            assert(b.subrange(1, 9) =~= spec_enc_u64(server_time));
            lemma_rt_u64(b, 1, server_time);
        },
        ServerMessageV::SyncRequired => {
        },
    }
}

/// Casting an unsigned 64-bit value through its signed reading and back
/// is the identity.
pub proof fn lemma_cast_u64(x: u64)
    ensures
        ((x as i64) as u64) == x,
{
    assert(((x as i64) as u64) == x) by (bit_vector);
}

/// What the control-command parser accepts is exactly an encoded command:
/// a parsed command re-encodes to the very bytes it was read from.
pub proof fn lemma_sound_cmd_at(b: Seq<u8>, i: int, c: ControlCommandV, j: int)
    requires
        sdec_cmd_at(b, i) == Some((c, j)),
    ensures
        0 <= i,
        j == i + spec_enc_cmd(c).len(),
        j <= b.len(),
        b.subrange(i, j) == spec_enc_cmd(c),
{
    lemma_auto_spec_u64_to_from_le_bytes();
    let tag = b[i];
    if tag == 0 {
        let (start_at_ms, j1) = sd_u64(b, i + 1).unwrap();
        let (delay_ms, j2) = sd_u64(b, j1).unwrap();
        crate::wire::lemma_sound_u64(b, i + 1, start_at_ms, j1);
        crate::wire::lemma_sound_u64(b, j1, delay_ms, j2);
        assert(b.subrange(i, i + 17) =~= seq![0u8] + b.subrange(i + 1, i + 9) + b.subrange(
            i + 9,
            i + 17,
        ));
    } else if tag == 1 {
        assert(b.subrange(i, i + 1) =~= seq![1u8]);
    } else if tag == 2 {
        let (position_ms, j1) = sd_u64(b, i + 1).unwrap();
        crate::wire::lemma_sound_u64(b, i + 1, position_ms, j1);
        assert(b.subrange(i, i + 9) =~= seq![2u8] + b.subrange(i + 1, i + 9));
    }
}

/// The binary client parser accepts exactly the encodings: a decoded
/// message re-encodes to the very frame it came from.
pub proof fn lemma_sound_client(b: Seq<u8>, m: ClientMessageV)
    requires
        sdec_client(b) == Some(m),
    ensures
        b == spec_enc_client(m),
        client_wire_fits(m),
{
    lemma_auto_spec_u64_to_from_le_bytes();
    let tag = b[0];
    let full = b.subrange(0, b.len() as int);
    assert(full =~= b);
    if tag == 0 {
        let (device_id, j1) = sd_str(b, 1).unwrap();
        crate::wire::lemma_sound_str(b, 1, device_id, j1);
        assert(b =~= seq![0u8] + b.subrange(1, j1));
    } else if tag == 1 {
        let (t0, j1) = sd_u64(b, 1).unwrap();
        crate::wire::lemma_sound_u64(b, 1, t0, j1);
        assert(b =~= seq![1u8] + b.subrange(1, 9) + seq![b[9]]);
    } else if tag == 2 {
        let (rtt, j1) = sd_u64(b, 1).unwrap();
        let (offset, j2) = sd_u64(b, j1).unwrap();
        let (drift, j3) = sd_u64(b, j2).unwrap();
        let (status, j4) = sd_str(b, j3).unwrap();
        crate::wire::lemma_sound_u64(b, 1, rtt, j1);
        crate::wire::lemma_sound_u64(b, j1, offset, j2);
        crate::wire::lemma_sound_u64(b, j2, drift, j3);
        crate::wire::lemma_sound_str(b, j3, status, j4);
        lemma_cast_u64(offset);
        lemma_cast_u64(drift);
        assert(b =~= seq![2u8] + b.subrange(1, 9) + b.subrange(9, 17) + b.subrange(17, 25)
            + b.subrange(25, j4));
    } else if tag == 3 {
        let (track_url, j1) = sd_str(b, 1).unwrap();
        let (delay_ms, j2) = sd_u64(b, j1).unwrap();
        crate::wire::lemma_sound_str(b, 1, track_url, j1);
        crate::wire::lemma_sound_u64(b, j1, delay_ms, j2);
        assert(b =~= seq![3u8] + b.subrange(1, j1) + b.subrange(j1, j2));
    } else if tag == 4 {
        let (cmd, j1) = sdec_cmd_at(b, 1).unwrap();
        lemma_sound_cmd_at(b, 1, cmd, j1);
        assert(b =~= seq![4u8] + b.subrange(1, j1));
    }
}

/// The binary server parser accepts exactly the encodings: a decoded
/// message re-encodes to the very frame it came from.
pub proof fn lemma_sound_server(b: Seq<u8>, m: ServerMessageV)
    requires
        sdec_server(b) == Some(m),
    ensures
        b == spec_enc_server(m),
        server_wire_fits(m),
{
    lemma_auto_spec_u64_to_from_le_bytes();
    let tag = b[0];
    if tag == 0 {
        let (session_id, j1) = sd_str(b, 1).unwrap();
        crate::wire::lemma_sound_str(b, 1, session_id, j1);
        assert(b =~= seq![0u8] + b.subrange(1, j1));
    } else if tag == 1 {
        let (t0, j1) = sd_u64(b, 1).unwrap();
        let (t1, j2) = sd_u64(b, j1).unwrap();
        let (t2, j3) = sd_u64(b, j2).unwrap();
        crate::wire::lemma_sound_u64(b, 1, t0, j1);
        crate::wire::lemma_sound_u64(b, j1, t1, j2);
        crate::wire::lemma_sound_u64(b, j2, t2, j3);
        assert(b =~= seq![1u8] + b.subrange(1, 9) + b.subrange(9, 17) + b.subrange(17, 25)
            + seq![b[25]]);
    } else if tag == 2 {
        let (track_url, j1) = sd_str(b, 1).unwrap();
        let (start_at_server_time, j2) = sd_u64(b, j1).unwrap();
        let (start_at_position_ms, j3) = sd_u64(b, j2).unwrap();
        let (server_time_at_broadcast, j4) = sd_u64(b, j3).unwrap();
        crate::wire::lemma_sound_str(b, 1, track_url, j1);
        crate::wire::lemma_sound_u64(b, j1, start_at_server_time, j2);
        crate::wire::lemma_sound_u64(b, j2, start_at_position_ms, j3);
        crate::wire::lemma_sound_u64(b, j3, server_time_at_broadcast, j4);
        assert(b =~= seq![2u8] + b.subrange(1, j1) + b.subrange(j1, j2) + b.subrange(j2, j3)
            + b.subrange(j3, j4));
    } else if tag == 3 {
        let (server_time, j1) = sd_u64(b, 1).unwrap();
        crate::wire::lemma_sound_u64(b, 1, server_time, j1);
        assert(b =~= seq![3u8] + b.subrange(1, 9));
    } else if tag == 4 {
        assert(b =~= seq![4u8]);
    }
}

} // verus!
