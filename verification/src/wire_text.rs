//! The text wire encoding: a self-describing key-value form used by
//! dashboard sessions. Each frame names its message and fields; integers
//! are fixed-width lower-case hexadecimal, strings carry a fixed-width
//! character count followed by their characters. Each frame carries
//! exactly one message; decoding consumes the whole frame.

use vstd::prelude::*;
use crate::hexfmt::{
    lemma_hex_len, lemma_pow16_16, lemma_rt_hex, push_hex, read_hex, spec_hex, st_hex,
};
use crate::messages::{
    ClientMessage, ClientMessageV, ControlCommand, ControlCommandV, ServerMessage, ServerMessageV,
};
use crate::wire::lemma_piece;
use crate::wire_binary::lemma_cast_i64;

verus! {

/// Whether the text `l` stands at position `i` of `s`.
pub open spec fn spec_match_at(s: Seq<char>, i: int, l: Seq<char>) -> bool {
    0 <= i && i + l.len() <= s.len() && s.subrange(i, i + l.len()) == l
}

/// Whether the literal `lit` stands at position `at` of `s`.
pub fn match_lit(s: &str, at: usize, lit: &str) -> (r: bool)
    ensures
        r == spec_match_at(s@, at as int, lit@),
{
    let slen = s.unicode_len();
    let n = lit.unicode_len();
    if at > slen || n > slen - at {
        return false;
    }
    let mut k: usize = 0;
    while k < n
        invariant
            at + n <= slen,
            slen == s@.len(),
            n == lit@.len(),
            k <= n,
            forall|q: int| 0 <= q < k ==> s@[at + q] == lit@[q],
        decreases n - k,
    {
        if s.get_char(at + k) != lit.get_char(k) {
            proof {
                if spec_match_at(s@, at as int, lit@) {
                    assert(s@.subrange(at as int, at as int + lit@.len())[k as int] == lit@[
                        k as int
                    ]);
                }
            }
            return false;
        }
        k = k + 1;
    }
    proof {
        assert(s@.subrange(at as int, at as int + lit@.len()) =~= lit@);
    }
    true
}

/// A text that differs from `l` somewhere under its length does not carry
/// `l` at `i`.
proof fn lemma_mismatch(s: Seq<char>, i: int, l: Seq<char>, k: int)
    requires
        0 <= k < l.len(),
        (0 <= i && i + l.len() <= s.len()) ==> s[i + k] != l[k],
    ensures
        !spec_match_at(s, i, l),
{
    if spec_match_at(s, i, l) {
        assert(s.subrange(i, i + l.len())[k] == l[k]);
    }
}

/// The text form of a string field: its character count as sixteen
/// hexadecimal digits, then its characters.
pub open spec fn spec_enc_text_str(s: Seq<char>) -> Seq<char> {
    spec_hex(s.len(), 16) + s
}

/// A string's text form fits only while its character count fits in
/// 64 bits; every string held in memory fits.
pub open spec fn text_fits(s: Seq<char>) -> bool {
    s.len() <= u64::MAX
}

/// Parse a string field at `i`.
pub open spec fn st_str(s: Seq<char>, i: int) -> Option<(Seq<char>, int)> {
    match st_hex(s, i, 16) {
        Some((n, j)) => if j + n <= s.len() {
            Some((s.subrange(j, j + n), j + n))
        } else {
            None
        },
        None => None,
    }
}

/// Read a string field at `at`, yielding the string and the position
/// after it.
pub fn read_text_str(s: &str, at: usize) -> (r: Option<(String, usize)>)
    requires
        at <= s@.len(),
    ensures
        match r {
            Some((text, j)) => st_str(s@, at as int) == Some((text@, j as int)),
            None => st_str(s@, at as int) is None,
        },
{
    let slen = s.unicode_len();
    if slen - at < 16 {
        return None;
    }
    let n = match read_hex(s, at, 16) {
        Some(n) => n,
        None => {
            return None;
        },
    };
    let j = at + 16;
    if n > (slen - j) as u64 {
        return None;
    }
    let n_usize = n as usize;
    let piece = s.substring_char(j, j + n_usize);
    Some((piece.to_owned(), j + n_usize))
}

/// Append the text form of a string field.
pub fn push_text_str(out: &mut String, s: &str)
    ensures
        final(out)@ == old(out)@ + spec_enc_text_str(s@),
{
    let n = s.unicode_len();
    push_hex(out, n as u64, 16);
    out.append(s);
    proof {
        assert(final(out)@ =~= old(out)@ + spec_enc_text_str(s@));
    }
}

/// Parsing a string field printed inside a larger text yields the string
/// back and stops right after it.
pub proof fn lemma_rt_text_str(sv: Seq<char>, i: int, s: Seq<char>)
    requires
        0 <= i,
        text_fits(s),
        i + spec_enc_text_str(s).len() <= sv.len(),
        sv.subrange(i, i + spec_enc_text_str(s).len()) == spec_enc_text_str(s),
    ensures
        spec_enc_text_str(s).len() == 16 + s.len(),
        st_str(sv, i) == Some((s, i + spec_enc_text_str(s).len())),
{
    lemma_pow16_16();
    lemma_hex_len(s.len(), 16);
    let whole = spec_enc_text_str(s);
    assert(whole.subrange(0, 16) =~= spec_hex(s.len(), 16));
    lemma_piece(sv, i, whole, 0, spec_hex(s.len(), 16));
    lemma_rt_hex(sv, i, s.len() as u64, 16);
    assert(whole.subrange(16, 16 + s.len() as int) =~= s);
    lemma_piece(sv, i, whole, 16, s);
}

/// The text form of a control command.
pub open spec fn spec_text_cmd(c: ControlCommandV) -> Seq<char> {
    match c {
        ControlCommandV::Play { start_at_ms, delay_ms } => "play pos="@ + spec_hex(
            start_at_ms as nat,
            16,
        ) + " delay="@ + spec_hex(delay_ms as nat, 16),
        ControlCommandV::Pause => "pause"@,
        ControlCommandV::Seek { position_ms } => "seek pos="@ + spec_hex(position_ms as nat, 16),
    }
}

/// Parse one control command at `i`, yielding the command and the
/// position after it.
pub open spec fn st_cmd_at(s: Seq<char>, i: int) -> Option<(ControlCommandV, int)> {
    if spec_match_at(s, i, "play pos="@) {
        let j = i + "play pos="@.len();
        match st_hex(s, j, 16) {
            Some((start_at_ms, j1)) => if spec_match_at(s, j1, " delay="@) {
                match st_hex(s, j1 + " delay="@.len(), 16) {
                    Some((delay_ms, j2)) => Some(
                        (ControlCommandV::Play { start_at_ms, delay_ms }, j2),
                    ),
                    None => None,
                }
            } else {
                None
            },
            None => None,
        }
    } else if spec_match_at(s, i, "pause"@) {
        Some((ControlCommandV::Pause, i + "pause"@.len()))
    } else if spec_match_at(s, i, "seek pos="@) {
        match st_hex(s, i + "seek pos="@.len(), 16) {
            Some((position_ms, j1)) => Some((ControlCommandV::Seek { position_ms }, j1)),
            None => None,
        }
    } else {
        None
    }
}

/// Parse a whole text frame as a control command: one command, nothing
/// after it.
pub open spec fn st_cmd(s: Seq<char>) -> Option<ControlCommandV> {
    match st_cmd_at(s, 0) {
        Some((c, j)) => if j == s.len() {
            Some(c)
        } else {
            None
        },
        None => None,
    }
}

/// Encode a control command in the text form.
pub fn encode_control_command_text(c: &ControlCommand) -> (r: String)
    ensures
        r@ == spec_text_cmd(c@),
{
    let mut out = String::new();
    match c {
        ControlCommand::Play { start_at_ms, delay_ms } => {
            out.append("play pos=");
            push_hex(&mut out, *start_at_ms, 16);
            out.append(" delay=");
            push_hex(&mut out, *delay_ms, 16);
        },
        ControlCommand::Pause => {
            out.append("pause");
        },
        ControlCommand::Seek { position_ms } => {
            out.append("seek pos=");
            push_hex(&mut out, *position_ms, 16);
        },
    }
    proof {
        assert(out@ =~= spec_text_cmd(c@));
    }
    out
}

/// Decode one control command at `at`, yielding the command and the
/// position after it.
fn decode_cmd_text_at(s: &str, at: usize) -> (r: Option<(ControlCommand, usize)>)
    requires
        at <= s@.len(),
    ensures
        match r {
            Some((c, j)) => st_cmd_at(s@, at as int) == Some((c@, j as int)) && j <= s@.len(),
            None => st_cmd_at(s@, at as int) is None,
        },
{
    let slen = s.unicode_len();
    if match_lit(s, at, "play pos=") {
        let j = at + "play pos=".unicode_len();
        if slen - j < 16 {
            return None;
        }
        let start_at_ms = match read_hex(s, j, 16) {
            Some(x) => x,
            None => {
                return None;
            },
        };
        let j1 = j + 16;
        if !match_lit(s, j1, " delay=") {
            return None;
        }
        let j2 = j1 + " delay=".unicode_len();
        if slen - j2 < 16 {
            return None;
        }
        let delay_ms = match read_hex(s, j2, 16) {
            Some(x) => x,
            None => {
                return None;
            },
        };
        Some((ControlCommand::Play { start_at_ms, delay_ms }, j2 + 16))
    } else if match_lit(s, at, "pause") {
        Some((ControlCommand::Pause, at + "pause".unicode_len()))
    } else if match_lit(s, at, "seek pos=") {
        let j = at + "seek pos=".unicode_len();
        if slen - j < 16 {
            return None;
        }
        let position_ms = match read_hex(s, j, 16) {
            Some(x) => x,
            None => {
                return None;
            },
        };
        Some((ControlCommand::Seek { position_ms }, j + 16))
    } else {
        None
    }
}

/// Decode a whole text frame as a control command; `None` on a malformed
/// or incompletely consumed frame.
pub fn decode_control_command_text(s: &str) -> (r: Option<ControlCommand>)
    ensures
        match r {
            Some(c) => st_cmd(s@) == Some(c@),
            None => st_cmd(s@) is None,
        },
{
    match decode_cmd_text_at(s, 0) {
        Some((c, j)) => if j == s.unicode_len() {
            Some(c)
        } else {
            None
        },
        None => None,
    }
}

/// Parsing an encoded control command inside a larger text yields the
/// command back and stops right after it.
pub proof fn lemma_rt_text_cmd_at(s: Seq<char>, i: int, c: ControlCommandV)
    requires
        0 <= i,
        i + spec_text_cmd(c).len() <= s.len(),
        s.subrange(i, i + spec_text_cmd(c).len()) == spec_text_cmd(c),
    ensures
        st_cmd_at(s, i) == Some((c, i + spec_text_cmd(c).len())),
{
    lemma_pow16_16();
    reveal_strlit("play pos=");
    reveal_strlit("pause");
    reveal_strlit("seek pos=");
    reveal_strlit(" delay=");
    let whole = spec_text_cmd(c);
    let l = whole.len();
    match c {
        ControlCommandV::Play { start_at_ms, delay_ms } => {
            lemma_hex_len(start_at_ms as nat, 16);
            lemma_hex_len(delay_ms as nat, 16);
            assert(whole.subrange(0, 9) =~= "play pos="@);
            lemma_piece(s, i, whole, 0, "play pos="@);
            assert(whole.subrange(9, 25) =~= spec_hex(start_at_ms as nat, 16));
            lemma_piece(s, i, whole, 9, spec_hex(start_at_ms as nat, 16));
            lemma_rt_hex(s, i + 9, start_at_ms, 16);
            assert(whole.subrange(25, 32) =~= " delay="@);
            lemma_piece(s, i, whole, 25, " delay="@);
            assert(whole.subrange(32, 48) =~= spec_hex(delay_ms as nat, 16));
            lemma_piece(s, i, whole, 32, spec_hex(delay_ms as nat, 16));
            lemma_rt_hex(s, i + 32, delay_ms, 16);
        },
        ControlCommandV::Pause => {
            assert(whole.subrange(0, 5) =~= "pause"@);
            lemma_piece(s, i, whole, 0, "pause"@);
            assert(s.subrange(i, i + 5)[1] == s[i + 1]);
            lemma_mismatch(s, i, "play pos="@, 1);
        },
        ControlCommandV::Seek { position_ms } => {
            lemma_hex_len(position_ms as nat, 16);
            assert(whole.subrange(0, 9) =~= "seek pos="@);
            lemma_piece(s, i, whole, 0, "seek pos="@);
            assert(s.subrange(i, i + 9)[0] == s[i]);
            lemma_mismatch(s, i, "play pos="@, 0);
            lemma_mismatch(s, i, "pause"@, 0);
            assert(whole.subrange(9, 25) =~= spec_hex(position_ms as nat, 16));
            lemma_piece(s, i, whole, 9, spec_hex(position_ms as nat, 16));
            lemma_rt_hex(s, i + 9, position_ms, 16);
        },
    }
}

/// Decoding the text form of a control command yields the command back.
pub proof fn lemma_cmd_text_round_trip(c: ControlCommandV)
    ensures
        st_cmd(spec_text_cmd(c)) == Some(c),
{
    let b = spec_text_cmd(c);
    assert(b.subrange(0, b.len() as int) =~= b);
    lemma_rt_text_cmd_at(b, 0, c);
}

/// The text form of a client message.
pub open spec fn spec_text_client(m: ClientMessageV) -> Seq<char> {
    match m {
        ClientMessageV::Join { device_id } => "join dev="@ + spec_enc_text_str(device_id),
        ClientMessageV::TimeRequest { t0, seq } => "time t0="@ + spec_hex(t0 as nat, 16)
            + " seq="@ + spec_hex(seq as nat, 2),
        ClientMessageV::Telemetry { rtt, offset, drift, status } => "telemetry rtt="@ + spec_hex(
            rtt as nat,
            16,
        ) + " off="@ + spec_hex((offset as u64) as nat, 16) + " drift="@ + spec_hex(
            (drift as u64) as nat,
            16,
        ) + " status="@ + spec_enc_text_str(status),
        ClientMessageV::PlayRequest { track_url, delay_ms } => "request url="@
            + spec_enc_text_str(track_url) + " delay="@ + spec_hex(delay_ms as nat, 16),
        ClientMessageV::CommandRequest { cmd } => "command "@ + spec_text_cmd(cmd),
    }
}

/// Parse a whole text frame as a client message.
pub open spec fn st_client(s: Seq<char>) -> Option<ClientMessageV> {
    if spec_match_at(s, 0, "join dev="@) {
        match st_str(s, "join dev="@.len() as int) {
            Some((device_id, j)) => if j == s.len() {
                Some(ClientMessageV::Join { device_id })
            } else {
                None
            },
            None => None,
        }
    } else if spec_match_at(s, 0, "time t0="@) {
        match st_hex(s, "time t0="@.len() as int, 16) {
            Some((t0, j)) => if spec_match_at(s, j, " seq="@) {
                match st_hex(s, j + " seq="@.len(), 2) {
                    Some((seq, j1)) => if j1 == s.len() {
                        Some(ClientMessageV::TimeRequest { t0, seq: seq as u8 })
                    } else {
                        None
                    },
                    None => None,
                }
            } else {
                None
            },
            None => None,
        }
    } else if spec_match_at(s, 0, "telemetry rtt="@) {
        match st_hex(s, "telemetry rtt="@.len() as int, 16) {
            Some((rtt, j)) => if spec_match_at(s, j, " off="@) {
                match st_hex(s, j + " off="@.len(), 16) {
                    Some((offset, j1)) => if spec_match_at(s, j1, " drift="@) {
                        match st_hex(s, j1 + " drift="@.len(), 16) {
                            Some((drift, j2)) => if spec_match_at(s, j2, " status="@) {
                                match st_str(s, j2 + " status="@.len()) {
                                    Some((status, j3)) => if j3 == s.len() {
                                        Some(ClientMessageV::Telemetry {
                                            rtt,
                                            offset: offset as i64,
                                            drift: drift as i64,
                                            status,
                                        })
                                    } else {
                                        None
                                    },
                                    None => None,
                                }
                            } else {
                                None
                            },
                            None => None,
                        }
                    } else {
                        None
                    },
                    None => None,
                }
            } else {
                None
            },
            None => None,
        }
    } else if spec_match_at(s, 0, "request url="@) {
        match st_str(s, "request url="@.len() as int) {
            Some((track_url, j)) => if spec_match_at(s, j, " delay="@) {
                match st_hex(s, j + " delay="@.len(), 16) {
                    Some((delay_ms, j1)) => if j1 == s.len() {
                        Some(ClientMessageV::PlayRequest { track_url, delay_ms })
                    } else {
                        None
                    },
                    None => None,
                }
            } else {
                None
            },
            None => None,
        }
    } else if spec_match_at(s, 0, "command "@) {
        match st_cmd_at(s, "command "@.len() as int) {
            Some((cmd, j)) => if j == s.len() {
                Some(ClientMessageV::CommandRequest { cmd })
            } else {
                None
            },
            None => None,
        }
    } else {
        None
    }
}

/// The text form of a server message.
pub open spec fn spec_text_server(m: ServerMessageV) -> Seq<char> {
    match m {
        ServerMessageV::Welcome { session_id } => "welcome sid="@ + spec_enc_text_str(session_id),
        ServerMessageV::TimeResponse { t0, t1, t2, seq } => "time t0="@ + spec_hex(t0 as nat, 16)
            + " t1="@ + spec_hex(t1 as nat, 16) + " t2="@ + spec_hex(t2 as nat, 16) + " seq="@
            + spec_hex(seq as nat, 2),
        ServerMessageV::PlayCommand {
            track_url,
            start_at_server_time,
            start_at_position_ms,
            server_time_at_broadcast,
        } => "play url="@ + spec_enc_text_str(track_url) + " start="@ + spec_hex(
            start_at_server_time as nat,
            16,
        ) + " pos="@ + spec_hex(start_at_position_ms as nat, 16) + " at="@ + spec_hex(
            server_time_at_broadcast as nat,
            16,
        ),
        ServerMessageV::PauseCommand { server_time } => "pause at="@ + spec_hex(
            server_time as nat,
            16,
        ),
        ServerMessageV::SyncRequired => "resync"@,
    }
}

/// Parse a whole text frame as a server message.
pub open spec fn st_server(s: Seq<char>) -> Option<ServerMessageV> {
    if spec_match_at(s, 0, "welcome sid="@) {
        match st_str(s, "welcome sid="@.len() as int) {
            Some((session_id, j)) => if j == s.len() {
                Some(ServerMessageV::Welcome { session_id })
            } else {
                None
            },
            None => None,
        }
    } else if spec_match_at(s, 0, "time t0="@) {
        match st_hex(s, "time t0="@.len() as int, 16) {
            Some((t0, j)) => if spec_match_at(s, j, " t1="@) {
                match st_hex(s, j + " t1="@.len(), 16) {
                    Some((t1, j1)) => if spec_match_at(s, j1, " t2="@) {
                        match st_hex(s, j1 + " t2="@.len(), 16) {
                            Some((t2, j2)) => if spec_match_at(s, j2, " seq="@) {
                                match st_hex(s, j2 + " seq="@.len(), 2) {
                                    Some((seq, j3)) => if j3 == s.len() {
                                        Some(ServerMessageV::TimeResponse {
                                            t0,
                                            t1,
                                            t2,
                                            seq: seq as u8,
                                        })
                                    } else {
                                        None
                                    },
                                    None => None,
                                }
                            } else {
                                None
                            },
                            None => None,
                        }
                    } else {
                        None
                    },
                    None => None,
                }
            } else {
                None
            },
            None => None,
        }
    } else if spec_match_at(s, 0, "play url="@) {
        match st_str(s, "play url="@.len() as int) {
            Some((track_url, j)) => if spec_match_at(s, j, " start="@) {
                match st_hex(s, j + " start="@.len(), 16) {
                    Some((start_at_server_time, j1)) => if spec_match_at(s, j1, " pos="@) {
                        match st_hex(s, j1 + " pos="@.len(), 16) {
                            Some((start_at_position_ms, j2)) => if spec_match_at(s, j2, " at="@) {
                                match st_hex(s, j2 + " at="@.len(), 16) {
                                    Some((server_time_at_broadcast, j3)) => if j3 == s.len() {
                                        Some(ServerMessageV::PlayCommand {
                                            track_url,
                                            start_at_server_time,
                                            start_at_position_ms,
                                            server_time_at_broadcast,
                                        })
                                    } else {
                                        None
                                    },
                                    None => None,
                                }
                            } else {
                                None
                            },
                            None => None,
                        }
                    } else {
                        None
                    },
                    None => None,
                }
            } else {
                None
            },
            None => None,
        }
    } else if spec_match_at(s, 0, "pause at="@) {
        match st_hex(s, "pause at="@.len() as int, 16) {
            Some((server_time, j)) => if j == s.len() {
                Some(ServerMessageV::PauseCommand { server_time })
            } else {
                None
            },
            None => None,
        }
    } else if spec_match_at(s, 0, "resync"@) {
        if "resync"@.len() as int == s.len() {
            Some(ServerMessageV::SyncRequired)
        } else {
            None
        }
    } else {
        None
    }
}

/// Encode a client message in the text form.
pub fn encode_client_message_text(m: &ClientMessage) -> (r: String)
    ensures
        r@ == spec_text_client(m@),
{
    let mut out = String::new();
    match m {
        ClientMessage::Join { device_id } => {
            out.append("join dev=");
            push_text_str(&mut out, device_id.as_str());
        },
        ClientMessage::TimeRequest { t0, seq } => {
            out.append("time t0=");
            push_hex(&mut out, *t0, 16);
            out.append(" seq=");
            push_hex(&mut out, *seq as u64, 2);
        },
        ClientMessage::Telemetry { rtt, offset, drift, status } => {
            out.append("telemetry rtt=");
            push_hex(&mut out, *rtt, 16);
            out.append(" off=");
            push_hex(&mut out, *offset as u64, 16);
            out.append(" drift=");
            push_hex(&mut out, *drift as u64, 16);
            out.append(" status=");
            push_text_str(&mut out, status.as_str());
        },
        ClientMessage::PlayRequest { track_url, delay_ms } => {
            out.append("request url=");
            push_text_str(&mut out, track_url.as_str());
            out.append(" delay=");
            push_hex(&mut out, *delay_ms, 16);
        },
        ClientMessage::CommandRequest { cmd } => {
            out.append("command ");
            let body = encode_control_command_text(cmd);
            out.append(body.as_str());
        },
    }
    proof {
        assert(out@ =~= spec_text_client(m@));
    }
    out
}

/// Encode a server message in the text form.
pub fn encode_server_message_text(m: &ServerMessage) -> (r: String)
    ensures
        r@ == spec_text_server(m@),
{
    let mut out = String::new();
    match m {
        ServerMessage::Welcome { session_id } => {
            out.append("welcome sid=");
            push_text_str(&mut out, session_id.as_str());
        },
        ServerMessage::TimeResponse { t0, t1, t2, seq } => {
            out.append("time t0=");
            push_hex(&mut out, *t0, 16);
            out.append(" t1=");
            push_hex(&mut out, *t1, 16);
            out.append(" t2=");
            push_hex(&mut out, *t2, 16);
            out.append(" seq=");
            push_hex(&mut out, *seq as u64, 2);
        },
        ServerMessage::PlayCommand {
            track_url,
            start_at_server_time,
            start_at_position_ms,
            server_time_at_broadcast,
        } => {
            out.append("play url=");
            push_text_str(&mut out, track_url.as_str());
            out.append(" start=");
            push_hex(&mut out, *start_at_server_time, 16);
            out.append(" pos=");
            push_hex(&mut out, *start_at_position_ms, 16);
            out.append(" at=");
            push_hex(&mut out, *server_time_at_broadcast, 16);
        },
        ServerMessage::PauseCommand { server_time } => {
            out.append("pause at=");
            push_hex(&mut out, *server_time, 16);
        },
        ServerMessage::SyncRequired => {
            out.append("resync");
        },
    }
    proof {
        assert(out@ =~= spec_text_server(m@));
    }
    out
}

/// Decode a whole text frame as a client message; `None` on a malformed
/// or incompletely consumed frame.
pub fn decode_client_message_text(s: &str) -> (r: Option<ClientMessage>)
    ensures
        match r {
            Some(m) => st_client(s@) == Some(m@),
            None => st_client(s@) is None,
        },
{
    let slen = s.unicode_len();
    if match_lit(s, 0, "join dev=") {
        let j = "join dev=".unicode_len();
        match read_text_str(s, j) {
            Some((device_id, j1)) => if j1 == slen {
                Some(ClientMessage::Join { device_id })
            } else {
                None
            },
            None => None,
        }
    } else if match_lit(s, 0, "time t0=") {
        let j = "time t0=".unicode_len();
        if slen - j < 16 {
            return None;
        }
        let t0 = match read_hex(s, j, 16) {
            Some(x) => x,
            None => {
                return None;
            },
        };
        if !match_lit(s, j + 16, " seq=") {
            return None;
        }
        let j1 = j + 16 + " seq=".unicode_len();
        if slen - j1 < 2 {
            return None;
        }
        let seq = match read_hex(s, j1, 2) {
            Some(x) => x,
            None => {
                return None;
            },
        };
        proof {
            crate::hexfmt::lemma_unhex_bound(s@.subrange(j1 as int, j1 as int + 2));
            lemma_pow16_16();
        }
        if j1 + 2 == slen {
            Some(ClientMessage::TimeRequest { t0, seq: seq as u8 })
        } else {
            None
        }
    } else if match_lit(s, 0, "telemetry rtt=") {
        let j = "telemetry rtt=".unicode_len();
        if slen - j < 16 {
            return None;
        }
        let rtt = match read_hex(s, j, 16) {
            Some(x) => x,
            None => {
                return None;
            },
        };
        if !match_lit(s, j + 16, " off=") {
            return None;
        }
        let j1 = j + 16 + " off=".unicode_len();
        if slen - j1 < 16 {
            return None;
        }
        let offset = match read_hex(s, j1, 16) {
            Some(x) => x,
            None => {
                return None;
            },
        };
        if !match_lit(s, j1 + 16, " drift=") {
            return None;
        }
        let j2 = j1 + 16 + " drift=".unicode_len();
        if slen - j2 < 16 {
            return None;
        }
        let drift = match read_hex(s, j2, 16) {
            Some(x) => x,
            None => {
                return None;
            },
        };
        if !match_lit(s, j2 + 16, " status=") {
            return None;
        }
        let j3 = j2 + 16 + " status=".unicode_len();
        match read_text_str(s, j3) {
            Some((status, j4)) => if j4 == slen {
                Some(ClientMessage::Telemetry {
                    rtt,
                    offset: offset as i64,
                    drift: drift as i64,
                    status,
                })
            } else {
                None
            },
            None => None,
        }
    } else if match_lit(s, 0, "request url=") {
        let j = "request url=".unicode_len();
        match read_text_str(s, j) {
            Some((track_url, j1)) => {
                proof {
                    assert(j1 as int <= s@.len());
                }
                if !match_lit(s, j1, " delay=") {
                    return None;
                }
                let j2 = j1 + " delay=".unicode_len();
                if slen - j2 < 16 {
                    return None;
                }
                let delay_ms = match read_hex(s, j2, 16) {
                    Some(x) => x,
                    None => {
                        return None;
                    },
                };
                if j2 + 16 == slen {
                    Some(ClientMessage::PlayRequest { track_url, delay_ms })
                } else {
                    None
                }
            },
            None => None,
        }
    } else if match_lit(s, 0, "command ") {
        let j = "command ".unicode_len();
        match decode_cmd_text_at(s, j) {
            Some((cmd, j1)) => if j1 == slen {
                Some(ClientMessage::CommandRequest { cmd })
            } else {
                None
            },
            None => None,
        }
    } else {
        None
    }
}

/// Decode a whole text frame as a server message; `None` on a malformed
/// or incompletely consumed frame.
pub fn decode_server_message_text(s: &str) -> (r: Option<ServerMessage>)
    ensures
        match r {
            Some(m) => st_server(s@) == Some(m@),
            None => st_server(s@) is None,
        },
{
    let slen = s.unicode_len();
    if match_lit(s, 0, "welcome sid=") {
        let j = "welcome sid=".unicode_len();
        match read_text_str(s, j) {
            Some((session_id, j1)) => if j1 == slen {
                Some(ServerMessage::Welcome { session_id })
            } else {
                None
            },
            None => None,
        }
    } else if match_lit(s, 0, "time t0=") {
        let j = "time t0=".unicode_len();
        if slen - j < 16 {
            return None;
        }
        let t0 = match read_hex(s, j, 16) {
            Some(x) => x,
            None => {
                return None;
            },
        };
        if !match_lit(s, j + 16, " t1=") {
            return None;
        }
        let j1 = j + 16 + " t1=".unicode_len();
        if slen - j1 < 16 {
            return None;
        }
        let t1 = match read_hex(s, j1, 16) {
            Some(x) => x,
            None => {
                return None;
            },
        };
        if !match_lit(s, j1 + 16, " t2=") {
            return None;
        }
        let j2 = j1 + 16 + " t2=".unicode_len();
        if slen - j2 < 16 {
            return None;
        }
        let t2 = match read_hex(s, j2, 16) {
            Some(x) => x,
            None => {
                return None;
            },
        };
        if !match_lit(s, j2 + 16, " seq=") {
            return None;
        }
        let j3 = j2 + 16 + " seq=".unicode_len();
        if slen - j3 < 2 {
            return None;
        }
        let seq = match read_hex(s, j3, 2) {
            Some(x) => x,
            None => {
                return None;
            },
        };
        proof {
            crate::hexfmt::lemma_unhex_bound(s@.subrange(j3 as int, j3 as int + 2));
            lemma_pow16_16();
        }
        if j3 + 2 == slen {
            Some(ServerMessage::TimeResponse { t0, t1, t2, seq: seq as u8 })
        } else {
            None
        }
    } else if match_lit(s, 0, "play url=") {
        let j = "play url=".unicode_len();
        match read_text_str(s, j) {
            Some((track_url, j1)) => {
                proof {
                    assert(j1 as int <= s@.len());
                }
                if !match_lit(s, j1, " start=") {
                    return None;
                }
                let j2 = j1 + " start=".unicode_len();
                if slen - j2 < 16 {
                    return None;
                }
                let start_at_server_time = match read_hex(s, j2, 16) {
                    Some(x) => x,
                    None => {
                        return None;
                    },
                };
                if !match_lit(s, j2 + 16, " pos=") {
                    return None;
                }
                let j3 = j2 + 16 + " pos=".unicode_len();
                if slen - j3 < 16 {
                    return None;
                }
                let start_at_position_ms = match read_hex(s, j3, 16) {
                    Some(x) => x,
                    None => {
                        return None;
                    },
                };
                if !match_lit(s, j3 + 16, " at=") {
                    return None;
                }
                let j4 = j3 + 16 + " at=".unicode_len();
                if slen - j4 < 16 {
                    return None;
                }
                let server_time_at_broadcast = match read_hex(s, j4, 16) {
                    Some(x) => x,
                    None => {
                        return None;
                    },
                };
                if j4 + 16 == slen {
                    Some(ServerMessage::PlayCommand {
                        track_url,
                        start_at_server_time,
                        start_at_position_ms,
                        server_time_at_broadcast,
                    })
                } else {
                    None
                }
            },
            None => None,
        }
    } else if match_lit(s, 0, "pause at=") {
        let j = "pause at=".unicode_len();
        if slen - j < 16 {
            return None;
        }
        let server_time = match read_hex(s, j, 16) {
            Some(x) => x,
            None => {
                return None;
            },
        };
        if j + 16 == slen {
            Some(ServerMessage::PauseCommand { server_time })
        } else {
            None
        }
    } else if match_lit(s, 0, "resync") {
        if "resync".unicode_len() == slen {
            Some(ServerMessage::SyncRequired)
        } else {
            None
        }
    } else {
        None
    }
}

/// A client message's text form fits only while each of its strings does;
/// every message held in memory fits.
pub open spec fn client_text_fits(m: ClientMessageV) -> bool {
    match m {
        ClientMessageV::Join { device_id } => text_fits(device_id),
        ClientMessageV::Telemetry { status, .. } => text_fits(status),
        ClientMessageV::PlayRequest { track_url, .. } => text_fits(track_url),
        _ => true,
    }
}

/// A server message's text form fits only while each of its strings does;
/// every message held in memory fits.
pub open spec fn server_text_fits(m: ServerMessageV) -> bool {
    match m {
        ServerMessageV::Welcome { session_id } => text_fits(session_id),
        ServerMessageV::PlayCommand { track_url, .. } => text_fits(track_url),
        _ => true,
    }
}

/// Decoding the text form of a client message yields the message back.
#[verifier::rlimit(60)]
pub proof fn lemma_client_text_round_trip(m: ClientMessageV)
    requires
        client_text_fits(m),
    ensures
        st_client(spec_text_client(m)) == Some(m),
{
    lemma_pow16_16();
    reveal_strlit("join dev=");
    reveal_strlit("time t0=");
    reveal_strlit("telemetry rtt=");
    reveal_strlit("request url=");
    reveal_strlit("command ");
    reveal_strlit(" seq=");
    reveal_strlit(" off=");
    reveal_strlit(" drift=");
    reveal_strlit(" status=");
    reveal_strlit(" delay=");
    let b = spec_text_client(m);
    assert(b.subrange(0, b.len() as int) =~= b);
    match m {
        ClientMessageV::Join { device_id } => {
            lemma_hex_len(device_id.len(), 16);
            assert(b.subrange(0, 9) =~= "join dev="@);
            let es = spec_enc_text_str(device_id);
            assert(b.subrange(9, 9 + es.len() as int) =~= es);
            lemma_rt_text_str(b, 9, device_id);
        },
        ClientMessageV::TimeRequest { t0, seq } => {
            lemma_hex_len(t0 as nat, 16);
            lemma_hex_len(seq as nat, 2);
            assert(b[0] == 't');
            lemma_mismatch(b, 0, "join dev="@, 0);
            assert(b.subrange(0, 8) =~= "time t0="@);
            assert(b.subrange(8, 24) =~= spec_hex(t0 as nat, 16));
            lemma_rt_hex(b, 8, t0, 16);
            assert(b.subrange(24, 29) =~= " seq="@);
            assert(b.subrange(29, 31) =~= spec_hex(seq as nat, 2));
            lemma_rt_hex(b, 29, seq as u64, 2);
        },
        ClientMessageV::Telemetry { rtt, offset, drift, status } => {
            lemma_hex_len(rtt as nat, 16);
            lemma_hex_len((offset as u64) as nat, 16);
            lemma_hex_len((drift as u64) as nat, 16);
            lemma_hex_len(status.len(), 16);
            assert(b[0] == 't');
            assert(b[1] == 'e');
            lemma_mismatch(b, 0, "join dev="@, 0);
            lemma_mismatch(b, 0, "time t0="@, 1);
            assert(b.subrange(0, 14) =~= "telemetry rtt="@);
            assert(b.subrange(14, 30) =~= spec_hex(rtt as nat, 16));
            lemma_rt_hex(b, 14, rtt, 16);
            assert(b.subrange(30, 35) =~= " off="@);
            assert(b.subrange(35, 51) =~= spec_hex((offset as u64) as nat, 16));
            lemma_rt_hex(b, 35, offset as u64, 16);
            assert(b.subrange(51, 58) =~= " drift="@);
            assert(b.subrange(58, 74) =~= spec_hex((drift as u64) as nat, 16));
            lemma_rt_hex(b, 58, drift as u64, 16);
            assert(b.subrange(74, 82) =~= " status="@);
            let es = spec_enc_text_str(status);
            assert(b.subrange(82, 82 + es.len() as int) =~= es);
            lemma_rt_text_str(b, 82, status);
            lemma_cast_i64(offset);
            lemma_cast_i64(drift);
        },
        ClientMessageV::PlayRequest { track_url, delay_ms } => {
            lemma_hex_len(track_url.len(), 16);
            lemma_hex_len(delay_ms as nat, 16);
            assert(b[0] == 'r');
            lemma_mismatch(b, 0, "join dev="@, 0);
            lemma_mismatch(b, 0, "time t0="@, 0);
            lemma_mismatch(b, 0, "telemetry rtt="@, 0);
            assert(b.subrange(0, 12) =~= "request url="@);
            let es = spec_enc_text_str(track_url);
            let mid = 12 + es.len() as int;
            assert(b.subrange(12, mid) =~= es);
            lemma_rt_text_str(b, 12, track_url);
            assert(b.subrange(mid, mid + 7) =~= " delay="@);
            assert(b.subrange(mid + 7, mid + 23) =~= spec_hex(delay_ms as nat, 16));
            lemma_rt_hex(b, mid + 7, delay_ms, 16);
        },
        ClientMessageV::CommandRequest { cmd } => {
            assert(b[0] == 'c');
            lemma_mismatch(b, 0, "join dev="@, 0);
            lemma_mismatch(b, 0, "time t0="@, 0);
            lemma_mismatch(b, 0, "telemetry rtt="@, 0);
            lemma_mismatch(b, 0, "request url="@, 0);
            assert(b.subrange(0, 8) =~= "command "@);
            let ec = spec_text_cmd(cmd);
            assert(b.subrange(8, 8 + ec.len() as int) =~= ec);
            lemma_rt_text_cmd_at(b, 8, cmd);
        },
    }
}

/// Decoding the text form of a server message yields the message back.
#[verifier::rlimit(60)]
pub proof fn lemma_server_text_round_trip(m: ServerMessageV)
    requires
        server_text_fits(m),
    ensures
        st_server(spec_text_server(m)) == Some(m),
{
    lemma_pow16_16();
    reveal_strlit("welcome sid=");
    reveal_strlit("time t0=");
    reveal_strlit("play url=");
    reveal_strlit("pause at=");
    reveal_strlit("resync");
    reveal_strlit(" t1=");
    reveal_strlit(" t2=");
    reveal_strlit(" seq=");
    reveal_strlit(" start=");
    reveal_strlit(" pos=");
    reveal_strlit(" at=");
    let b = spec_text_server(m);
    assert(b.subrange(0, b.len() as int) =~= b);
    match m {
        ServerMessageV::Welcome { session_id } => {
            lemma_hex_len(session_id.len(), 16);
            assert(b.subrange(0, 12) =~= "welcome sid="@);
            let es = spec_enc_text_str(session_id);
            assert(b.subrange(12, 12 + es.len() as int) =~= es);
            lemma_rt_text_str(b, 12, session_id);
        },
        ServerMessageV::TimeResponse { t0, t1, t2, seq } => {
            lemma_hex_len(t0 as nat, 16);
            lemma_hex_len(t1 as nat, 16);
            lemma_hex_len(t2 as nat, 16);
            lemma_hex_len(seq as nat, 2);
            assert(b[0] == 't');
            lemma_mismatch(b, 0, "welcome sid="@, 0);
            assert(b.subrange(0, 8) =~= "time t0="@);
            assert(b.subrange(8, 24) =~= spec_hex(t0 as nat, 16));
            lemma_rt_hex(b, 8, t0, 16);
            assert(b.subrange(24, 28) =~= " t1="@);
            assert(b.subrange(28, 44) =~= spec_hex(t1 as nat, 16));
            lemma_rt_hex(b, 28, t1, 16);
            assert(b.subrange(44, 48) =~= " t2="@);
            assert(b.subrange(48, 64) =~= spec_hex(t2 as nat, 16));
            lemma_rt_hex(b, 48, t2, 16);
            assert(b.subrange(64, 69) =~= " seq="@);
            assert(b.subrange(69, 71) =~= spec_hex(seq as nat, 2));
            lemma_rt_hex(b, 69, seq as u64, 2);
        },
        ServerMessageV::PlayCommand {
            track_url,
            start_at_server_time,
            start_at_position_ms,
            server_time_at_broadcast,
        } => {
            lemma_hex_len(track_url.len(), 16);
            lemma_hex_len(start_at_server_time as nat, 16);
            lemma_hex_len(start_at_position_ms as nat, 16);
            lemma_hex_len(server_time_at_broadcast as nat, 16);
            assert(b[0] == 'p');
            lemma_mismatch(b, 0, "welcome sid="@, 0);
            lemma_mismatch(b, 0, "time t0="@, 0);
            assert(b.subrange(0, 9) =~= "play url="@);
            let es = spec_enc_text_str(track_url);
            let mid = 9 + es.len() as int;
            assert(b.subrange(9, mid) =~= es);
            lemma_rt_text_str(b, 9, track_url);
            assert(b.subrange(mid, mid + 7) =~= " start="@);
            assert(b.subrange(mid + 7, mid + 23) =~= spec_hex(start_at_server_time as nat, 16));
            lemma_rt_hex(b, mid + 7, start_at_server_time, 16);
            assert(b.subrange(mid + 23, mid + 28) =~= " pos="@);
            assert(b.subrange(mid + 28, mid + 44) =~= spec_hex(start_at_position_ms as nat, 16));
            lemma_rt_hex(b, mid + 28, start_at_position_ms, 16);
            assert(b.subrange(mid + 44, mid + 48) =~= " at="@);
            assert(b.subrange(mid + 48, mid + 64) =~= spec_hex(server_time_at_broadcast as nat, 16));
            lemma_rt_hex(b, mid + 48, server_time_at_broadcast, 16);
        },
        ServerMessageV::PauseCommand { server_time } => {
            lemma_hex_len(server_time as nat, 16);
            assert(b[0] == 'p');
            assert(b[1] == 'a');
            lemma_mismatch(b, 0, "welcome sid="@, 0);
            lemma_mismatch(b, 0, "time t0="@, 0);
            lemma_mismatch(b, 0, "play url="@, 1);
            assert(b.subrange(0, 9) =~= "pause at="@);
            assert(b.subrange(9, 25) =~= spec_hex(server_time as nat, 16));
            lemma_rt_hex(b, 9, server_time, 16);
        },
        ServerMessageV::SyncRequired => {
            assert(b[0] == 'r');
            lemma_mismatch(b, 0, "welcome sid="@, 0);
            lemma_mismatch(b, 0, "time t0="@, 0);
            lemma_mismatch(b, 0, "play url="@, 0);
            lemma_mismatch(b, 0, "pause at="@, 0);
            assert(b.subrange(0, 6) =~= "resync"@);
        },
    }
}

/// What the string-field parser accepts is exactly a printed string
/// field: a parsed string re-prints to the very characters it was read
/// from.
pub proof fn lemma_sound_text_str(s: Seq<char>, i: int, t: Seq<char>, j: int)
    requires
        st_str(s, i) == Some((t, j)),
    ensures
        text_fits(t),
        0 <= i,
        j == i + spec_enc_text_str(t).len(),
        j <= s.len(),
        s.subrange(i, j) == spec_enc_text_str(t),
{
    let (n, j0) = st_hex(s, i, 16).unwrap();
    crate::hexfmt::lemma_sound_hex(s, i, 16, n, j0);
    lemma_pow16_16();
    lemma_hex_len(t.len(), 16);
    assert(s.subrange(i, j) =~= s.subrange(i, i + 16) + s.subrange(i + 16, j));
}

/// What the command parser accepts is exactly a printed command: a
/// parsed command re-prints to the very characters it was read from.
pub proof fn lemma_sound_cmd_text_at(s: Seq<char>, i: int, c: ControlCommandV, j: int)
    requires
        st_cmd_at(s, i) == Some((c, j)),
    ensures
        0 <= i,
        j == i + spec_text_cmd(c).len(),
        j <= s.len(),
        s.subrange(i, j) == spec_text_cmd(c),
{
    reveal_strlit("play pos=");
    reveal_strlit("pause");
    reveal_strlit("seek pos=");
    reveal_strlit(" delay=");
    lemma_pow16_16();
    if spec_match_at(s, i, "play pos="@) {
        let (a, j1) = st_hex(s, i + 9, 16).unwrap();
        crate::hexfmt::lemma_sound_hex(s, i + 9, 16, a, j1);
        let (d, j2) = st_hex(s, j1 + 7, 16).unwrap();
        crate::hexfmt::lemma_sound_hex(s, j1 + 7, 16, d, j2);
        assert(s.subrange(i, j2) =~= s.subrange(i, i + 9) + s.subrange(i + 9, i + 25)
            + s.subrange(i + 25, i + 32) + s.subrange(i + 32, i + 48));
        lemma_hex_len(a as nat, 16);
        lemma_hex_len(d as nat, 16);
    } else if spec_match_at(s, i, "pause"@) {
        assert(s.subrange(i, i + 5) == "pause"@);
    } else if spec_match_at(s, i, "seek pos="@) {
        let (p, j1) = st_hex(s, i + 9, 16).unwrap();
        crate::hexfmt::lemma_sound_hex(s, i + 9, 16, p, j1);
        assert(s.subrange(i, j1) =~= s.subrange(i, i + 9) + s.subrange(i + 9, i + 25));
        lemma_hex_len(p as nat, 16);
    }
}

/// The text client parser accepts exactly the printed forms: a decoded
/// message re-prints to the very frame it came from.
#[verifier::rlimit(60)]
pub proof fn lemma_sound_text_client(s: Seq<char>, m: ClientMessageV)
    requires
        st_client(s) == Some(m),
    ensures
        s == spec_text_client(m),
        client_text_fits(m),
{
    reveal_strlit("join dev=");
    reveal_strlit("time t0=");
    reveal_strlit("telemetry rtt=");
    reveal_strlit("request url=");
    reveal_strlit("command ");
    reveal_strlit(" seq=");
    reveal_strlit(" off=");
    reveal_strlit(" drift=");
    reveal_strlit(" status=");
    reveal_strlit(" delay=");
    lemma_pow16_16();
    if spec_match_at(s, 0, "join dev="@) {
        let (device_id, j) = st_str(s, 9).unwrap();
        lemma_sound_text_str(s, 9, device_id, j);
        assert(s =~= s.subrange(0, 9) + s.subrange(9, j));
    } else if spec_match_at(s, 0, "time t0="@) {
        let (t0, j) = st_hex(s, 8, 16).unwrap();
        crate::hexfmt::lemma_sound_hex(s, 8, 16, t0, j);
        let (seq, j1) = st_hex(s, 29, 2).unwrap();
        crate::hexfmt::lemma_sound_hex(s, 29, 2, seq, j1);
        lemma_hex_len(t0 as nat, 16);
        lemma_hex_len((seq as u8) as nat, 2);
        assert(seq < 0x100);
        assert(s =~= s.subrange(0, 8) + s.subrange(8, 24) + s.subrange(24, 29) + s.subrange(
            29,
            31,
        ));
    } else if spec_match_at(s, 0, "telemetry rtt="@) {
        let (rtt, j) = st_hex(s, 14, 16).unwrap();
        crate::hexfmt::lemma_sound_hex(s, 14, 16, rtt, j);
        let (offset, j1) = st_hex(s, 35, 16).unwrap();
        crate::hexfmt::lemma_sound_hex(s, 35, 16, offset, j1);
        let (drift, j2) = st_hex(s, 58, 16).unwrap();
        crate::hexfmt::lemma_sound_hex(s, 58, 16, drift, j2);
        let (status, j3) = st_str(s, 82).unwrap();
        lemma_sound_text_str(s, 82, status, j3);
        crate::wire_binary::lemma_cast_u64(offset);
        crate::wire_binary::lemma_cast_u64(drift);
        assert(s =~= s.subrange(0, 14) + s.subrange(14, 30) + s.subrange(30, 35) + s.subrange(
            35,
            51,
        ) + s.subrange(51, 58) + s.subrange(58, 74) + s.subrange(74, 82) + s.subrange(82, j3));
    } else if spec_match_at(s, 0, "request url="@) {
        let (track_url, j) = st_str(s, 12).unwrap();
        lemma_sound_text_str(s, 12, track_url, j);
        let (delay_ms, j1) = st_hex(s, j + 7, 16).unwrap();
        crate::hexfmt::lemma_sound_hex(s, j + 7, 16, delay_ms, j1);
        lemma_hex_len(delay_ms as nat, 16);
        assert(s =~= s.subrange(0, 12) + s.subrange(12, j) + s.subrange(j, j + 7) + s.subrange(
            j + 7,
            j + 23,
        ));
    } else if spec_match_at(s, 0, "command "@) {
        let (cmd, j) = st_cmd_at(s, 8).unwrap();
        lemma_sound_cmd_text_at(s, 8, cmd, j);
        assert(s =~= s.subrange(0, 8) + s.subrange(8, j));
    }
}

/// The text server parser accepts exactly the printed forms: a decoded
/// message re-prints to the very frame it came from.
#[verifier::rlimit(60)]
pub proof fn lemma_sound_text_server(s: Seq<char>, m: ServerMessageV)
    requires
        st_server(s) == Some(m),
    ensures
        s == spec_text_server(m),
        server_text_fits(m),
{
    reveal_strlit("welcome sid=");
    reveal_strlit("time t0=");
    reveal_strlit("play url=");
    reveal_strlit("pause at=");
    reveal_strlit("resync");
    reveal_strlit(" t1=");
    reveal_strlit(" t2=");
    reveal_strlit(" seq=");
    reveal_strlit(" start=");
    reveal_strlit(" pos=");
    reveal_strlit(" at=");
    lemma_pow16_16();
    if spec_match_at(s, 0, "welcome sid="@) {
        let (session_id, j) = st_str(s, 12).unwrap();
        lemma_sound_text_str(s, 12, session_id, j);
        assert(s =~= s.subrange(0, 12) + s.subrange(12, j));
    } else if spec_match_at(s, 0, "time t0="@) {
        let (t0, j) = st_hex(s, 8, 16).unwrap();
        crate::hexfmt::lemma_sound_hex(s, 8, 16, t0, j);
        let (t1, j1) = st_hex(s, 28, 16).unwrap();
        crate::hexfmt::lemma_sound_hex(s, 28, 16, t1, j1);
        let (t2, j2) = st_hex(s, 48, 16).unwrap();
        crate::hexfmt::lemma_sound_hex(s, 48, 16, t2, j2);
        let (seq, j3) = st_hex(s, 69, 2).unwrap();
        crate::hexfmt::lemma_sound_hex(s, 69, 2, seq, j3);
        lemma_hex_len((seq as u8) as nat, 2);
        assert(seq < 0x100);
        assert(s =~= s.subrange(0, 8) + s.subrange(8, 24) + s.subrange(24, 28) + s.subrange(
            28,
            44,
        ) + s.subrange(44, 48) + s.subrange(48, 64) + s.subrange(64, 69) + s.subrange(69, 71));
    } else if spec_match_at(s, 0, "play url="@) {
        let (track_url, j) = st_str(s, 9).unwrap();
        lemma_sound_text_str(s, 9, track_url, j);
        let (start_at_server_time, j1) = st_hex(s, j + 7, 16).unwrap();
        crate::hexfmt::lemma_sound_hex(s, j + 7, 16, start_at_server_time, j1);
        let (start_at_position_ms, j2) = st_hex(s, j1 + 5, 16).unwrap();
        crate::hexfmt::lemma_sound_hex(s, j1 + 5, 16, start_at_position_ms, j2);
        let (server_time_at_broadcast, j3) = st_hex(s, j2 + 4, 16).unwrap();
        crate::hexfmt::lemma_sound_hex(s, j2 + 4, 16, server_time_at_broadcast, j3);
        assert(s =~= s.subrange(0, 9) + s.subrange(9, j) + s.subrange(j, j + 7) + s.subrange(
            j + 7,
            j + 23,
        ) + s.subrange(j + 23, j + 28) + s.subrange(j + 28, j + 44) + s.subrange(j + 44, j + 48)
            + s.subrange(j + 48, j + 64));
    } else if spec_match_at(s, 0, "pause at="@) {
        let (server_time, j) = st_hex(s, 9, 16).unwrap();
        crate::hexfmt::lemma_sound_hex(s, 9, 16, server_time, j);
        assert(s =~= s.subrange(0, 9) + s.subrange(9, 25));
    } else if spec_match_at(s, 0, "resync"@) {
        assert(s =~= s.subrange(0, 6));
    }
}

} // verus!
