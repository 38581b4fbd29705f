use vstd::prelude::*;
use vstd::utf8::encode_utf8;
use vstd::string::StrSliceExecFns;

use crate::error::ProtocolError;
use crate::ident::{Uuid, be64_value, offline_identity, uuid_bytes, derive_offline_uuid, read_uuid};
use crate::packet::Packet;
use crate::packets::{
    SB_LOGIN_START, SB_LOGIN_ACK, CB_LOGIN_DISCONNECT, CB_LOGIN_SUCCESS, byte_array_field,
    disconnect_reason_doc, string_field, build_login_disconnect, build_login_success,
};
use crate::varint::varint_enc;
use crate::wire::{string_at, string_chars, string_end, string_err, read_string, read_bool};

verus! {

/// What a login-start packet declares: the username, and optionally an
/// identifier hint, parsed for forward compatibility and not otherwise
/// used.
pub struct LoginRequest {
    pub username: String,
    pub uuid_hint: Option<Uuid>,
}

/// True when the optional identifier hint is present after the username: a
/// nonzero flag byte followed by 16 bytes.
pub open spec fn hint_present(d: Seq<u8>) -> bool {
    let ne = string_end(d, 0);
    ne < d.len() && d[ne] != 0 && ne + 17 <= d.len()
}

/// Parses a login-start packet: a length-prefixed username, optionally
/// followed by a flag byte and, when it is set and 16 bytes remain, an
/// identifier hint.
pub fn parse_login_start(packet: &Packet) -> (r: Result<LoginRequest, ProtocolError>)
    ensures
        (packet.id != SB_LOGIN_START ==> r == Result::<LoginRequest, ProtocolError>::Err(
            ProtocolError::UnexpectedPacket { expected: SB_LOGIN_START, actual: packet.id },
        )),
        (packet.id == SB_LOGIN_START ==> {
            let d = packet.data@;
            &&& (r is Ok <==> string_at(d, 0))
            &&& (r matches Ok(q) ==> {
                &&& q.username@ == string_chars(d, 0)
                &&& (hint_present(d) ==> (q.uuid_hint matches Some(u) && u.hi == be64_value(
                    d.skip(string_end(d, 0) + 1),
                ) && u.lo == be64_value(d.skip(string_end(d, 0) + 9))))
                &&& (!hint_present(d) ==> q.uuid_hint is None)
            })
            &&& (r matches Err(e) ==> e == string_err(d, 0))
        }),
{
    if packet.id != SB_LOGIN_START {
        return Err(ProtocolError::UnexpectedPacket {
            expected: SB_LOGIN_START,
            actual: packet.id,
        });
    }
    proof {
        assert(packet.data@.skip(0) =~= packet.data@);
    }
    let data = &packet.data;
    let (username, name_end) = match read_string(data, 0) {
        Ok(v) => v,
        Err(e) => {
            return Err(e);
        },
    };
    let uuid_hint: Option<Uuid> = if name_end < data.len() {
        let (flag, flag_end) = match read_bool(data, name_end) {
            Ok(v) => v,
            Err(e) => {
                return Err(e);
            },
        };
        if flag && data.len() - flag_end >= 16 {
            match read_uuid(data, flag_end) {
                Ok((u, _end)) => Some(u),
                Err(e) => {
                    return Err(e);
                },
            }
        } else {
            None
        }
    } else {
        None
    };
    Ok(LoginRequest { username, uuid_hint })
}

/// What the login sequence does next after the username is known: turn the
/// client away with a disconnect, or accept it with a success packet and
/// its derived identity.
pub enum LoginDecision {
    Reject(Packet),
    Accept(Packet, Uuid),
}

/// Establishes the byte length of the capacity-rejection reason.
proof fn lemma_full_reason_literal()
    ensures
        encode_utf8("Server is full"@).len() == 14,
{
    reveal_strlit("Server is full");
    vstd::utf8::is_ascii_chars_encode_utf8("Server is full"@);
}

/// Admission and identity: at or over capacity the decision is a graceful
/// disconnect (not an error); below it, the deterministic placeholder
/// identity is derived from the username alone and a login-success packet
/// is built for it.
pub fn decide_login(username: &str, online: usize, max_players: u32) -> (r: Result<
    LoginDecision,
    ProtocolError,
>)
    ensures
        (online >= max_players ==> (r matches Ok(d) && d matches LoginDecision::Reject(p) && p.id
            == CB_LOGIN_DISCONNECT && p.data@ == byte_array_field(
            disconnect_reason_doc("Server is full"@),
        ))),
        (online < max_players && encode_utf8(username@).len() <= 0x7fffffff ==> (r matches Ok(d)
            && d matches LoginDecision::Accept(p, u) && u == offline_identity(username@) && p.id
            == CB_LOGIN_SUCCESS && p.data@ == uuid_bytes(offline_identity(username@))
            + string_field(username@) + varint_enc(0))),
        (online < max_players && encode_utf8(username@).len() > 0x7fffffff ==> r == Result::<
            LoginDecision,
            ProtocolError,
        >::Err(ProtocolError::Oversize)),
{
    if online >= max_players as usize {
        proof {
            lemma_full_reason_literal();
        }
        Ok(LoginDecision::Reject(build_login_disconnect("Server is full")))
    } else {
        let name_bytes = username.as_bytes_vec();
        if name_bytes.len() > 0x7fffffff {
            return Err(ProtocolError::Oversize);
        }
        let uuid = derive_offline_uuid(username);
        Ok(LoginDecision::Accept(build_login_success(&uuid, username), uuid))
    }
}

/// Requires the login acknowledgement; any other id is a fatal protocol
/// error.
pub fn check_login_ack(packet: &Packet) -> (r: Result<(), ProtocolError>)
    ensures
        r is Ok <==> packet.id == SB_LOGIN_ACK,
        (r matches Err(e) ==> e == (ProtocolError::UnexpectedPacket {
            expected: SB_LOGIN_ACK,
            actual: packet.id,
        })),
{
    if packet.id != SB_LOGIN_ACK {
        return Err(ProtocolError::UnexpectedPacket { expected: SB_LOGIN_ACK, actual: packet.id });
    }
    Ok(())
}

/// Where a login sequence stands.
#[derive(Debug, Clone, Copy, PartialEq, Eq, Structural)]
pub enum LoginStage {
    /// Nothing received yet; the next packet must be login-start.
    AwaitStart,
    /// Success was sent; the next packet must be the acknowledgement.
    AwaitAck,
    /// The acknowledgement arrived; the session is authenticated.
    Complete,
    /// The client was turned away at capacity; the session ended normally.
    Rejected,
}

/// The login sequence as a state machine over incoming packets: start,
/// decision, acknowledgement. Success is sent before any acknowledgement is
/// required, and after success only the acknowledgement is accepted.
pub struct LoginSession {
    stage: LoginStage,
}

impl LoginSession {
    pub closed spec fn stage_spec(&self) -> LoginStage {
        self.stage
    }

    pub fn new() -> (r: LoginSession)
        ensures
            r.stage_spec() == LoginStage::AwaitStart,
    {
        LoginSession { stage: LoginStage::AwaitStart }
    }

    pub fn stage(&self) -> (r: LoginStage)
        ensures
            r == self.stage_spec(),
    {
        self.stage
    }

    /// Consumes the login-start packet and decides admission. On a fatal
    /// error the stage is unchanged and the connection is to be closed.
    pub fn on_start(&mut self, packet: &Packet, online: usize, max_players: u32) -> (r: Result<
        LoginDecision,
        ProtocolError,
    >)
        requires
            old(self).stage_spec() == LoginStage::AwaitStart,
        ensures
            (r is Err ==> final(self).stage_spec() == LoginStage::AwaitStart),
            ((r matches Ok(d) && d is Reject) ==> (final(self).stage_spec()
                == LoginStage::Rejected && online >= max_players)),
            ((r matches Ok(d) && d is Accept) ==> (final(self).stage_spec()
                == LoginStage::AwaitAck && online < max_players)),
            (packet.id != SB_LOGIN_START ==> r == Result::<LoginDecision, ProtocolError>::Err(
                ProtocolError::UnexpectedPacket { expected: SB_LOGIN_START, actual: packet.id },
            )),
            (packet.id == SB_LOGIN_START && string_at(packet.data@, 0) && online >= max_players
                ==> (r matches Ok(d) && d matches LoginDecision::Reject(p) && p.id
                == CB_LOGIN_DISCONNECT && p.data@ == byte_array_field(
                disconnect_reason_doc("Server is full"@),
            ))),
            (packet.id == SB_LOGIN_START && string_at(packet.data@, 0) && online < max_players
                && encode_utf8(string_chars(packet.data@, 0)).len() <= 0x7fffffff ==> (r matches
                Ok(d) && d matches LoginDecision::Accept(p, u) && u == offline_identity(
                string_chars(packet.data@, 0),
            ) && p.id == CB_LOGIN_SUCCESS)),
    {
        let request = match parse_login_start(packet) {
            Ok(q) => q,
            Err(e) => {
                return Err(e);
            },
        };
        let decision = match decide_login(request.username.as_str(), online, max_players) {
            Ok(d) => d,
            Err(e) => {
                return Err(e);
            },
        };
        match decision {
            LoginDecision::Reject(p) => {
                self.stage = LoginStage::Rejected;
                Ok(LoginDecision::Reject(p))
            },
            LoginDecision::Accept(p, u) => {
                self.stage = LoginStage::AwaitAck;
                Ok(LoginDecision::Accept(p, u))
            },
        }
    }

    /// Consumes the packet after success: only the acknowledgement
    /// completes the session, anything else is fatal.
    pub fn on_ack(&mut self, packet: &Packet) -> (r: Result<(), ProtocolError>)
        requires
            old(self).stage_spec() == LoginStage::AwaitAck,
        ensures
            r is Ok <==> packet.id == SB_LOGIN_ACK,
            (r is Ok ==> final(self).stage_spec() == LoginStage::Complete),
            (r matches Err(e) ==> final(self).stage_spec() == LoginStage::AwaitAck && e == (
            ProtocolError::UnexpectedPacket { expected: SB_LOGIN_ACK, actual: packet.id })),
    {
        match check_login_ack(packet) {
            Ok(()) => {
                self.stage = LoginStage::Complete;
                Ok(())
            },
            Err(e) => Err(e),
        }
    }
}

} // verus!
