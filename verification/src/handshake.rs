use vstd::prelude::*;

use crate::error::ProtocolError;
use crate::packet::{Packet, State};
use crate::packets::SB_HANDSHAKE;
use crate::varint::{varint32_at, varint32_value, varint_complete, varint_len, read_varint};
use crate::wire::{
    string_at, string_chars, string_end, string_err, u16_be_value, read_string, read_u16_be,
};

verus! {

/// The fields of the one packet a client opens a connection with.
pub struct Handshake {
    pub protocol_version: i32,
    pub server_address: String,
    pub server_port: u16,
    pub next_state: i32,
}

/// Position of the server-address field: after the protocol version.
pub open spec fn hs_addr_pos(d: Seq<u8>) -> int {
    varint_len(d) as int
}

/// Position of the server-port field: after the address string.
pub open spec fn hs_port_pos(d: Seq<u8>) -> int {
    string_end(d, hs_addr_pos(d))
}

/// Position of the next-state field: after the 16-bit port.
pub open spec fn hs_next_pos(d: Seq<u8>) -> int {
    hs_port_pos(d) + 2
}

/// True when a whole handshake lies at the head of the payload: protocol
/// version, address, port, and next state, in that order.
pub open spec fn handshake_wf(d: Seq<u8>) -> bool {
    &&& varint32_at(d)
    &&& string_at(d, hs_addr_pos(d))
    &&& hs_next_pos(d) <= d.len()
    &&& varint32_at(d.skip(hs_next_pos(d)))
}

pub open spec fn hs_version(d: Seq<u8>) -> i32 {
    varint32_value(d)
}

pub open spec fn hs_addr_chars(d: Seq<u8>) -> Seq<char> {
    string_chars(d, hs_addr_pos(d))
}

pub open spec fn hs_port(d: Seq<u8>) -> u16 {
    u16_be_value(d, hs_port_pos(d))
}

pub open spec fn hs_next(d: Seq<u8>) -> i32 {
    varint32_value(d.skip(hs_next_pos(d)))
}

/// The error a malformed handshake payload produces: that of the first
/// field that fails to parse.
pub open spec fn handshake_err(d: Seq<u8>) -> ProtocolError {
    if !varint32_at(d) {
        if d.len() < 5 && !varint_complete(d) {
            ProtocolError::BufferUnderflow
        } else {
            ProtocolError::VarIntTooLong
        }
    } else if !string_at(d, hs_addr_pos(d)) {
        string_err(d, hs_addr_pos(d))
    } else if hs_next_pos(d) > d.len() {
        ProtocolError::BufferUnderflow
    } else {
        let s = d.skip(hs_next_pos(d));
        if s.len() < 5 && !varint_complete(s) {
            ProtocolError::BufferUnderflow
        } else {
            ProtocolError::VarIntTooLong
        }
    }
}

/// Validates the handshake packet and resolves the declared next state.
pub struct HandshakeHandler;

impl HandshakeHandler {
    /// Parses the handshake fields, in order, from a packet payload.
    /// Trailing bytes after the next-state field are ignored.
    pub fn parse(data: &Vec<u8>) -> (r: Result<Handshake, ProtocolError>)
        ensures
            r is Ok <==> handshake_wf(data@),
            (r matches Ok(h) ==> {
                &&& h.protocol_version == hs_version(data@)
                &&& h.server_address@ == hs_addr_chars(data@)
                &&& h.server_port == hs_port(data@)
                &&& h.next_state == hs_next(data@)
            }),
            (r matches Err(e) ==> e == handshake_err(data@)),
    {
        proof {
            assert(data@.skip(0) =~= data@);
        }
        let (protocol_version, addr_pos) = match read_varint(data, 0) {
            Ok(v) => v,
            Err(e) => {
                return Err(e);
            },
        };
        let (server_address, port_pos) = match read_string(data, addr_pos) {
            Ok(v) => v,
            Err(e) => {
                return Err(e);
            },
        };
        let (server_port, next_pos) = match read_u16_be(data, port_pos) {
            Ok(v) => v,
            Err(e) => {
                return Err(e);
            },
        };
        let (next_state, _end) = match read_varint(data, next_pos) {
            Ok(v) => v,
            Err(e) => {
                return Err(e);
            },
        };
        Ok(Handshake { protocol_version, server_address, server_port, next_state })
    }

    /// Resolves a handshake packet to the next protocol state: next-state 1
    /// is `Status`, 2 is `Login`, anything else is a fatal protocol error,
    /// as is a packet with the wrong id or a malformed payload.
    pub fn handle(packet: &Packet) -> (r: Result<State, ProtocolError>)
        ensures
            (packet.id != SB_HANDSHAKE ==> r == Result::<State, ProtocolError>::Err(
                ProtocolError::UnexpectedPacket { expected: SB_HANDSHAKE, actual: packet.id },
            )),
            (packet.id == SB_HANDSHAKE && !handshake_wf(packet.data@) ==> (r matches Err(e) && e
                == handshake_err(packet.data@))),
            (packet.id == SB_HANDSHAKE && handshake_wf(packet.data@) ==> {
                let next = hs_next(packet.data@);
                &&& (next == 1 ==> r == Result::<State, ProtocolError>::Ok(State::Status))
                &&& (next == 2 ==> r == Result::<State, ProtocolError>::Ok(State::Login))
                &&& (next != 1 && next != 2 ==> r == Result::<State, ProtocolError>::Err(
                    ProtocolError::InvalidNextState { value: next },
                ))
            }),
    {
        if packet.id != SB_HANDSHAKE {
            return Err(ProtocolError::UnexpectedPacket {
                expected: SB_HANDSHAKE,
                actual: packet.id,
            });
        }
        let hs = match Self::parse(&packet.data) {
            Ok(h) => h,
            Err(e) => {
                return Err(e);
            },
        };
        if hs.next_state == 1 {
            Ok(State::Status)
        } else if hs.next_state == 2 {
            Ok(State::Login)
        } else {
            Err(ProtocolError::InvalidNextState { value: hs.next_state })
        }
    }
}

} // verus!
