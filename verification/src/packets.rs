use vstd::prelude::*;
use vstd::utf8::encode_utf8;
use vstd::string::StrSliceExecFns;

use crate::ident::{Uuid, uuid_bytes, write_uuid};
use crate::packet::Packet;
use crate::varint::{varint_enc, write_varint, write_varlong};
use crate::wire::{write_byte_array, write_string};

verus! {

// Serverbound handshaking.
pub const SB_HANDSHAKE: i32 = 0x00;

// Serverbound status.
pub const SB_STATUS_REQUEST: i32 = 0x00;
pub const SB_STATUS_PING: i32 = 0x01;

// Serverbound login.
pub const SB_LOGIN_START: i32 = 0x00;
pub const SB_LOGIN_ENCRYPTION_RESPONSE: i32 = 0x01;
pub const SB_LOGIN_PLUGIN_RESPONSE: i32 = 0x02;
pub const SB_LOGIN_ACK: i32 = 0x03;

// Clientbound status.
pub const CB_STATUS_RESPONSE: i32 = 0x00;
pub const CB_STATUS_PONG: i32 = 0x01;

// Clientbound login.
pub const CB_LOGIN_DISCONNECT: i32 = 0x00;
pub const CB_LOGIN_ENCRYPTION_REQUEST: i32 = 0x01;
pub const CB_LOGIN_SUCCESS: i32 = 0x02;
pub const CB_LOGIN_SET_COMPRESSION: i32 = 0x03;
pub const CB_LOGIN_PLUGIN_REQUEST: i32 = 0x04;

// Clientbound play.
pub const CB_PLAY_DISCONNECT: i32 = 0x1A;

/// The bytes of a length-prefixed string field.
pub open spec fn string_field(chars: Seq<char>) -> Seq<u8> {
    varint_enc(encode_utf8(chars).len()) + encode_utf8(chars)
}

/// The bytes of a length-prefixed byte-array field.
pub open spec fn byte_array_field(bytes: Seq<u8>) -> Seq<u8> {
    varint_enc(bytes.len()) + bytes
}

/// The payload of a disconnect packet: the reason wrapped, verbatim, in a
/// one-field text document.
pub open spec fn disconnect_reason_doc(reason: Seq<char>) -> Seq<u8> {
    encode_utf8("{\"text\":\""@) + encode_utf8(reason) + encode_utf8("\"}"@)
}

/// Establishes the byte lengths of the fixed parts of the disconnect
/// document.
proof fn lemma_disconnect_literals()
    ensures
        encode_utf8("{\"text\":\""@).len() == 9,
        encode_utf8("\"}"@).len() == 2,
{
    reveal_strlit("{\"text\":\"");
    reveal_strlit("\"}");
    vstd::utf8::is_ascii_chars_encode_utf8("{\"text\":\""@);
    vstd::utf8::is_ascii_chars_encode_utf8("\"}"@);
}

/// A status response carrying the serialized status document.
pub fn build_status_response(json: &str) -> (r: Packet)
    requires
        encode_utf8(json@).len() <= 0x7fffffff,
    ensures
        r.id == CB_STATUS_RESPONSE,
        r.data@ == string_field(json@),
{
    let mut data: Vec<u8> = Vec::new();
    write_string(&mut data, json);
    Packet::new(CB_STATUS_RESPONSE, data)
}

/// A pong echoing the ping payload verbatim.
pub fn build_status_pong(payload: i64) -> (r: Packet)
    ensures
        r.id == CB_STATUS_PONG,
        r.data@ == varint_enc((payload as u64) as nat),
{
    let mut data: Vec<u8> = Vec::new();
    write_varlong(&mut data, payload);
    Packet::new(CB_STATUS_PONG, data)
}

/// A login-stage disconnect carrying a human-readable reason.
pub fn build_login_disconnect(reason: &str) -> (r: Packet)
    requires
        encode_utf8(reason@).len() <= 0x7ffffff0,
    ensures
        r.id == CB_LOGIN_DISCONNECT,
        r.data@ == byte_array_field(disconnect_reason_doc(reason@)),
{
    Packet::new(CB_LOGIN_DISCONNECT, disconnect_payload(reason))
}

/// A play-stage disconnect for a fully established session.
pub fn build_play_disconnect(reason: &str) -> (r: Packet)
    requires
        encode_utf8(reason@).len() <= 0x7ffffff0,
    ensures
        r.id == CB_PLAY_DISCONNECT,
        r.data@ == byte_array_field(disconnect_reason_doc(reason@)),
{
    Packet::new(CB_PLAY_DISCONNECT, disconnect_payload(reason))
}

/// The length-prefixed disconnect document for a reason.
fn disconnect_payload(reason: &str) -> (r: Vec<u8>)
    requires
        encode_utf8(reason@).len() <= 0x7ffffff0,
    ensures
        r@ == byte_array_field(disconnect_reason_doc(reason@)),
{
    proof {
        lemma_disconnect_literals();
    }
    let mut doc: Vec<u8> = Vec::new();
    let mut head = ("{\"text\":\"").as_bytes_vec();
    doc.append(&mut head);
    let mut body = reason.as_bytes_vec();
    doc.append(&mut body);
    let mut tail = ("\"}").as_bytes_vec();
    doc.append(&mut tail);
    proof {
        assert(doc@ =~= disconnect_reason_doc(reason@));
    }
    let mut data: Vec<u8> = Vec::new();
    write_byte_array(&mut data, &doc);
    data
}

/// An encryption request: server id, public key, verify token.
pub fn build_encryption_request(server_id: &str, public_key: &Vec<u8>, verify_token: &Vec<u8>) -> (r:
    Packet)
    requires
        encode_utf8(server_id@).len() <= 0x7fffffff,
        public_key@.len() <= 0x7fffffff,
        verify_token@.len() <= 0x7fffffff,
    ensures
        r.id == CB_LOGIN_ENCRYPTION_REQUEST,
        r.data@ == string_field(server_id@) + byte_array_field(public_key@) + byte_array_field(
            verify_token@,
        ),
{
    let mut data: Vec<u8> = Vec::new();
    write_string(&mut data, server_id);
    write_byte_array(&mut data, public_key);
    write_byte_array(&mut data, verify_token);
    proof {
        assert(data@ =~= string_field(server_id@) + byte_array_field(public_key@)
            + byte_array_field(verify_token@));
    }
    Packet::new(CB_LOGIN_ENCRYPTION_REQUEST, data)
}

/// A login success: the player's identifier, username, and an empty
/// property list.
pub fn build_login_success(uuid: &Uuid, username: &str) -> (r: Packet)
    requires
        encode_utf8(username@).len() <= 0x7fffffff,
    ensures
        r.id == CB_LOGIN_SUCCESS,
        r.data@ == uuid_bytes(*uuid) + string_field(username@) + varint_enc(0),
{
    let mut data: Vec<u8> = Vec::new();
    write_uuid(&mut data, uuid);
    write_string(&mut data, username);
    write_varint(&mut data, 0);
    proof {
        assert(data@ =~= uuid_bytes(*uuid) + string_field(username@) + varint_enc(0));
    }
    Packet::new(CB_LOGIN_SUCCESS, data)
}

/// A set-compression notice carrying the new threshold.
pub fn build_set_compression(threshold: i32) -> (r: Packet)
    ensures
        r.id == CB_LOGIN_SET_COMPRESSION,
        r.data@ == varint_enc((threshold as u32) as nat),
{
    let mut data: Vec<u8> = Vec::new();
    write_varint(&mut data, threshold);
    Packet::new(CB_LOGIN_SET_COMPRESSION, data)
}

/// A login plugin request: message id, channel, and raw trailing data.
pub fn build_login_plugin_request(message_id: i32, channel: &str, extra: &Vec<u8>) -> (r: Packet)
    requires
        encode_utf8(channel@).len() <= 0x7fffffff,
    ensures
        r.id == CB_LOGIN_PLUGIN_REQUEST,
        r.data@ == varint_enc((message_id as u32) as nat) + string_field(channel@) + extra@,
{
    let mut data: Vec<u8> = Vec::new();
    write_varint(&mut data, message_id);
    write_string(&mut data, channel);
    data.extend_from_slice(extra.as_slice());
    proof {
        assert(data@ =~= varint_enc((message_id as u32) as nat) + string_field(channel@)
            + extra@);
    }
    Packet::new(CB_LOGIN_PLUGIN_REQUEST, data)
}

} // verus!
