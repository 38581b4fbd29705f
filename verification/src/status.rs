use vstd::prelude::*;
use vstd::utf8::encode_utf8;
use vstd::string::StrSliceExecFns;

use crate::error::ProtocolError;
use crate::ident::{Uuid, hex_digit, uuid_hyphenated};
use crate::packet::Packet;
use crate::packets::{
    SB_STATUS_REQUEST, SB_STATUS_PING, CB_STATUS_RESPONSE, CB_STATUS_PONG, byte_array_field,
    build_status_pong,
};
use crate::registry::{ConnectedPlayer, PlayerRegistry};
use crate::varint::{varint64_at, varint64_value, varint_enc, read_varlong};
use crate::wire::write_byte_array;

verus! {

// ---------------------------------------------------------------------------
// Pieces of the status document.
// ---------------------------------------------------------------------------

/// The decimal digits of `n`, most significant first.
pub open spec fn dec_bytes(n: nat) -> Seq<u8>
    decreases n,
{
    if n < 10 {
        seq![(48 + n) as u8]
    } else {
        dec_bytes(n / 10) + seq![(48 + n % 10) as u8]
    }
}

/// Appends the decimal digits of `n` to `out`.
fn push_dec(out: &mut Vec<u8>, n: u64)
    ensures
        final(out)@ == old(out)@ + dec_bytes(n as nat),
    decreases n,
{
    if n < 10 {
        out.push(48 + n as u8);
        assert(out@ =~= old(out)@ + dec_bytes(n as nat));
    } else {
        push_dec(out, n / 10);
        out.push(48 + (n % 10) as u8);
        assert(out@ =~= old(out)@ + dec_bytes(n as nat));
    }
}

/// How one byte appears inside a JSON string: quote and backslash are
/// escaped, control bytes become a `\u00XX` escape, everything else stands
/// verbatim.
pub open spec fn esc_byte(b: u8) -> Seq<u8> {
    if b == 34 {
        seq![92u8, 34u8]
    } else if b == 92 {
        seq![92u8, 92u8]
    } else if b < 32 {
        seq![92u8, 117u8, 48u8, 48u8, hex_digit(b / 16), hex_digit(b % 16)]
    } else {
        seq![b]
    }
}

/// A byte sequence escaped for inclusion in a JSON string.
pub open spec fn json_escape(s: Seq<u8>) -> Seq<u8>
    decreases s.len(),
{
    if s.len() == 0 {
        Seq::empty()
    } else {
        esc_byte(s[0]) + json_escape(s.drop_first())
    }
}

/// Appends `data[from..]` to `out`, escaped for a JSON string.
fn push_escaped(out: &mut Vec<u8>, data: &Vec<u8>, from: usize)
    requires
        from <= data@.len(),
    ensures
        final(out)@ == old(out)@ + json_escape(data@.skip(from as int)),
    decreases data@.len() - from,
{
    if from < data.len() {
        let b = data[from];
        if b == 34 {
            out.push(92);
            out.push(34);
        } else if b == 92 {
            out.push(92);
            out.push(92);
        } else if b < 32 {
            out.push(92);
            out.push(117);
            out.push(48);
            out.push(48);
            out.push(if b / 16 < 10 {
                48 + b / 16
            } else {
                87 + b / 16
            });
            out.push(if b % 16 < 10 {
                48 + b % 16
            } else {
                87 + b % 16
            });
        } else {
            out.push(b);
        }
        push_escaped(out, data, from + 1);
        proof {
            let s = data@.skip(from as int);
            assert(s.drop_first() =~= data@.skip(from as int + 1));
            assert(out@ =~= old(out)@ + json_escape(s));
        }
    } else {
        proof {
            assert(data@.skip(from as int) =~= Seq::<u8>::empty());
            assert(out@ =~= old(out)@ + json_escape(data@.skip(from as int)));
        }
    }
}

/// One entry of the player list: name (escaped) and hyphenated identifier.
pub open spec fn status_entry(name_utf8: Seq<u8>, u: Uuid) -> Seq<u8> {
    encode_utf8("{\"name\":\""@) + json_escape(name_utf8) + encode_utf8("\",\"id\":\""@)
        + uuid_hyphenated(u) + encode_utf8("\"}"@)
}

/// The comma-separated player list.
pub open spec fn status_list(s: Seq<ConnectedPlayer>) -> Seq<u8>
    decreases s.len(),
{
    if s.len() == 0 {
        Seq::empty()
    } else if s.len() == 1 {
        status_entry(encode_utf8(s[0].username@), s[0].uuid)
    } else {
        status_entry(encode_utf8(s[0].username@), s[0].uuid) + seq![44u8] + status_list(
            s.drop_first(),
        )
    }
}

/// The whole status document: fixed label and protocol number, capacity,
/// the live player count and list, the message of the day, and the
/// secure-chat flag, always false here.
pub open spec fn status_json(max_players: u32, players: Seq<ConnectedPlayer>, motd: Seq<char>)
    -> Seq<u8> {
    encode_utf8("{\"version\":{\"name\":\"Takumi\",\"protocol\":774},\"players\":{\"max\":"@)
        + dec_bytes(max_players as nat) + encode_utf8(",\"online\":"@) + dec_bytes(players.len())
        + encode_utf8(",\"sample\":[],\"list\":["@) + status_list(players) + encode_utf8(
        "]},\"description\":{\"text\":\""@,
    ) + json_escape(encode_utf8(motd)) + encode_utf8("\"},\"enforcesSecureChat\":false}"@)
}

/// Appends the player-list entries from index `i` on.
#[verifier::rlimit(60)]
fn push_list(out: &mut Vec<u8>, players: &PlayerRegistry, i: usize)
    requires
        i <= players@.len(),
    ensures
        final(out)@ == old(out)@ + status_list(players@.skip(i as int)),
    decreases players@.len() - i,
{
    let n = players.count();
    if i < n {
        let p = players.get_at(i);
        let mut head = ("{\"name\":\"").as_bytes_vec();
        out.append(&mut head);
        let name = p.username.as_str().as_bytes_vec();
        push_escaped(out, &name, 0);
        let mut mid = ("\",\"id\":\"").as_bytes_vec();
        out.append(&mut mid);
        let mut id_text = p.uuid.hyphenated();
        out.append(&mut id_text);
        let mut tail = ("\"}").as_bytes_vec();
        out.append(&mut tail);
        if i + 1 < n {
            out.push(44);
        }
        push_list(out, players, i + 1);
        proof {
            let s = players@.skip(i as int);
            assert(s.drop_first() =~= players@.skip(i as int + 1));
            assert(name@.skip(0) =~= encode_utf8(p.username@));
            assert(out@ =~= old(out)@ + status_list(s));
        }
    } else {
        proof {
            assert(players@.skip(i as int) =~= Seq::<ConnectedPlayer>::empty());
            assert(out@ =~= old(out)@ + status_list(players@.skip(i as int)));
        }
    }
}

/// Builds the status document for the current directory contents: its
/// `online` field is exactly the number of registered players, and its
/// list names each of them.
pub fn build_status_json(max_players: u32, players: &PlayerRegistry, motd: &str) -> (r: Vec<u8>)
    ensures
        r@ == status_json(max_players, players@, motd@),
{
    let mut out: Vec<u8> = Vec::new();
    let mut f1 = (
    "{\"version\":{\"name\":\"Takumi\",\"protocol\":774},\"players\":{\"max\":").as_bytes_vec();
    out.append(&mut f1);
    push_dec(&mut out, max_players as u64);
    let mut f2 = (",\"online\":").as_bytes_vec();
    out.append(&mut f2);
    let online = players.count();
    push_dec(&mut out, online as u64);
    let mut f3 = (",\"sample\":[],\"list\":[").as_bytes_vec();
    out.append(&mut f3);
    push_list(&mut out, players, 0);
    let mut f4 = ("]},\"description\":{\"text\":\"").as_bytes_vec();
    out.append(&mut f4);
    let motd_bytes = motd.as_bytes_vec();
    push_escaped(&mut out, &motd_bytes, 0);
    let mut f5 = ("\"},\"enforcesSecureChat\":false}").as_bytes_vec();
    out.append(&mut f5);
    proof {
        assert(players@.skip(0) =~= players@);
        assert(motd_bytes@.skip(0) =~= encode_utf8(motd@));
        assert(out@ =~= status_json(max_players, players@, motd@));
    }
    out
}

// ---------------------------------------------------------------------------
// The status exchange, one decision per packet.
// ---------------------------------------------------------------------------

/// Answers the first packet of a status exchange. A packet other than the
/// status request ends the exchange quietly (`None`: nothing is sent, no
/// error); the request yields the status response, whose `online` field
/// equals the directory's count at this instant.
pub fn handle_status_request(
    packet: &Packet,
    max_players: u32,
    motd: &str,
    players: &PlayerRegistry,
) -> (r: Result<Option<Packet>, ProtocolError>)
    ensures
        (packet.id != SB_STATUS_REQUEST ==> r == Result::<Option<Packet>, ProtocolError>::Ok(
            None,
        )),
        (packet.id == SB_STATUS_REQUEST ==> {
            let doc = status_json(max_players, players@, motd@);
            &&& (doc.len() <= 0x7fffffff ==> (r matches Ok(Some(p)) && p.id == CB_STATUS_RESPONSE
                && p.data@ == byte_array_field(doc)))
            &&& (doc.len() > 0x7fffffff ==> r == Result::<Option<Packet>, ProtocolError>::Err(
                ProtocolError::Oversize,
            ))
        }),
{
    if packet.id != SB_STATUS_REQUEST {
        return Ok(None);
    }
    let doc = build_status_json(max_players, players, motd);
    if doc.len() > 0x7fffffff {
        return Err(ProtocolError::Oversize);
    }
    let mut data: Vec<u8> = Vec::new();
    write_byte_array(&mut data, &doc);
    Ok(Some(Packet::new(CB_STATUS_RESPONSE, data)))
}

/// Answers the optional second packet. A ping has its 64-bit payload echoed
/// verbatim in a pong; any other id ends the exchange quietly; a ping whose
/// payload does not parse is a protocol error.
pub fn handle_status_ping(packet: &Packet) -> (r: Result<Option<Packet>, ProtocolError>)
    ensures
        (packet.id != SB_STATUS_PING ==> r == Result::<Option<Packet>, ProtocolError>::Ok(None)),
        (packet.id == SB_STATUS_PING ==> {
            &&& (varint64_at(packet.data@) ==> (r matches Ok(Some(p)) && p.id == CB_STATUS_PONG
                && p.data@ == varint_enc((varint64_value(packet.data@) as u64) as nat)))
            &&& (!varint64_at(packet.data@) ==> r is Err)
        }),
{
    if packet.id != SB_STATUS_PING {
        return Ok(None);
    }
    proof {
        assert(packet.data@.skip(0) =~= packet.data@);
    }
    match read_varlong(&packet.data, 0) {
        Ok((payload, _end)) => Ok(Some(build_status_pong(payload))),
        Err(e) => Err(e),
    }
}

} // verus!
