use takumi_proxy::codec::MinecraftCodec;
use takumi_proxy::handshake::HandshakeHandler;
use takumi_proxy::ident::{read_uuid, write_uuid, Uuid};
use takumi_proxy::packet::{Packet, State};
use takumi_proxy::read_varint_peek;
use takumi_proxy::varint::{read_varint, read_varlong, varint_size, write_varint, write_varlong};
use takumi_proxy::wire::{
    read_bool, read_byte_array, read_string, read_u16_be, write_bool, write_byte_array,
    write_string,
};
use takumi_proxy::ProtocolError;

fn enc_varint(v: i32) -> Vec<u8> {
    let mut b = Vec::new();
    write_varint(&mut b, v);
    b
}

fn enc_varlong(v: i64) -> Vec<u8> {
    let mut b = Vec::new();
    write_varlong(&mut b, v);
    b
}

#[test]
fn varint_round_trip() {
    for v in [0i32, 1, 127, 128, 255, 300, 25565, 2147483647, -1, i32::MIN] {
        let b = enc_varint(v);
        assert_eq!(varint_size(v), b.len());
        assert_eq!(read_varint(&b, 0), Ok((v, b.len())));
    }
}

#[test]
fn varint_known_encodings() {
    assert_eq!(enc_varint(0), vec![0x00]);
    assert_eq!(enc_varint(127), vec![0x7f]);
    assert_eq!(enc_varint(128), vec![0x80, 0x01]);
    assert_eq!(enc_varint(255), vec![0xff, 0x01]);
    assert_eq!(enc_varint(-1), vec![0xff, 0xff, 0xff, 0xff, 0x0f]);
    assert_eq!(enc_varint(2147483647), vec![0xff, 0xff, 0xff, 0xff, 0x07]);
}

#[test]
fn varlong_round_trip() {
    for v in [0i64, 1, 127, 128, -1, 1234567890123, i64::MAX, i64::MIN] {
        let b = enc_varlong(v);
        assert_eq!(read_varlong(&b, 0), Ok((v, b.len())));
    }
    assert_eq!(
        enc_varlong(-1),
        vec![0xff, 0xff, 0xff, 0xff, 0xff, 0xff, 0xff, 0xff, 0xff, 0x01]
    );
}

#[test]
fn varint_overrun_is_rejected() {
    // five continuation bytes: no termination within the 32-bit cap
    let b = vec![0x80u8; 5];
    assert_eq!(read_varint(&b, 0), Err(ProtocolError::VarIntTooLong));
    // the same bytes are merely incomplete while fewer than five are present
    let b = vec![0x80u8; 3];
    assert_eq!(read_varint(&b, 0), Err(ProtocolError::BufferUnderflow));
    let b = vec![0x80u8; 10];
    assert_eq!(read_varlong(&b, 0), Err(ProtocolError::VarIntTooLong));
    let b = vec![0x80u8; 9];
    assert_eq!(read_varlong(&b, 0), Err(ProtocolError::BufferUnderflow));
}

#[test]
fn varint_peek_reports_incomplete_and_overrun() {
    assert_eq!(read_varint_peek(&vec![0x80, 0x80]), Ok(None));
    assert_eq!(read_varint_peek(&enc_varint(300)), Ok(Some((300, 2))));
    assert_eq!(
        read_varint_peek(&vec![0x80u8; 5]),
        Err(ProtocolError::VarIntTooLong)
    );
}

#[test]
fn string_round_trip() {
    let mut b = Vec::new();
    write_string(&mut b, "h\u{e9}llo \u{2713}");
    let (s, end) = read_string(&b, 0).unwrap();
    assert_eq!(s, "h\u{e9}llo \u{2713}");
    assert_eq!(end, b.len());

    let mut b = Vec::new();
    write_string(&mut b, "");
    assert_eq!(read_string(&b, 0).unwrap(), (String::new(), 1));
}

#[test]
fn string_errors() {
    // invalid UTF-8 body
    let b = vec![0x02, 0xc3, 0x28];
    assert_eq!(read_string(&b, 0), Err(ProtocolError::BadUtf8));
    // negative declared length
    let b = enc_varint(-1);
    assert_eq!(read_string(&b, 0), Err(ProtocolError::NegativeLength));
    // body shorter than declared
    let b = vec![0x05, 0x61];
    assert_eq!(read_string(&b, 0), Err(ProtocolError::BufferUnderflow));
}

#[test]
fn byte_array_round_trip() {
    let payload = vec![1u8, 2, 3, 250];
    let mut b = Vec::new();
    write_byte_array(&mut b, &payload);
    assert_eq!(read_byte_array(&b, 0).unwrap(), (payload, 5));
}

#[test]
fn bool_and_u16_round_trip() {
    let mut b = Vec::new();
    write_bool(&mut b, true);
    write_bool(&mut b, false);
    assert_eq!(read_bool(&b, 0).unwrap(), (true, 1));
    assert_eq!(read_bool(&b, 1).unwrap(), (false, 2));

    let b = vec![0x63, 0xdd];
    assert_eq!(read_u16_be(&b, 0).unwrap(), (25565, 2));
    assert_eq!(read_u16_be(&vec![0x63], 0), Err(ProtocolError::BufferUnderflow));
}

#[test]
fn uuid_round_trip_and_text() {
    let u = Uuid { hi: 0x0011223344556677, lo: 0x8899aabbccddeeff };
    let mut b = Vec::new();
    write_uuid(&mut b, &u);
    assert_eq!(b.len(), 16);
    let (back, end) = read_uuid(&b, 0).unwrap();
    assert_eq!(back, u);
    assert_eq!(end, 16);
    assert_eq!(
        u.hyphenated(),
        b"00112233-4455-6677-8899-aabbccddeeff".to_vec()
    );
}

#[test]
fn frame_round_trip_uncompressed() {
    let codec = MinecraftCodec::new();
    assert_eq!(codec.compression_threshold(), -1);
    let mut wire = Vec::new();
    codec
        .encode(Packet::new(0x2a, vec![9, 8, 7, 6]), &mut wire)
        .unwrap();
    let got = codec.decode(&mut wire).unwrap().unwrap();
    assert_eq!(got.id, 0x2a);
    assert_eq!(got.data, vec![9, 8, 7, 6]);
    assert!(wire.is_empty());
}

#[test]
fn frame_round_trip_compressed_around_threshold() {
    // inner body = 1 id byte + payload; threshold 10: sizes 9, 10, 11
    for payload_len in [8usize, 9, 10, 100] {
        let mut codec = MinecraftCodec::new();
        codec.set_compression_threshold(10);
        let payload: Vec<u8> = (0..payload_len).map(|i| (i % 7) as u8).collect();
        let mut wire = Vec::new();
        codec
            .encode(Packet::new(0x1b, payload.clone()), &mut wire)
            .unwrap();
        let got = codec.decode(&mut wire).unwrap().unwrap();
        assert_eq!(got.id, 0x1b);
        assert_eq!(got.data, payload);
        assert!(wire.is_empty());
    }
}

#[test]
fn frame_modes_agree_on_escape_form() {
    // below the threshold the frame body starts with the zero escape
    let mut codec = MinecraftCodec::new();
    codec.set_compression_threshold(100);
    let mut wire = Vec::new();
    codec.encode(Packet::new(1, vec![5, 5]), &mut wire).unwrap();
    // frame: len, data_length = 0, id, payload
    assert_eq!(wire, vec![4, 0, 1, 5, 5]);
}

#[test]
fn partial_delivery_uncompressed() {
    let codec = MinecraftCodec::new();
    let mut whole = Vec::new();
    codec
        .encode(Packet::new(7, vec![1, 2, 3, 4, 5]), &mut whole)
        .unwrap();
    let mut buf: Vec<u8> = Vec::new();
    for (i, byte) in whole.iter().enumerate() {
        buf.push(*byte);
        if i + 1 < whole.len() {
            assert!(codec.decode(&mut buf).unwrap().is_none());
            assert_eq!(buf.len(), i + 1, "nothing may be consumed early");
        }
    }
    let got = codec.decode(&mut buf).unwrap().unwrap();
    assert_eq!(got.id, 7);
    assert_eq!(got.data, vec![1, 2, 3, 4, 5]);
    assert!(buf.is_empty());
}

#[test]
fn partial_delivery_compressed() {
    let mut codec = MinecraftCodec::new();
    codec.set_compression_threshold(0);
    let mut whole = Vec::new();
    codec
        .encode(Packet::new(3, vec![42; 64]), &mut whole)
        .unwrap();
    let mut buf: Vec<u8> = Vec::new();
    for (i, byte) in whole.iter().enumerate() {
        buf.push(*byte);
        if i + 1 < whole.len() {
            assert!(codec.decode(&mut buf).unwrap().is_none());
        }
    }
    let got = codec.decode(&mut buf).unwrap().unwrap();
    assert_eq!(got.id, 3);
    assert_eq!(got.data, vec![42; 64]);
}

#[test]
fn oversize_frame_rejected_before_buffering() {
    let codec = MinecraftCodec::new();
    // a declared length of 2 MiB makes the total exceed the cap with only
    // the header present
    let mut buf = enc_varint(2 * 1024 * 1024);
    let header = buf.clone();
    assert!(matches!(codec.decode(&mut buf), Err(ProtocolError::FrameTooLarge)));
    assert_eq!(buf, header, "rejection buffers nothing");
    // a negative declared length is rejected the same way
    let mut buf = enc_varint(-5);
    assert!(matches!(codec.decode(&mut buf), Err(ProtocolError::FrameTooLarge)));
}

#[test]
fn unterminated_length_prefix_is_fatal() {
    let codec = MinecraftCodec::new();
    let mut buf = vec![0x80u8; 6];
    assert!(matches!(codec.decode(&mut buf), Err(ProtocolError::VarIntTooLong)));
}

#[test]
fn corrupt_compressed_body_is_fatal() {
    let mut codec = MinecraftCodec::new();
    codec.set_compression_threshold(0);
    // declared decompressed size 5, body is not a zlib stream
    let mut body = enc_varint(5);
    body.extend_from_slice(&[1, 2, 3]);
    let mut buf = enc_varint(body.len() as i32);
    buf.extend_from_slice(&body);
    assert!(matches!(codec.decode(&mut buf), Err(ProtocolError::DecompressFailed)));
}

#[test]
fn decompressed_size_mismatch_is_fatal() {
    let mut codec = MinecraftCodec::new();
    codec.set_compression_threshold(0);
    // a real zlib stream of one byte, declared as two
    let mut enc = flate2::write::ZlibEncoder::new(Vec::new(), flate2::Compression::default());
    std::io::Write::write_all(&mut enc, &[0x2a]).unwrap();
    let comp = enc.finish().unwrap();
    let mut body = enc_varint(2);
    body.extend_from_slice(&comp);
    let mut buf = enc_varint(body.len() as i32);
    buf.extend_from_slice(&body);
    assert!(matches!(
        codec.decode(&mut buf),
        Err(ProtocolError::DecompressedSizeMismatch)
    ));
}

fn handshake_payload(version: i32, addr: &str, port: u16, next: i32) -> Vec<u8> {
    let mut d = Vec::new();
    write_varint(&mut d, version);
    write_string(&mut d, addr);
    d.push((port >> 8) as u8);
    d.push((port & 0xff) as u8);
    write_varint(&mut d, next);
    d
}

#[test]
fn handshake_next_state_resolution() {
    let p = Packet::new(0, handshake_payload(774, "localhost", 25565, 1));
    assert_eq!(HandshakeHandler::handle(&p), Ok(State::Status));
    let p = Packet::new(0, handshake_payload(774, "localhost", 25565, 2));
    assert_eq!(HandshakeHandler::handle(&p), Ok(State::Login));
    let p = Packet::new(0, handshake_payload(774, "localhost", 25565, 3));
    assert_eq!(
        HandshakeHandler::handle(&p),
        Err(ProtocolError::InvalidNextState { value: 3 })
    );
}

#[test]
fn handshake_wrong_id_and_truncation() {
    let p = Packet::new(1, handshake_payload(774, "localhost", 25565, 1));
    assert_eq!(
        HandshakeHandler::handle(&p),
        Err(ProtocolError::UnexpectedPacket { expected: 0, actual: 1 })
    );
    let mut d = handshake_payload(774, "localhost", 25565, 1);
    d.truncate(3);
    let p = Packet::new(0, d);
    assert!(HandshakeHandler::handle(&p).is_err());
}

#[test]
fn handshake_parse_fields() {
    let d = handshake_payload(770, "mc.example.net", 25565, 2);
    let h = HandshakeHandler::parse(&d).unwrap();
    assert_eq!(h.protocol_version, 770);
    assert_eq!(h.server_address, "mc.example.net");
    assert_eq!(h.server_port, 25565);
    assert_eq!(h.next_state, 2);
}

#[test]
fn packet_duplicate_keeps_contents() {
    let p = Packet::new(9, vec![1, 2, 3]);
    let q = p.duplicate();
    assert_eq!(q.id, 9);
    assert_eq!(q.data, vec![1, 2, 3]);
}

#[test]
fn read_remaining_takes_the_tail() {
    let b = vec![1u8, 2, 3, 4];
    assert_eq!(takumi_proxy::wire::read_remaining(&b, 1), vec![2, 3, 4]);
    assert_eq!(takumi_proxy::wire::read_remaining(&b, 4), Vec::<u8>::new());
}
