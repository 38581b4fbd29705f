use vstd::prelude::*;
use vstd::arithmetic::power2::{lemma2_to64, lemma2_to64_rest};

use crate::error::ProtocolError;
use crate::packet::Packet;
use crate::varint::{
    varint_nat,
    varint32_at, varint32_value, varint_complete, varint_enc, varint_len, read_varint,
    write_varint, varint_size, lemma_varint_enc_decodes, lemma_varint_enc_len,
    lemma_varint_structure, lemma_all_cont_incomplete, lemma_varint_take,
    lemma_varint_round_trip,
};
use crate::wire::{copy_range, read_remaining};

verus! {

/// The largest frame the decoder will buffer: a declared length that would
/// push the total past this bound is rejected outright.
pub const MAX_PACKET_SIZE: usize = 2 * 1024 * 1024;

// ---------------------------------------------------------------------------
// What the wire bytes mean.
// ---------------------------------------------------------------------------

/// True when a frame body starts with a well-formed packet id.
pub open spec fn plain_ok(body: Seq<u8>) -> bool {
    varint32_at(body)
}

/// The packet id at the head of a frame body.
pub open spec fn plain_id(body: Seq<u8>) -> i32 {
    varint32_value(body)
}

/// The payload after the packet id.
pub open spec fn plain_payload(body: Seq<u8>) -> Seq<u8> {
    body.skip(varint_len(body) as int)
}

/// The error a malformed packet id produces.
pub open spec fn plain_err(body: Seq<u8>) -> ProtocolError {
    if body.len() < 5 && !varint_complete(body) {
        ProtocolError::BufferUnderflow
    } else {
        ProtocolError::VarIntTooLong
    }
}

/// True when the buffer head holds a complete length prefix.
pub open spec fn header_at(b: Seq<u8>) -> bool {
    varint32_at(b)
}

/// The declared frame length.
pub open spec fn frame_declared(b: Seq<u8>) -> int {
    varint32_value(b) as int
}

/// The total size of the frame: length prefix plus declared length.
pub open spec fn frame_total(b: Seq<u8>) -> int {
    varint_len(b) + frame_declared(b)
}

/// True when the declared length is negative or past the frame cap.
pub open spec fn frame_oversize(b: Seq<u8>) -> bool {
    header_at(b) && (frame_declared(b) < 0 || frame_total(b) > MAX_PACKET_SIZE)
}

/// True when more bytes must arrive before anything can be decoded: either
/// the length prefix itself is still incomplete, or the declared frame has
/// not fully arrived.
pub open spec fn frame_pending(b: Seq<u8>) -> bool {
    ||| (!varint_complete(b) && b.len() < 5)
    ||| (header_at(b) && 0 <= frame_declared(b) && frame_total(b) <= MAX_PACKET_SIZE
        && b.len() < frame_total(b))
}

/// True when a whole frame, within the size cap, lies at the buffer head.
pub open spec fn frame_full(b: Seq<u8>) -> bool {
    header_at(b) && 0 <= frame_declared(b) && frame_total(b) <= MAX_PACKET_SIZE && frame_total(b)
        <= b.len()
}

/// The frame body: the declared bytes after the length prefix.
pub open spec fn frame_body(b: Seq<u8>) -> Seq<u8> {
    b.subrange(varint_len(b) as int, frame_total(b))
}

// ---------------------------------------------------------------------------
// The zlib boundary.
// ---------------------------------------------------------------------------

/// The zlib stream the outside compressor produces for these bytes; a pure
/// function of the input.
pub uninterp spec fn deflate_of(s: Seq<u8>) -> Seq<u8>;

/// Relies on flate2's `ZlibEncoder` at the default level: compression of an
/// in-memory buffer cannot fail and its output depends on the input alone.
#[verifier::external_body]
fn zlib_compress(data: &Vec<u8>) -> (r: Vec<u8>)
    ensures
        r@ == deflate_of(data@),
{
    let mut encoder = flate2::write::ZlibEncoder::new(Vec::new(), flate2::Compression::default());
    std::io::Write::write_all(&mut encoder, data.as_slice()).expect("writing to a vector");
    encoder.finish().expect("finishing an in-memory zlib stream")
}

/// Relies on flate2's `ZlibDecoder`: inflating a stream the compressor
/// produced yields exactly the bytes that were compressed; a corrupt stream
/// yields an error.
#[verifier::external_body]
fn zlib_decompress(data: &Vec<u8>, size_hint: usize) -> (r: Option<Vec<u8>>)
    ensures
        (r matches Some(v) ==> forall|s: Seq<u8>|
            data@ == #[trigger] deflate_of(s) ==> v@ == s),
        (r is None ==> forall|s: Seq<u8>| data@ != #[trigger] deflate_of(s)),
{
    let mut decoder = flate2::read::ZlibDecoder::new(data.as_slice());
    let mut out = Vec::with_capacity(size_hint);
    match std::io::Read::read_to_end(&mut decoder, &mut out) {
        Ok(_) => Some(out),
        Err(_) => None,
    }
}

// ---------------------------------------------------------------------------
// The per-connection codec.
// ---------------------------------------------------------------------------

/// Frames packets over a byte stream. The compression threshold governs
/// encode and decode symmetrically: negative means compression is off; a
/// non-negative value means every frame carries a decompressed-size field.
pub struct MinecraftCodec {
    compression_threshold: i32,
}

impl MinecraftCodec {
    /// The session's compression threshold; negative while compression is
    /// disabled.
    pub closed spec fn threshold_spec(&self) -> i32 {
        self.compression_threshold
    }

    /// A codec with compression disabled, the state of every new connection.
    pub fn new() -> (r: MinecraftCodec)
        ensures
            r.threshold_spec() == -1i32,
    {
        MinecraftCodec { compression_threshold: -1 }
    }

    /// Enables (non-negative) or disables (negative) compression.
    pub fn set_compression_threshold(&mut self, threshold: i32)
        ensures
            final(self).threshold_spec() == threshold,
    {
        self.compression_threshold = threshold;
    }

    pub fn compression_threshold(&self) -> (r: i32)
        ensures
            r == self.threshold_spec(),
    {
        self.compression_threshold
    }
}

/// Parses a packet id and payload from a frame body.
fn parse_packet_body(body: Vec<u8>) -> (r: Result<Packet, ProtocolError>)
    ensures
        r is Ok <==> plain_ok(body@),
        (r matches Ok(p) ==> p.id == plain_id(body@) && p.data@ == plain_payload(body@)),
        (r matches Err(e) ==> e == plain_err(body@)),
{
    match read_varint(&body, 0) {
        Ok((id, end)) => {
            let payload = read_remaining(&body, end);
            proof {
                assert(body@.skip(0) =~= body@);
            }
            Ok(Packet::new(id, payload))
        },
        Err(e) => {
            proof {
                assert(body@.skip(0) =~= body@);
            }
            Err(e)
        },
    }
}

/// Reads the VarInt at the head of the buffer without consuming anything:
/// the value and its byte count, `None` when more bytes are needed, an
/// error when 5 bytes pass without a terminating byte.
pub fn read_varint_peek(buf: &Vec<u8>) -> (r: Result<Option<(i32, usize)>, ProtocolError>)
    ensures
        (r matches Ok(o) && o is Some) <==> varint32_at(buf@),
        (r matches Ok(Some((v, n))) ==> (v == varint32_value(buf@) && n == varint_len(buf@))),
        (r matches Ok(o) && o is None <==> buf@.len() < 5 && !varint_complete(buf@)),
        r is Err <==> buf@.len() >= 5 && !varint32_at(buf@),
        (r matches Err(e) ==> e == ProtocolError::VarIntTooLong),
{
    proof {
        assert(buf@.skip(0) =~= buf@);
    }
    match read_varint(buf, 0) {
        Ok((v, end)) => Ok(Some((v, end))),
        Err(ProtocolError::BufferUnderflow) => Ok(None),
        Err(_) => Err(ProtocolError::VarIntTooLong),
    }
}

impl MinecraftCodec {
    /// Decodes one frame from the head of an accumulating buffer.
    ///
    /// `Ok(None)` reports "insufficient data": nothing is consumed and the
    /// caller retries once more bytes arrive. A declared size past the frame
    /// cap is rejected before any buffering. Once a whole frame is present
    /// it is consumed whatever the outcome, and the packet is parsed from it
    /// according to the session's compression mode.
    pub fn decode(&self, src: &mut Vec<u8>) -> (r: Result<Option<Packet>, ProtocolError>)
        ensures
            ((r matches Ok(o) && o is None) <==> frame_pending(old(src)@)),
            (frame_pending(old(src)@) ==> final(src)@ == old(src)@),
            (old(src)@.len() >= 5 && !header_at(old(src)@) ==> r == Result::<
                Option<Packet>,
                ProtocolError,
            >::Err(ProtocolError::VarIntTooLong) && final(src)@ == old(src)@),
            (frame_oversize(old(src)@) ==> r == Result::<Option<Packet>, ProtocolError>::Err(
                ProtocolError::FrameTooLarge,
            ) && final(src)@ == old(src)@),
            (frame_full(old(src)@) ==> final(src)@ == old(src)@.skip(frame_total(old(src)@))),
            (frame_full(old(src)@) && self.threshold_spec() < 0 ==> {
                let body = frame_body(old(src)@);
                &&& (plain_ok(body) ==> (r matches Ok(op) && op matches Some(p) && p.id
                    == plain_id(body) && p.data@ == plain_payload(body)))
                &&& (!plain_ok(body) ==> (r matches Err(e) && e == plain_err(body)))
            }),
            (frame_full(old(src)@) && self.threshold_spec() >= 0 ==> {
                let body = frame_body(old(src)@);
                &&& (!varint32_at(body) ==> (r matches Err(e) && e == plain_err(body)))
                &&& (varint32_at(body) && varint32_value(body) < 0 ==> (r matches Err(e) && e
                    == ProtocolError::NegativeLength))
                &&& (varint32_at(body) && varint32_value(body) == 0 ==> {
                    let rest = body.skip(varint_len(body) as int);
                    &&& (plain_ok(rest) ==> (r matches Ok(op) && op matches Some(p) && p.id
                        == plain_id(rest) && p.data@ == plain_payload(rest)))
                    &&& (!plain_ok(rest) ==> (r matches Err(e) && e == plain_err(rest)))
                })
                &&& (varint32_at(body) && varint32_value(body) > 0 ==> forall|inner: Seq<u8>|
                    body.skip(varint_len(body) as int) == #[trigger] deflate_of(inner)
                        && inner.len() == varint32_value(body) && plain_ok(inner)
                        ==> (r matches Ok(op) && op matches Some(p) && p.id == plain_id(inner)
                        && p.data@ == plain_payload(inner)))
            }),
    {
        let ghost b = src@;
        proof {
            assert(b.skip(0) =~= b);
        }
        let (length_i, header_len) = match read_varint(src, 0) {
            Ok(v) => v,
            Err(ProtocolError::BufferUnderflow) => {
                return Ok(None);
            },
            Err(_) => {
                return Err(ProtocolError::VarIntTooLong);
            },
        };
        if length_i < 0 {
            return Err(ProtocolError::FrameTooLarge);
        }
        let length = length_i as usize;
        if length > MAX_PACKET_SIZE - header_len {
            return Err(ProtocolError::FrameTooLarge);
        }
        let total = header_len + length;
        if src.len() < total {
            return Ok(None);
        }
        let body = copy_range(src, header_len, total);
        let tail = src.split_off(total);
        *src = tail;
        proof {
            assert(src@ =~= b.skip(frame_total(b)));
            assert(body@ == frame_body(b));
        }
        if self.compression_threshold >= 0 {
            let (data_length_i, dl_end) = match read_varint(&body, 0) {
                Ok(v) => v,
                Err(e) => {
                    proof {
                        assert(body@.skip(0) =~= body@);
                    }
                    return Err(e);
                },
            };
            proof {
                assert(body@.skip(0) =~= body@);
            }
            if data_length_i < 0 {
                return Err(ProtocolError::NegativeLength);
            }
            if data_length_i == 0 {
                let rest = read_remaining(&body, dl_end);
                match parse_packet_body(rest) {
                    Ok(p) => Ok(Some(p)),
                    Err(e) => Err(e),
                }
            } else {
                let data_length = data_length_i as usize;
                let compressed = read_remaining(&body, dl_end);
                let inflated = match zlib_decompress(&compressed, data_length) {
                    Some(v) => v,
                    None => {
                        return Err(ProtocolError::DecompressFailed);
                    },
                };
                if inflated.len() != data_length {
                    return Err(ProtocolError::DecompressedSizeMismatch);
                }
                match parse_packet_body(inflated) {
                    Ok(p) => Ok(Some(p)),
                    Err(e) => Err(e),
                }
            }
        } else {
            match parse_packet_body(body) {
                Ok(p) => Ok(Some(p)),
                Err(e) => Err(e),
            }
        }
    }
}

// ---------------------------------------------------------------------------
// Encoding.
// ---------------------------------------------------------------------------

/// The id-plus-payload bytes a frame carries.
pub open spec fn inner_bytes(id: i32, payload: Seq<u8>) -> Seq<u8> {
    varint_enc((id as u32) as nat) + payload
}

/// The frame that encodes a packet with compression disabled.
pub open spec fn frame_uncompressed(id: i32, payload: Seq<u8>) -> Seq<u8> {
    varint_enc(inner_bytes(id, payload).len()) + inner_bytes(id, payload)
}

/// The frame that encodes a packet with compression enabled: below the
/// threshold the escape form (decompressed-size zero, body verbatim), at or
/// above it the deflated form.
pub open spec fn frame_compressed(id: i32, payload: Seq<u8>, threshold: int) -> Seq<u8> {
    let inner = inner_bytes(id, payload);
    if inner.len() < threshold {
        varint_enc(1 + inner.len()) + seq![0u8] + inner
    } else {
        let comp = deflate_of(inner);
        varint_enc(varint_enc(inner.len()).len() + comp.len()) + varint_enc(inner.len()) + comp
    }
}

/// Writes the uncompressed frame for a packet: length prefix, id, payload.
fn encode_uncompressed(packet: &Packet, dst: &mut Vec<u8>) -> (r: Result<(), ProtocolError>)
    ensures
        r is Ok <==> inner_bytes(packet.id, packet.data@).len() <= 0x7fffffff,
        (r is Ok ==> final(dst)@ == old(dst)@ + frame_uncompressed(packet.id, packet.data@)),
        (r is Err ==> final(dst)@ == old(dst)@ && r == Result::<(), ProtocolError>::Err(
            ProtocolError::Oversize,
        )),
{
    let id_size = varint_size(packet.id);
    if packet.data.len() > 0x7fffffff - id_size {
        return Err(ProtocolError::Oversize);
    }
    let length = id_size + packet.data.len();
    write_varint(dst, length as i32);
    write_varint(dst, packet.id);
    dst.extend_from_slice(packet.data.as_slice());
    proof {
        assert((length as i32) as u32 == length as u32);
        assert(dst@ =~= old(dst)@ + frame_uncompressed(packet.id, packet.data@));
    }
    Ok(())
}

/// Writes the compressed-mode frame for a packet: the escape form below the
/// threshold, the deflated form at or above it (strictly-less-than: a body
/// exactly at the threshold is compressed).
fn encode_compressed(packet: &Packet, threshold: usize, dst: &mut Vec<u8>) -> (r: Result<
    (),
    ProtocolError,
>)
    requires
        threshold <= 0x7fffffff,
    ensures
        r is Ok <==> ({
            let inner = inner_bytes(packet.id, packet.data@);
            inner.len() < threshold || (inner.len() <= 0x7fffffff && varint_enc(
                inner.len(),
            ).len() + deflate_of(inner).len() <= 0x7fffffff)
        }),
        (r is Ok ==> final(dst)@ == old(dst)@ + frame_compressed(
            packet.id,
            packet.data@,
            threshold as int,
        )),
        (r is Err ==> final(dst)@ == old(dst)@ && r == Result::<(), ProtocolError>::Err(
            ProtocolError::Oversize,
        )),
{
    let mut inner: Vec<u8> = Vec::new();
    write_varint(&mut inner, packet.id);
    inner.extend_from_slice(packet.data.as_slice());
    proof {
        assert(inner@ =~= inner_bytes(packet.id, packet.data@));
    }
    if inner.len() < threshold {
        let length = 1 + inner.len();
        write_varint(dst, length as i32);
        write_varint(dst, 0);
        dst.extend_from_slice(inner.as_slice());
        proof {
            assert((length as i32) as u32 == length as u32);
            assert(dst@ =~= old(dst)@ + frame_compressed(
                packet.id,
                packet.data@,
                threshold as int,
            ));
        }
        Ok(())
    } else {
        if inner.len() > 0x7fffffff {
            return Err(ProtocolError::Oversize);
        }
        let comp = zlib_compress(&inner);
        let dl_size = varint_size(inner.len() as i32);
        proof {
            assert((inner@.len() as i32) as u32 == inner@.len() as u32);
        }
        if comp.len() > 0x7fffffff - dl_size {
            return Err(ProtocolError::Oversize);
        }
        let length = dl_size + comp.len();
        write_varint(dst, length as i32);
        write_varint(dst, inner.len() as i32);
        dst.extend_from_slice(comp.as_slice());
        proof {
            assert((length as i32) as u32 == length as u32);
            assert(dst@ =~= old(dst)@ + frame_compressed(
                packet.id,
                packet.data@,
                threshold as int,
            ));
        }
        Ok(())
    }
}

impl MinecraftCodec {
    /// Appends the frame for `packet` to `dst`, in the form the session
    /// mode calls for. Mirrors `decode`: what this writes, a codec with the
    /// same threshold reads back as the same packet.
    pub fn encode(&self, packet: Packet, dst: &mut Vec<u8>) -> (r: Result<(), ProtocolError>)
        ensures
            (self.threshold_spec() < 0 ==> {
                &&& (r is Ok <==> inner_bytes(packet.id, packet.data@).len() <= 0x7fffffff)
                &&& (r is Ok ==> final(dst)@ == old(dst)@ + frame_uncompressed(
                    packet.id,
                    packet.data@,
                ))
            }),
            (self.threshold_spec() >= 0 ==> {
                let inner = inner_bytes(packet.id, packet.data@);
                &&& (r is Ok <==> (inner.len() < self.threshold_spec() || (inner.len()
                    <= 0x7fffffff && varint_enc(inner.len()).len() + deflate_of(inner).len()
                    <= 0x7fffffff)))
                &&& (r is Ok ==> final(dst)@ == old(dst)@ + frame_compressed(
                    packet.id,
                    packet.data@,
                    self.threshold_spec() as int,
                ))
            }),
            (r is Err ==> final(dst)@ == old(dst)@ && r == Result::<(), ProtocolError>::Err(
                ProtocolError::Oversize,
            )),
    {
        if self.compression_threshold >= 0 {
            encode_compressed(&packet, self.compression_threshold as usize, dst)
        } else {
            encode_uncompressed(&packet, dst)
        }
    }
}

// ---------------------------------------------------------------------------
// Round-trip and partial-delivery laws.
// ---------------------------------------------------------------------------

/// An uncompressed frame parses back to the id and payload it encodes, and
/// spans exactly its own bytes.
pub proof fn lemma_frame_round_trip_plain(id: i32, payload: Seq<u8>)
    requires
        inner_bytes(id, payload).len() + 5 <= MAX_PACKET_SIZE,
    ensures
        ({
            let s = frame_uncompressed(id, payload);
            &&& frame_full(s)
            &&& frame_total(s) == s.len()
            &&& plain_ok(frame_body(s))
            &&& plain_id(frame_body(s)) == id
            &&& plain_payload(frame_body(s)) == payload
        }),
{
    let inner = inner_bytes(id, payload);
    let gl = inner.len();
    let s = frame_uncompressed(id, payload);
    lemma_varint_enc_decodes(gl, inner);
    lemma2_to64();
    lemma2_to64_rest();
    lemma_varint_enc_len(gl, 5);
    assert(frame_total(s) == varint_enc(gl).len() + gl);
    assert(frame_body(s) =~= inner);
    lemma_varint_round_trip(id, payload);
    assert(plain_payload(inner) =~= payload);
}

/// A compression-mode frame below the threshold (the escape form) parses
/// back to the id and payload it encodes.
pub proof fn lemma_frame_round_trip_escape(id: i32, payload: Seq<u8>, threshold: int)
    requires
        inner_bytes(id, payload).len() < threshold,
        inner_bytes(id, payload).len() + 6 <= MAX_PACKET_SIZE,
    ensures
        ({
            let s = frame_compressed(id, payload, threshold);
            let body = frame_body(s);
            &&& frame_full(s)
            &&& frame_total(s) == s.len()
            &&& varint32_at(body)
            &&& varint32_value(body) == 0
            &&& plain_ok(body.skip(varint_len(body) as int))
            &&& plain_id(body.skip(varint_len(body) as int)) == id
            &&& plain_payload(body.skip(varint_len(body) as int)) == payload
        }),
{
    let inner = inner_bytes(id, payload);
    let body = seq![0u8] + inner;
    let s = frame_compressed(id, payload, threshold);
    assert(s =~= varint_enc(1 + inner.len()) + body);
    lemma_varint_enc_decodes(1 + inner.len(), body);
    lemma2_to64();
    lemma2_to64_rest();
    lemma_varint_enc_len(1 + inner.len(), 5);
    assert(frame_total(s) == varint_enc(1 + inner.len()).len() + 1 + inner.len());
    assert(frame_body(s) =~= body);
    assert(body[0] == 0u8);
    assert(varint_len(body) == 1 && varint_nat(body) == 0);
    assert(body.skip(1) =~= inner);
    lemma_varint_round_trip(id, payload);
    assert(plain_payload(inner) =~= payload);
}

/// A compression-mode frame at or above the threshold (the deflated form)
/// declares the body size it inflates to and carries the deflated body; the
/// inflated bytes parse back to the id and payload.
pub proof fn lemma_frame_round_trip_deflate(id: i32, payload: Seq<u8>, threshold: int)
    requires
        0 <= threshold <= inner_bytes(id, payload).len(),
        inner_bytes(id, payload).len() <= 0x7fffffff,
        varint_enc(inner_bytes(id, payload).len()).len() + deflate_of(
            inner_bytes(id, payload),
        ).len() + 5 <= MAX_PACKET_SIZE,
    ensures
        ({
            let inner = inner_bytes(id, payload);
            let s = frame_compressed(id, payload, threshold);
            let body = frame_body(s);
            &&& frame_full(s)
            &&& frame_total(s) == s.len()
            &&& varint32_at(body)
            &&& varint32_value(body) == inner.len()
            &&& varint32_value(body) > 0
            &&& body.skip(varint_len(body) as int) == deflate_of(inner)
            &&& plain_ok(inner)
            &&& plain_id(inner) == id
            &&& plain_payload(inner) == payload
        }),
{
    let inner = inner_bytes(id, payload);
    let comp = deflate_of(inner);
    let body = varint_enc(inner.len()) + comp;
    let s = frame_compressed(id, payload, threshold);
    assert(s =~= varint_enc(body.len()) + body);
    lemma_varint_enc_decodes(body.len(), body);
    lemma2_to64();
    lemma2_to64_rest();
    lemma_varint_enc_len(body.len(), 5);
    assert(frame_total(s) == varint_enc(body.len()).len() + body.len());
    assert(frame_body(s) =~= body);
    lemma_varint_enc_decodes(inner.len(), comp);
    lemma_varint_enc_len(inner.len(), 5);
    assert(body.skip(varint_len(body) as int) =~= comp);
    lemma_varint_round_trip(id, payload);
    assert(plain_payload(inner) =~= payload);
}

/// Every strict prefix of a whole frame is "insufficient data": the decoder
/// consumes nothing and asks for more until the last byte has arrived.
pub proof fn lemma_frame_prefix_pending(b: Seq<u8>, k: int)
    requires
        frame_full(b),
        frame_total(b) == b.len(),
        0 <= k < b.len(),
    ensures
        frame_pending(b.take(k)),
{
    let hl = varint_len(b) as int;
    let p = b.take(k);
    lemma_varint_structure(b);
    if k < hl {
        assert forall|j: int| 0 <= j < p.len() implies p[j] >= 128 by {
            assert(p[j] == b[j]);
        }
        lemma_all_cont_incomplete(p);
    } else {
        lemma_varint_take(b, k);
    }
}

} // verus!
