use vstd::prelude::*;
use vstd::utf8::{valid_utf8, decode_utf8, encode_utf8};
use vstd::string::StrSliceExecFns;

use crate::error::ProtocolError;
use crate::varint::{
    varint32_at, varint32_value, varint_complete, varint_len, read_varint, write_varint,
};

verus! {

// ---------------------------------------------------------------------------
// Typed protocol fields over a byte buffer: each reader takes the buffer and
// a position and returns the value with the position after it; each writer
// appends the field's encoding. A malformed or truncated field is an error.
// ---------------------------------------------------------------------------

/// Copies `data[from..to]` into a fresh vector.
pub fn copy_range(data: &Vec<u8>, from: usize, to: usize) -> (r: Vec<u8>)
    requires
        from <= to <= data@.len(),
    ensures
        r@ == data@.subrange(from as int, to as int),
{
    let mut r: Vec<u8> = Vec::new();
    let mut i = from;
    while i < to
        invariant
            from <= i <= to <= data@.len(),
            r@ == data@.subrange(from as int, i as int),
        decreases to - i,
    {
        r.push(data[i]);
        i = i + 1;
        proof {
            assert(r@ =~= data@.subrange(from as int, i as int));
        }
    }
    r
}

// ---------------------------------------------------------------------------
// Length-prefixed strings.
// ---------------------------------------------------------------------------

/// True when a well-formed length-prefixed UTF-8 string starts at `pos`.
pub open spec fn string_at(data: Seq<u8>, pos: int) -> bool {
    let s = data.skip(pos);
    &&& varint32_at(s)
    &&& varint32_value(s) >= 0
    &&& pos + varint_len(s) + varint32_value(s) <= data.len()
    &&& valid_utf8(
        data.subrange(
            pos + varint_len(s),
            pos + varint_len(s) + varint32_value(s),
        ),
    )
}

/// The characters of the string starting at `pos`.
pub open spec fn string_chars(data: Seq<u8>, pos: int) -> Seq<char> {
    let s = data.skip(pos);
    decode_utf8(
        data.subrange(pos + varint_len(s), pos + varint_len(s) + varint32_value(s)),
    )
}

/// The position just after the string starting at `pos`.
pub open spec fn string_end(data: Seq<u8>, pos: int) -> int {
    let s = data.skip(pos);
    pos + varint_len(s) + varint32_value(s)
}

/// The error a malformed string field at `pos` produces.
pub open spec fn string_err(data: Seq<u8>, pos: int) -> ProtocolError {
    let s = data.skip(pos);
    if !varint32_at(s) {
        if data.len() - pos < 5 && !varint_complete(s) {
            ProtocolError::BufferUnderflow
        } else {
            ProtocolError::VarIntTooLong
        }
    } else if varint32_value(s) < 0 {
        ProtocolError::NegativeLength
    } else if pos + varint_len(s) + varint32_value(s) > data.len() {
        ProtocolError::BufferUnderflow
    } else {
        ProtocolError::BadUtf8
    }
}

/// Relies on `String::from_utf8`: it succeeds exactly on valid UTF-8 input
/// and returns the string those bytes spell.
#[verifier::external_body]
fn utf8_to_string(bytes: Vec<u8>) -> (r: Option<String>)
    ensures
        r is Some <==> valid_utf8(bytes@),
        (r matches Some(s) ==> s@ == decode_utf8(bytes@) && encode_utf8(s@) == bytes@),
{
    match String::from_utf8(bytes) {
        Ok(s) => Some(s),
        Err(_) => None,
    }
}

/// Reads a length-prefixed UTF-8 string at `data[pos..]`.
pub fn read_string(data: &Vec<u8>, pos: usize) -> (r: Result<(String, usize), ProtocolError>)
    requires
        pos <= data@.len(),
    ensures
        r is Ok <==> string_at(data@, pos as int),
        (r matches Ok((s, end)) ==> {
            &&& s@ == string_chars(data@, pos as int)
            &&& encode_utf8(s@) == data@.subrange(
                pos + varint_len(data@.skip(pos as int)),
                string_end(data@, pos as int),
            )
            &&& end == string_end(data@, pos as int)
            &&& pos < end <= data@.len()
        }),
        (r matches Err(e) ==> e == string_err(data@, pos as int)),
{
    let (len_i, body) = match read_varint(data, pos) {
        Ok(v) => v,
        Err(e) => {
            return Err(e);
        },
    };
    if len_i < 0 {
        return Err(ProtocolError::NegativeLength);
    }
    let len = len_i as usize;
    if data.len() - body < len {
        return Err(ProtocolError::BufferUnderflow);
    }
    let bytes = copy_range(data, body, body + len);
    match utf8_to_string(bytes) {
        Some(s) => Ok((s, body + len)),
        None => Err(ProtocolError::BadUtf8),
    }
}

/// Appends a length-prefixed UTF-8 string to `out`.
pub fn write_string(out: &mut Vec<u8>, value: &str)
    requires
        encode_utf8(value@).len() <= 0x7fffffff,
    ensures
        final(out)@ == old(out)@ + crate::varint::varint_enc(encode_utf8(value@).len())
            + encode_utf8(value@),
{
    let bytes = value.as_bytes_vec();
    let n = bytes.len();
    write_varint(out, n as i32);
    proof {
        assert((n as i32) as u32 == n as u32);
    }
    out.extend_from_slice(bytes.as_slice());
    proof {
        assert(out@ =~= old(out)@ + crate::varint::varint_enc(encode_utf8(value@).len())
            + encode_utf8(value@));
    }
}

// ---------------------------------------------------------------------------
// Length-prefixed byte arrays.
// ---------------------------------------------------------------------------

/// True when a well-formed length-prefixed byte array starts at `pos`.
pub open spec fn byte_array_at(data: Seq<u8>, pos: int) -> bool {
    let s = data.skip(pos);
    &&& varint32_at(s)
    &&& varint32_value(s) >= 0
    &&& pos + varint_len(s) + varint32_value(s) <= data.len()
}

/// The contents of the byte array starting at `pos`.
pub open spec fn byte_array_bytes(data: Seq<u8>, pos: int) -> Seq<u8> {
    let s = data.skip(pos);
    data.subrange(pos + varint_len(s), pos + varint_len(s) + varint32_value(s))
}

/// The position just after the byte array starting at `pos`.
pub open spec fn byte_array_end(data: Seq<u8>, pos: int) -> int {
    let s = data.skip(pos);
    pos + varint_len(s) + varint32_value(s)
}

/// The error a malformed byte-array field at `pos` produces.
pub open spec fn byte_array_err(data: Seq<u8>, pos: int) -> ProtocolError {
    let s = data.skip(pos);
    if !varint32_at(s) {
        if data.len() - pos < 5 && !varint_complete(s) {
            ProtocolError::BufferUnderflow
        } else {
            ProtocolError::VarIntTooLong
        }
    } else if varint32_value(s) < 0 {
        ProtocolError::NegativeLength
    } else {
        ProtocolError::BufferUnderflow
    }
}

/// Reads a length-prefixed byte array at `data[pos..]`.
pub fn read_byte_array(data: &Vec<u8>, pos: usize) -> (r: Result<(Vec<u8>, usize), ProtocolError>)
    requires
        pos <= data@.len(),
    ensures
        r is Ok <==> byte_array_at(data@, pos as int),
        (r matches Ok((b, end)) ==> {
            &&& b@ == byte_array_bytes(data@, pos as int)
            &&& end == byte_array_end(data@, pos as int)
            &&& pos < end <= data@.len()
        }),
        (r matches Err(e) ==> e == byte_array_err(data@, pos as int)),
{
    let (len_i, body) = match read_varint(data, pos) {
        Ok(v) => v,
        Err(e) => {
            return Err(e);
        },
    };
    if len_i < 0 {
        return Err(ProtocolError::NegativeLength);
    }
    let len = len_i as usize;
    if data.len() - body < len {
        return Err(ProtocolError::BufferUnderflow);
    }
    let bytes = copy_range(data, body, body + len);
    Ok((bytes, body + len))
}

/// Appends a length-prefixed byte array to `out`.
pub fn write_byte_array(out: &mut Vec<u8>, value: &Vec<u8>)
    requires
        value@.len() <= 0x7fffffff,
    ensures
        final(out)@ == old(out)@ + crate::varint::varint_enc(value@.len()) + value@,
{
    let n = value.len();
    write_varint(out, n as i32);
    proof {
        assert((n as i32) as u32 == n as u32);
    }
    out.extend_from_slice(value.as_slice());
    proof {
        assert(out@ =~= old(out)@ + crate::varint::varint_enc(value@.len()) + value@);
    }
}

// ---------------------------------------------------------------------------
// Booleans and big-endian 16-bit integers.
// ---------------------------------------------------------------------------

/// Reads a single-byte boolean: any nonzero byte is true.
pub fn read_bool(data: &Vec<u8>, pos: usize) -> (r: Result<(bool, usize), ProtocolError>)
    requires
        pos <= data@.len(),
    ensures
        r is Ok <==> pos < data@.len(),
        (r matches Ok((b, end)) ==> b == (data@[pos as int] != 0) && end == pos + 1),
        (r matches Err(e) ==> e == ProtocolError::BufferUnderflow),
{
    if pos >= data.len() {
        return Err(ProtocolError::BufferUnderflow);
    }
    Ok((data[pos] != 0, pos + 1))
}

/// Appends a single-byte boolean to `out`.
pub fn write_bool(out: &mut Vec<u8>, value: bool)
    ensures
        final(out)@ == old(out)@ + seq![if value { 1u8 } else { 0u8 }],
{
    out.push(if value { 1 } else { 0 });
    proof {
        assert(out@ =~= old(out)@ + seq![if value { 1u8 } else { 0u8 }]);
    }
}

/// The big-endian 16-bit value at `pos` (meaningful when two bytes remain).
pub open spec fn u16_be_value(data: Seq<u8>, pos: int) -> u16 {
    (data[pos] * 256 + data[pos + 1]) as u16
}

/// Reads a big-endian unsigned 16-bit integer.
pub fn read_u16_be(data: &Vec<u8>, pos: usize) -> (r: Result<(u16, usize), ProtocolError>)
    requires
        pos <= data@.len(),
    ensures
        r is Ok <==> pos + 2 <= data@.len(),
        (r matches Ok((v, end)) ==> v == u16_be_value(data@, pos as int) && end == pos + 2),
        (r matches Err(e) ==> e == ProtocolError::BufferUnderflow),
{
    if data.len() - pos < 2 {
        return Err(ProtocolError::BufferUnderflow);
    }
    let hi = data[pos];
    let lo = data[pos + 1];
    Ok(((hi as u16) * 256 + (lo as u16), pos + 2))
}

/// Copies every byte from `pos` to the end of the buffer.
pub fn read_remaining(data: &Vec<u8>, pos: usize) -> (r: Vec<u8>)
    requires
        pos <= data@.len(),
    ensures
        r@ == data@.skip(pos as int),
{
    let r = copy_range(data, pos, data.len());
    proof {
        assert(data@.subrange(pos as int, data@.len() as int) =~= data@.skip(pos as int));
    }
    r
}

} // verus!
