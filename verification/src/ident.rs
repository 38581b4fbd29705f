use vstd::prelude::*;

use crate::error::ProtocolError;

verus! {

/// A 128-bit identifier, stored as two big-endian halves. The wire format is
/// the 16 bytes of `hi` then `lo`, most significant byte first.
#[derive(Debug, Clone, Copy, PartialEq, Eq, Hash, Structural)]
pub struct Uuid {
    pub hi: u64,
    pub lo: u64,
}

/// The eight big-endian bytes of `x`.
pub open spec fn be64_bytes(x: u64) -> Seq<u8> {
    seq![
        (x / 0x100000000000000 % 256) as u8,
        (x / 0x1000000000000 % 256) as u8,
        (x / 0x10000000000 % 256) as u8,
        (x / 0x100000000 % 256) as u8,
        (x / 0x1000000 % 256) as u8,
        (x / 0x10000 % 256) as u8,
        (x / 0x100 % 256) as u8,
        (x % 256) as u8,
    ]
}

/// The value eight big-endian bytes denote (meaningful when `s` has them).
pub open spec fn be64_value(s: Seq<u8>) -> u64 {
    (s[0] * 0x100000000000000 + s[1] * 0x1000000000000 + s[2] * 0x10000000000 + s[3]
        * 0x100000000 + s[4] * 0x1000000 + s[5] * 0x10000 + s[6] * 0x100 + s[7]) as u64
}

/// The 16 wire bytes of a UUID.
pub open spec fn uuid_bytes(u: Uuid) -> Seq<u8> {
    be64_bytes(u.hi) + be64_bytes(u.lo)
}

/// Big-endian byte order round-trips: the bytes of `x` denote `x`.
pub proof fn lemma_be64_round_trip(x: u64)
    ensures
        be64_value(be64_bytes(x)) == x,
{
    assert((x / 0x100000000000000 % 256) * 0x100000000000000 + (x / 0x1000000000000 % 256)
        * 0x1000000000000 + (x / 0x10000000000 % 256) * 0x10000000000 + (x / 0x100000000 % 256)
        * 0x100000000 + (x / 0x1000000 % 256) * 0x1000000 + (x / 0x10000 % 256) * 0x10000 + (x
        / 0x100 % 256) * 0x100 + x % 256 == x) by (bit_vector);
}

impl Uuid {
    /// The 16 wire bytes, most significant first.
    pub fn to_bytes(&self) -> (r: Vec<u8>)
        ensures
            r@ == uuid_bytes(*self),
    {
        let mut r: Vec<u8> = Vec::new();
        push_be64(&mut r, self.hi);
        push_be64(&mut r, self.lo);
        proof {
            assert(r@ =~= uuid_bytes(*self));
        }
        r
    }
}

/// Appends the eight big-endian bytes of `x` to `out`.
fn push_be64(out: &mut Vec<u8>, x: u64)
    ensures
        final(out)@ == old(out)@ + be64_bytes(x),
{
    out.push((x / 0x100000000000000 % 256) as u8);
    out.push((x / 0x1000000000000 % 256) as u8);
    out.push((x / 0x10000000000 % 256) as u8);
    out.push((x / 0x100000000 % 256) as u8);
    out.push((x / 0x1000000 % 256) as u8);
    out.push((x / 0x10000 % 256) as u8);
    out.push((x / 0x100 % 256) as u8);
    out.push((x % 256) as u8);
    proof {
        assert(out@ =~= old(out)@ + be64_bytes(x));
    }
}

/// Reads eight big-endian bytes as a `u64`.
fn read_be64(data: &Vec<u8>, pos: usize) -> (r: u64)
    requires
        pos + 8 <= data@.len(),
    ensures
        r == be64_value(data@.skip(pos as int)),
{
    let n = data.len();
    (data[pos] as u64) * 0x100000000000000 + (data[pos + 1] as u64) * 0x1000000000000 + (data[pos
        + 2] as u64) * 0x10000000000 + (data[pos + 3] as u64) * 0x100000000 + (data[pos + 4]
        as u64) * 0x1000000 + (data[pos + 5] as u64) * 0x10000 + (data[pos + 6] as u64) * 0x100 + (
    data[pos + 7] as u64)
}

/// Reads a 16-byte UUID at `data[pos..]`.
pub fn read_uuid(data: &Vec<u8>, pos: usize) -> (r: Result<(Uuid, usize), ProtocolError>)
    requires
        pos <= data@.len(),
    ensures
        r is Ok <==> pos + 16 <= data@.len(),
        (r matches Ok((u, end)) ==> {
            &&& u.hi == be64_value(data@.skip(pos as int))
            &&& u.lo == be64_value(data@.skip(pos as int + 8))
            &&& end == pos + 16
        }),
        (r matches Err(e) ==> e == ProtocolError::BufferUnderflow),
{
    if data.len() - pos < 16 {
        return Err(ProtocolError::BufferUnderflow);
    }
    let hi = read_be64(data, pos);
    let lo = read_be64(data, pos + 8);
    Ok((Uuid { hi, lo }, pos + 16))
}

/// Appends the 16 wire bytes of `value` to `out`.
pub fn write_uuid(out: &mut Vec<u8>, value: &Uuid)
    ensures
        final(out)@ == old(out)@ + uuid_bytes(*value),
{
    push_be64(out, value.hi);
    push_be64(out, value.lo);
    proof {
        assert(out@ =~= old(out)@ + uuid_bytes(*value));
    }
}

/// Reading back a written UUID yields the value that was written.
pub proof fn lemma_uuid_round_trip(u: Uuid)
    ensures
        be64_value(uuid_bytes(u).skip(0)) == u.hi,
        be64_value(uuid_bytes(u).skip(8)) == u.lo,
{
    lemma_be64_round_trip(u.hi);
    lemma_be64_round_trip(u.lo);
    assert(uuid_bytes(u).skip(0) =~= be64_bytes(u.hi) + be64_bytes(u.lo));
    assert(be64_value(uuid_bytes(u).skip(0)) == be64_value(be64_bytes(u.hi)));
    assert(uuid_bytes(u).skip(8) =~= be64_bytes(u.lo));
}

// ---------------------------------------------------------------------------
// Hexadecimal text form.
// ---------------------------------------------------------------------------

/// The lowercase ASCII hexadecimal digit for `n` (meaningful for `n < 16`).
pub open spec fn hex_digit(n: u8) -> u8 {
    if n < 10 {
        (48 + n) as u8
    } else {
        (87 + n) as u8
    }
}

/// The two hexadecimal digits of one byte.
pub open spec fn hex_byte(b: u8) -> Seq<u8> {
    seq![hex_digit(b / 16), hex_digit(b % 16)]
}

/// The hexadecimal digits of a byte sequence.
pub open spec fn hex_bytes(s: Seq<u8>) -> Seq<u8>
    decreases s.len(),
{
    if s.len() == 0 {
        Seq::empty()
    } else {
        hex_byte(s[0]) + hex_bytes(s.drop_first())
    }
}

/// The 36-byte hyphenated lowercase hexadecimal text of a UUID.
pub open spec fn uuid_hyphenated(u: Uuid) -> Seq<u8> {
    let b = uuid_bytes(u);
    hex_bytes(b.subrange(0, 4)) + seq![45u8] + hex_bytes(b.subrange(4, 6)) + seq![45u8]
        + hex_bytes(b.subrange(6, 8)) + seq![45u8] + hex_bytes(b.subrange(8, 10)) + seq![45u8]
        + hex_bytes(b.subrange(10, 16))
}

/// Appends the hexadecimal digits of `data[from..to]` to `out`.
fn push_hex(out: &mut Vec<u8>, data: &Vec<u8>, from: usize, to: usize)
    requires
        from <= to <= data@.len(),
    ensures
        final(out)@ == old(out)@ + hex_bytes(data@.subrange(from as int, to as int)),
    decreases to - from,
{
    if from < to {
        let b = data[from];
        out.push(if b / 16 < 10 {
            48 + b / 16
        } else {
            87 + b / 16
        });
        out.push(if b % 16 < 10 {
            48 + b % 16
        } else {
            87 + b % 16
        });
        push_hex(out, data, from + 1, to);
        proof {
            let s = data@.subrange(from as int, to as int);
            assert(s.drop_first() =~= data@.subrange(from as int + 1, to as int));
            assert(out@ =~= old(out)@ + hex_bytes(s));
        }
    } else {
        proof {
            assert(data@.subrange(from as int, to as int) =~= Seq::<u8>::empty());
            assert(out@ =~= old(out)@ + hex_bytes(data@.subrange(from as int, to as int)));
        }
    }
}

impl Uuid {
    /// The hyphenated lowercase hexadecimal text, as ASCII bytes.
    pub fn hyphenated(&self) -> (r: Vec<u8>)
        ensures
            r@ == uuid_hyphenated(*self),
    {
        let bytes = self.to_bytes();
        let mut r: Vec<u8> = Vec::new();
        push_hex(&mut r, &bytes, 0, 4);
        r.push(45);
        push_hex(&mut r, &bytes, 4, 6);
        r.push(45);
        push_hex(&mut r, &bytes, 6, 8);
        r.push(45);
        push_hex(&mut r, &bytes, 8, 10);
        r.push(45);
        push_hex(&mut r, &bytes, 10, 16);
        proof {
            assert(r@ =~= uuid_hyphenated(*self));
        }
        r
    }
}

// ---------------------------------------------------------------------------
// Placeholder identity derivation.
// ---------------------------------------------------------------------------

/// The name-based identifier the outside library derives for a name built
/// from these two strings; a pure function of its arguments.
pub uninterp spec fn identity_of(prefix: Seq<char>, name: Seq<char>) -> (u64, u64);

/// The deterministic placeholder identity for a username: no external
/// authority is consulted, the identifier is a pure function of the name.
pub open spec fn offline_identity(name: Seq<char>) -> Uuid {
    Uuid {
        hi: identity_of_high("OnlinePlayer:"@, name),
        lo: identity_of_low("OnlinePlayer:"@, name),
    }
}

/// The high half of the derived identifier.
pub open spec fn identity_of_high(prefix: Seq<char>, name: Seq<char>) -> u64 {
    identity_of(prefix, name).0
}

/// The low half of the derived identifier.
pub open spec fn identity_of_low(prefix: Seq<char>, name: Seq<char>) -> u64 {
    identity_of(prefix, name).1
}

/// Relies on `uuid::Uuid::new_v5` over the DNS namespace, applied to the
/// concatenation of the two strings: the result is a pure function of its
/// arguments (a name-based SHA-1 identifier), returned as two big-endian
/// halves.
#[verifier::external_body]
fn name_based_uuid(prefix: &str, name: &str) -> (r: (u64, u64))
    ensures
        r == identity_of(prefix@, name@),
{
    let text = format!("{}{}", prefix, name);
    let id = uuid::Uuid::new_v5(&uuid::Uuid::NAMESPACE_DNS, text.as_bytes());
    let x = id.as_u128();
    ((x >> 64) as u64, x as u64)
}

/// Derives the placeholder "offline" identity for a username. The same
/// username always yields the same identifier.
pub fn derive_offline_uuid(username: &str) -> (r: Uuid)
    ensures
        r == offline_identity(username@),
{
    let (hi, lo) = name_based_uuid("OnlinePlayer:", username);
    Uuid { hi, lo }
}

} // verus!
