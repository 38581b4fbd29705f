use vstd::prelude::*;
use vstd::arithmetic::div_mod::lemma_fundamental_div_mod;
use vstd::arithmetic::power2::{pow2, lemma_pow2_adds, lemma_pow2_strictly_increases, lemma2_to64, lemma2_to64_rest};

use crate::error::ProtocolError;

verus! {

// ---------------------------------------------------------------------------
// Specification of the wire encoding: 7 payload bits per byte, least
// significant group first, high bit set on every byte but the last.
// ---------------------------------------------------------------------------

/// The byte sequence that encodes the unsigned value `n`.
pub open spec fn varint_enc(n: nat) -> Seq<u8>
    decreases n,
{
    if n < 128 {
        seq![n as u8]
    } else {
        seq![(n % 128 + 128) as u8] + varint_enc(n / 128)
    }
}

/// True when `s` begins with a complete encoding: some byte without the
/// continuation bit occurs before the sequence ends.
pub open spec fn varint_complete(s: Seq<u8>) -> bool
    decreases s.len(),
{
    s.len() > 0 && (s[0] < 128 || varint_complete(s.drop_first()))
}

/// The number of bytes of the encoding at the head of `s` (meaningful when
/// `varint_complete(s)` holds).
pub open spec fn varint_len(s: Seq<u8>) -> nat
    decreases s.len(),
{
    if s.len() == 0 {
        0
    } else if s[0] < 128 {
        1
    } else {
        1 + varint_len(s.drop_first())
    }
}

/// The unsigned value of the encoding at the head of `s`.
pub open spec fn varint_nat(s: Seq<u8>) -> nat
    decreases s.len(),
{
    if s.len() == 0 {
        0
    } else if s[0] < 128 {
        s[0] as nat
    } else {
        (s[0] - 128) as nat + 128 * varint_nat(s.drop_first())
    }
}

/// True when a complete 32-bit encoding (at most 5 bytes) heads `s`.
pub open spec fn varint32_at(s: Seq<u8>) -> bool {
    varint_complete(s) && varint_len(s) <= 5
}

/// True when a complete 64-bit encoding (at most 10 bytes) heads `s`.
pub open spec fn varint64_at(s: Seq<u8>) -> bool {
    varint_complete(s) && varint_len(s) <= 10
}

/// The signed 32-bit value read from the head of `s`: the low 32 bits of the
/// decoded groups, reinterpreted as two's complement.
pub open spec fn varint32_value(s: Seq<u8>) -> i32 {
    ((varint_nat(s) % 0x1_0000_0000) as u32) as i32
}

/// The signed 64-bit value read from the head of `s`.
pub open spec fn varint64_value(s: Seq<u8>) -> i64 {
    ((varint_nat(s) % 0x1_0000_0000_0000_0000) as u64) as i64
}

// ---------------------------------------------------------------------------
// Properties of the encoding.
// ---------------------------------------------------------------------------

/// An encoded value followed by anything decodes to that value, and the
/// decoder consumes exactly the encoding's bytes.
pub proof fn lemma_varint_enc_decodes(n: nat, rest: Seq<u8>)
    ensures
        varint_complete(varint_enc(n) + rest),
        varint_len(varint_enc(n) + rest) == varint_enc(n).len(),
        varint_nat(varint_enc(n) + rest) == n,
    decreases n,
{
    let s = varint_enc(n) + rest;
    if n < 128 {
        assert(s[0] == n as u8);
    } else {
        assert(s[0] == (n % 128 + 128) as u8);
        assert(s.drop_first() =~= varint_enc(n / 128) + rest);
        lemma_varint_enc_decodes(n / 128, rest);
        lemma_fundamental_div_mod(n as int, 128);
    }
}

/// A value below `2^(7k)` encodes in at most `k` bytes.
pub proof fn lemma_varint_enc_len(n: nat, k: nat)
    requires
        k >= 1,
        n < pow2(7 * k),
    ensures
        1 <= varint_enc(n).len() <= k,
    decreases k,
{
    if n < 128 {
    } else {
        assert(k >= 2) by {
            if k == 1 {
                lemma2_to64();
                assert(pow2(7) == 128);
            }
        }
        assert(pow2(7 * (k - 1) as nat) * 128 == pow2(7 * k)) by {
            lemma_pow2_adds(7 * (k - 1) as nat, 7);
            lemma2_to64();
        }
        assert(n / 128 < pow2(7 * (k - 1) as nat)) by (nonlinear_arith)
            requires
                n < pow2(7 * (k - 1) as nat) * 128,
        ;
        lemma_varint_enc_len(n / 128, (k - 1) as nat);
    }
}

/// A complete encoding of at most `k` bytes holds a value below `2^(7k)`.
pub proof fn lemma_varint_nat_bound(s: Seq<u8>, k: nat)
    requires
        varint_complete(s),
        varint_len(s) <= k,
    ensures
        varint_nat(s) < pow2(7 * k),
    decreases s.len(),
{
    assert(pow2(7 * (k - 1) as nat) * 128 == pow2(7 * k)) by {
        lemma_pow2_adds(7 * (k - 1) as nat, 7);
        lemma2_to64();
    }
    if s[0] < 128 {
        assert(varint_nat(s) < 128);
        assert(pow2(0) * 128 <= pow2(7 * (k - 1) as nat) * 128) by {
            if 0 < 7 * (k - 1) {
                lemma_pow2_strictly_increases(0, 7 * (k - 1) as nat);
            }
        }
        assert(pow2(0) == 1) by { lemma2_to64(); }
    } else {
        lemma_varint_nat_bound(s.drop_first(), (k - 1) as nat);
        assert(varint_nat(s) == (s[0] - 128) as nat + 128 * varint_nat(s.drop_first()));
        assert(128 * varint_nat(s.drop_first()) <= 128 * (pow2(7 * (k - 1) as nat) - 1))
            by (nonlinear_arith)
            requires
                varint_nat(s.drop_first()) <= pow2(7 * (k - 1) as nat) - 1,
        ;
    }
}

/// A complete encoding keeps the continuation bit on every byte but its
/// last, and fits inside the sequence.
pub proof fn lemma_varint_structure(s: Seq<u8>)
    requires
        varint_complete(s),
    ensures
        1 <= varint_len(s) <= s.len(),
        forall|j: int| 0 <= j < varint_len(s) - 1 ==> s[j] >= 128,
        s[varint_len(s) - 1] < 128,
    decreases s.len(),
{
    if s[0] < 128 {
    } else {
        lemma_varint_structure(s.drop_first());
        assert forall|j: int| 0 <= j < varint_len(s) - 1 implies s[j] >= 128 by {
            if j > 0 {
                assert(s.drop_first()[j - 1] >= 128);
            }
        }
        assert(s[varint_len(s) - 1] == s.drop_first()[varint_len(s.drop_first()) - 1]);
    }
}

/// A sequence of continuation bytes alone holds no complete encoding.
pub proof fn lemma_all_cont_incomplete(s: Seq<u8>)
    requires
        forall|j: int| 0 <= j < s.len() ==> s[j] >= 128,
    ensures
        !varint_complete(s),
    decreases s.len(),
{
    if s.len() == 0 {
    } else {
        assert forall|j: int| 0 <= j < s.drop_first().len() implies s.drop_first()[j] >= 128 by {
            assert(s.drop_first()[j] == s[j + 1]);
        }
        lemma_all_cont_incomplete(s.drop_first());
    }
}

/// Truncating a buffer after a complete encoding leaves the encoding intact.
pub proof fn lemma_varint_take(s: Seq<u8>, k: int)
    requires
        varint_complete(s),
        varint_len(s) <= k <= s.len(),
    ensures
        varint_complete(s.take(k)),
        varint_len(s.take(k)) == varint_len(s),
        varint_nat(s.take(k)) == varint_nat(s),
    decreases s.len(),
{
    let p = s.take(k);
    if s[0] < 128 {
        assert(p[0] == s[0]);
    } else {
        assert(p[0] == s[0]);
        assert(p.drop_first() =~= s.drop_first().take(k - 1));
        lemma_varint_take(s.drop_first(), k - 1);
    }
}

// ---------------------------------------------------------------------------
// Executable decoder and encoder.
// ---------------------------------------------------------------------------

/// Outcome of scanning one variable-width integer: the decoded groups and
/// their byte count, or the reason the scan stopped.
pub enum VarScan {
    /// A complete encoding of the given value, that many bytes long.
    Value(u128, usize),
    /// The input ended before a terminating byte appeared.
    Incomplete,
    /// No terminating byte appeared within the byte-width cap.
    TooLong,
}

/// Reads the variable-width integer at `data[pos..]`, allowing at most
/// `max_groups` bytes. Returns the exact (untruncated) decoded value.
fn scan_varint(data: &Vec<u8>, pos: usize, max_groups: usize) -> (r: VarScan)
    requires
        pos <= data@.len(),
        max_groups <= 10,
    ensures
        (r matches VarScan::Value(v, n) ==> {
            let s = data@.skip(pos as int);
            &&& varint_complete(s)
            &&& varint_len(s) <= max_groups
            &&& v == varint_nat(s)
            &&& n == varint_len(s)
            &&& 1 <= n <= max_groups
            &&& pos + n <= data@.len()
        }),
        (varint_complete(data@.skip(pos as int)) && varint_len(data@.skip(pos as int))
            <= max_groups ==> r matches VarScan::Value(v, n)),
        (r is Incomplete <==> data@.len() - pos < max_groups && !varint_complete(
            data@.skip(pos as int),
        )),
        (r is TooLong <==> data@.len() - pos >= max_groups && !(varint_complete(
            data@.skip(pos as int),
        ) && varint_len(data@.skip(pos as int)) <= max_groups)),
    decreases max_groups,
{
    let ghost s = data@.skip(pos as int);
    if max_groups == 0 {
        VarScan::TooLong
    } else if pos >= data.len() {
        VarScan::Incomplete
    } else {
        let b = data[pos];
        assert(b == s[0]);
        if b < 128 {
            VarScan::Value(b as u128, 1)
        } else {
            let inner = scan_varint(data, pos + 1, max_groups - 1);
            proof {
                assert(s.drop_first() =~= data@.skip(pos as int + 1));
            }
            match inner {
                VarScan::Value(v, n) => {
                    proof {
                        lemma_varint_nat_bound(data@.skip(pos as int + 1), (max_groups - 1) as nat);
                        assert(7 * (max_groups - 1) <= 63);
                        if 7 * (max_groups - 1) < 63 {
                            lemma_pow2_strictly_increases(7 * (max_groups - 1) as nat, 63);
                        }
                        lemma2_to64_rest();
                        assert(v < pow2(63));
                    }
                    VarScan::Value((b - 128) as u128 + 128 * v, n + 1)
                },
                VarScan::Incomplete => VarScan::Incomplete,
                VarScan::TooLong => VarScan::TooLong,
            }
        }
    }
}

/// Reads a VarInt (signed 32-bit, at most 5 bytes) at `data[pos..]`.
///
/// Succeeds exactly when a complete encoding of at most 5 bytes heads the
/// input; reports `BufferUnderflow` when the input ends first, and
/// `VarIntTooLong` when 5 bytes pass without a terminating byte.
pub fn read_varint(data: &Vec<u8>, pos: usize) -> (r: Result<(i32, usize), ProtocolError>)
    requires
        pos <= data@.len(),
    ensures
        r is Ok <==> varint32_at(data@.skip(pos as int)),
        (r matches Ok((v, end)) ==> {
            let s = data@.skip(pos as int);
            &&& v == varint32_value(s)
            &&& end == pos + varint_len(s)
            &&& end <= data@.len()
        }),
        (r == Result::<(i32, usize), ProtocolError>::Err(ProtocolError::BufferUnderflow) <==>
            data@.len() - pos < 5 && !varint_complete(data@.skip(pos as int))),
        (r == Result::<(i32, usize), ProtocolError>::Err(ProtocolError::VarIntTooLong) <==>
            data@.len() - pos >= 5 && !varint32_at(data@.skip(pos as int))),
        r is Err ==> r == Result::<(i32, usize), ProtocolError>::Err(
            ProtocolError::BufferUnderflow,
        ) || r == Result::<(i32, usize), ProtocolError>::Err(ProtocolError::VarIntTooLong),
{
    let len = data.len();
    match scan_varint(data, pos, 5) {
        VarScan::Value(v, n) => {
            let v32 = #[verifier::truncate] (v as u32);
            proof {
                assert(v as u32 == (v % 0x1_0000_0000) as u32) by (bit_vector);
                assert(v32 == varint_nat(data@.skip(pos as int)) % 0x1_0000_0000);
            }
            Ok((#[verifier::truncate] (v32 as i32), pos + n))
        },
        VarScan::Incomplete => Err(ProtocolError::BufferUnderflow),
        VarScan::TooLong => Err(ProtocolError::VarIntTooLong),
    }
}

/// Reads a VarLong (signed 64-bit, at most 10 bytes) at `data[pos..]`.
pub fn read_varlong(data: &Vec<u8>, pos: usize) -> (r: Result<(i64, usize), ProtocolError>)
    requires
        pos <= data@.len(),
    ensures
        r is Ok <==> varint64_at(data@.skip(pos as int)),
        (r matches Ok((v, end)) ==> {
            let s = data@.skip(pos as int);
            &&& v == varint64_value(s)
            &&& end == pos + varint_len(s)
            &&& end <= data@.len()
        }),
        (r == Result::<(i64, usize), ProtocolError>::Err(ProtocolError::BufferUnderflow) <==>
            data@.len() - pos < 10 && !varint_complete(data@.skip(pos as int))),
        (r == Result::<(i64, usize), ProtocolError>::Err(ProtocolError::VarIntTooLong) <==>
            data@.len() - pos >= 10 && !varint64_at(data@.skip(pos as int))),
        r is Err ==> r == Result::<(i64, usize), ProtocolError>::Err(
            ProtocolError::BufferUnderflow,
        ) || r == Result::<(i64, usize), ProtocolError>::Err(ProtocolError::VarIntTooLong),
{
    let len = data.len();
    match scan_varint(data, pos, 10) {
        VarScan::Value(v, n) => {
            let v64 = #[verifier::truncate] (v as u64);
            proof {
                assert(v as u64 == (v % 0x1_0000_0000_0000_0000) as u64) by (bit_vector);
                assert(v64 == varint_nat(data@.skip(pos as int)) % 0x1_0000_0000_0000_0000);
            }
            Ok((#[verifier::truncate] (v64 as i64), pos + n))
        },
        VarScan::Incomplete => Err(ProtocolError::BufferUnderflow),
        VarScan::TooLong => Err(ProtocolError::VarIntTooLong),
    }
}

/// Appends the encoding of `n` to `out`.
fn write_varnat(out: &mut Vec<u8>, n: u64)
    ensures
        final(out)@ == old(out)@ + varint_enc(n as nat),
    decreases n,
{
    if n < 128 {
        out.push(n as u8);
        assert(out@ =~= old(out)@ + varint_enc(n as nat));
    } else {
        out.push((n % 128 + 128) as u8);
        write_varnat(out, n / 128);
        assert(out@ =~= old(out)@ + varint_enc(n as nat));
    }
}

/// Appends the VarInt encoding of `value` (its 32-bit two's-complement bit
/// pattern, as an unsigned value) to `out`.
pub fn write_varint(out: &mut Vec<u8>, value: i32)
    ensures
        final(out)@ == old(out)@ + varint_enc((value as u32) as nat),
{
    let u = #[verifier::truncate] (value as u32);
    write_varnat(out, u as u64);
}

/// Appends the VarLong encoding of `value` to `out`.
pub fn write_varlong(out: &mut Vec<u8>, value: i64)
    ensures
        final(out)@ == old(out)@ + varint_enc((value as u64) as nat),
{
    let u = #[verifier::truncate] (value as u64);
    write_varnat(out, u);
}

/// The number of bytes the encoding of `n` occupies.
fn varnat_size(n: u64) -> (r: usize)
    ensures
        r == varint_enc(n as nat).len(),
        1 <= r <= 10,
    decreases n,
{
    proof {
        lemma2_to64();
        lemma2_to64_rest();
        assert(pow2(70) == pow2(64) * pow2(6)) by { lemma_pow2_adds(64, 6); }
        lemma_varint_enc_len(n as nat, 10);
    }
    if n < 128 {
        1
    } else {
        1 + varnat_size(n / 128)
    }
}

/// The number of bytes the VarInt encoding of `value` occupies, without
/// allocating: between 1 and 5.
pub fn varint_size(value: i32) -> (r: usize)
    ensures
        r == varint_enc((value as u32) as nat).len(),
        1 <= r <= 5,
{
    proof {
        lemma2_to64_rest();
        lemma_varint_enc_len((value as u32) as nat, 5);
    }
    let u = #[verifier::truncate] (value as u32);
    varnat_size(u as u64)
}

// ---------------------------------------------------------------------------
// Round-trip laws.
// ---------------------------------------------------------------------------

/// Decoding an encoded VarInt yields the value that was encoded, whatever
/// follows it in the buffer, and consumes exactly the encoding's bytes.
pub proof fn lemma_varint_round_trip(value: i32, rest: Seq<u8>)
    ensures
        ({
            let e = varint_enc((value as u32) as nat);
            let s = e + rest;
            &&& varint32_at(s)
            &&& varint_len(s) == e.len()
            &&& 1 <= e.len() <= 5
            &&& varint32_value(s) == value
        }),
{
    let e = varint_enc((value as u32) as nat);
    let s = e + rest;
    lemma_varint_enc_decodes((value as u32) as nat, rest);
    lemma2_to64_rest();
    lemma_varint_enc_len((value as u32) as nat, 5);
    assert(varint_nat(s) == (value as u32) as nat);
    assert(varint_nat(s) % 0x1_0000_0000 == varint_nat(s));
    assert(((value as u32) as i32) == value) by (bit_vector);
}

/// Decoding an encoded VarLong yields the value that was encoded.
pub proof fn lemma_varlong_round_trip(value: i64, rest: Seq<u8>)
    ensures
        ({
            let e = varint_enc((value as u64) as nat);
            let s = e + rest;
            &&& varint64_at(s)
            &&& varint_len(s) == e.len()
            &&& 1 <= e.len() <= 10
            &&& varint64_value(s) == value
        }),
{
    let e = varint_enc((value as u64) as nat);
    let s = e + rest;
    lemma_varint_enc_decodes((value as u64) as nat, rest);
    lemma2_to64_rest();
    assert(((value as u64) as nat) < pow2(70)) by {
        assert(pow2(64) < pow2(70)) by { lemma_pow2_strictly_increases(64, 70); }
        assert(pow2(64) == 0x1_0000_0000_0000_0000) by {
            lemma_pow2_adds(63, 1);
            lemma2_to64();
            lemma2_to64_rest();
        }
    }
    lemma_varint_enc_len((value as u64) as nat, 10);
    assert(varint_nat(s) == (value as u64) as nat);
    assert(varint_nat(s) % 0x1_0000_0000_0000_0000 == varint_nat(s));
    assert(((value as u64) as i64) == value) by (bit_vector);
}

} // verus!
