//! The writers that the readers of the wire format undo, and the proofs that
//! they do.

use crate::wire::big_endian;
use crate::wire::key_field;
use crate::wire::key_wire_type;
use crate::wire::pow128;
use crate::wire::spec_fixed32;
use crate::wire::spec_fixed64;
use crate::wire::spec_svarint32;
use crate::wire::spec_svarint64;
use crate::wire::spec_varint32;
use crate::wire::spec_varint64;
use crate::wire::varint_len;
use crate::wire::varint_len_from;
use crate::wire::varint_payload;
use crate::wire::zigzag;
use crate::wire::zigzag_code;
use crate::wire::PbfError;
use crate::wire::MAX_VARINT_BYTES;
use vstd::prelude::*;

verus! {

/// The bytes of `v` as a variable-length integer: seven bits to a byte, least
/// significant group first, the high bit set on every byte but the last.
pub open spec fn varint_bytes(v: nat) -> Seq<u8>
    decreases v,
{
    if v < 128 {
        seq![v as u8]
    } else {
        seq![(v % 128 + 128) as u8] + varint_bytes(v / 128)
    }
}

/// The four bytes of `v`, most significant first.
pub open spec fn fixed32_bytes(v: u32) -> Seq<u8> {
    seq![
        (v / 0x100_0000) as u8,
        (v / 0x1_0000 % 256) as u8,
        (v / 0x100 % 256) as u8,
        (v % 256) as u8,
    ]
}

/// The eight bytes of `v`, most significant first.
pub open spec fn fixed64_bytes(v: u64) -> Seq<u8> {
    seq![
        (v / 0x100_0000_0000_0000) as u8,
        (v / 0x1_0000_0000_0000 % 256) as u8,
        (v / 0x100_0000_0000 % 256) as u8,
        (v / 0x1_0000_0000 % 256) as u8,
        (v / 0x100_0000 % 256) as u8,
        (v / 0x1_0000 % 256) as u8,
        (v / 0x100 % 256) as u8,
        (v % 256) as u8,
    ]
}

/// Writes `v` as a variable-length integer.
pub fn encode_varint(v: u64) -> (out: Vec<u8>)
    ensures
        out@ == varint_bytes(v as nat),
{
    let mut out: Vec<u8> = Vec::new();
    let mut left = v;
    while left >= 128
        invariant
            varint_bytes(v as nat) == out@ + varint_bytes(left as nat),
        decreases left,
    {
        let ghost before = out@;
        out.push((left % 128 + 128) as u8);
        proof {
            let head = seq![(left % 128 + 128) as u8];
            let tail = varint_bytes((left / 128) as nat);
            assert(varint_bytes(left as nat) == head + tail);
            assert(before + (head + tail) =~= (before + head) + tail);
            assert(out@ =~= before + head);
        }
        left = left / 128;
    }
    let ghost before = out@;
    out.push(left as u8);
    assert(out@ =~= before + varint_bytes(left as nat));
    out
}

/// The zigzag code of `v`: `0, -1, 1, -2, ...` become `0, 1, 2, 3, ...`.
pub fn zigzag_encode(v: i64) -> (n: u64)
    ensures
        n == zigzag_code(v as int),
{
    if v >= 0 {
        2 * (v as u64)
    } else {
        2 * ((-(v + 1)) as u64) + 1
    }
}

/// The zigzag code of a 32-bit `v`.
pub fn zigzag_encode32(v: i32) -> (n: u32)
    ensures
        n == zigzag_code(v as int),
{
    if v >= 0 {
        2 * (v as u32)
    } else {
        2 * ((-(v + 1)) as u32) + 1
    }
}

/// Writes the bit pattern `v` as four bytes, most significant first.
pub fn encode_fixed32(v: u32) -> (out: Vec<u8>)
    ensures
        out@ == fixed32_bytes(v),
{
    let mut out: Vec<u8> = Vec::new();
    out.push((v / 0x100_0000) as u8);
    out.push((v / 0x1_0000 % 256) as u8);
    out.push((v / 0x100 % 256) as u8);
    out.push((v % 256) as u8);
    assert(out@ =~= fixed32_bytes(v));
    out
}

/// Writes the bit pattern `v` as eight bytes, most significant first.
pub fn encode_fixed64(v: u64) -> (out: Vec<u8>)
    ensures
        out@ == fixed64_bytes(v),
{
    let mut out: Vec<u8> = Vec::new();
    out.push((v / 0x100_0000_0000_0000) as u8);
    out.push((v / 0x1_0000_0000_0000 % 256) as u8);
    out.push((v / 0x100_0000_0000 % 256) as u8);
    out.push((v / 0x1_0000_0000 % 256) as u8);
    out.push((v / 0x100_0000 % 256) as u8);
    out.push((v / 0x1_0000 % 256) as u8);
    out.push((v / 0x100 % 256) as u8);
    out.push((v % 256) as u8);
    assert(out@ =~= fixed64_bytes(v));
    out
}

/// Putting a byte in front of `t` shifts the payload of `t` up by one group.
proof fn lemma_payload_shift(b: u8, t: Seq<u8>, k: nat)
    requires
        k <= t.len(),
    ensures
        varint_payload(seq![b] + t, k + 1) == (b % 128) as nat + 128 * varint_payload(t, k),
    decreases k,
{
    let s = seq![b] + t;
    assert(s[0] == b);
    if k == 0 {
        assert(varint_payload(s, 0) == 0);
        assert(varint_payload(t, 0) == 0);
        assert(pow128(0) == 1);
        assert(varint_payload(s, 1) == varint_payload(s, 0) + (s[0] % 128) as nat * pow128(0));
    } else {
        let j = (k - 1) as nat;
        lemma_payload_shift(b, t, j);
        assert(s[k as int] == t[j as int]);
        let x = (t[j as int] % 128) as nat;
        let m = pow128(j);
        assert(pow128(k) == 128 * m);
        assert(varint_payload(s, k + 1) == varint_payload(s, k) + x * pow128(k));
        assert(varint_payload(t, k) == varint_payload(t, j) + x * m);
        assert(x * (128 * m) == 128 * (x * m)) by (nonlinear_arith);
    }
}

/// The written form of `v` has a byte for each group of seven bits.
proof fn lemma_varint_bytes_shape(v: nat, k: nat)
    requires
        v < pow128(k),
        k >= 1,
    ensures
        1 <= varint_bytes(v).len() <= k,
        varint_bytes(v).last() < 128,
        forall|j: int| 0 <= j < varint_bytes(v).len() - 1 ==> varint_bytes(v)[j] >= 128,
    decreases v,
{
    reveal_with_fuel(pow128, 2);
    if v >= 128 {
        assert(k >= 2);
        let tail = varint_bytes(v / 128);
        lemma_varint_bytes_shape(v / 128, (k - 1) as nat);
        let whole = varint_bytes(v);
        assert(whole == seq![(v % 128 + 128) as u8] + tail);
        assert(whole.last() == tail.last());
        assert forall|j: int| 0 <= j < whole.len() - 1 implies whole[j] >= 128 by {
            if j > 0 {
                assert(whole[j] == tail[j - 1]);
            }
        }
    }
}

/// A variable-length integer ends at the first byte without the high bit.
proof fn lemma_varint_len_found(s: Seq<u8>, n: nat, i: nat)
    requires
        1 <= n <= MAX_VARINT_BYTES,
        n <= s.len(),
        i < n,
        s[n - 1] < 128,
        forall|j: int| 0 <= j < n - 1 ==> s[j] >= 128,
    ensures
        varint_len_from(s, i) == Some(n),
    decreases n - i,
{
    if i + 1 < n {
        lemma_varint_len_found(s, n, i + 1);
    }
}

/// The payload of the written form of `v` is `v`.
proof fn lemma_varint_bytes_payload(v: nat, rest: Seq<u8>)
    ensures
        varint_payload(varint_bytes(v) + rest, varint_bytes(v).len()) == v,
    decreases v,
{
    reveal_with_fuel(varint_payload, 2);
    reveal_with_fuel(pow128, 2);
    if v < 128 {
        assert((varint_bytes(v) + rest)[0] == v as u8);
    } else {
        let b = (v % 128 + 128) as u8;
        let tail = varint_bytes(v / 128);
        lemma_varint_bytes_payload(v / 128, rest);
        assert(varint_bytes(v) + rest =~= seq![b] + (tail + rest));
        lemma_payload_shift(b, tail + rest, tail.len());
    }
}

/// What reading the written form of `v` finds: all of its bytes, spelling `v`.
pub proof fn lemma_read_varint_bytes(v: nat, rest: Seq<u8>)
    requires
        v < pow128(10),
    ensures
        varint_len(varint_bytes(v) + rest) == Some(varint_bytes(v).len()),
        varint_payload(varint_bytes(v) + rest, varint_bytes(v).len()) == v,
        (varint_bytes(v) + rest).skip(varint_bytes(v).len() as int) == rest,
{
    let enc = varint_bytes(v);
    let s = enc + rest;
    lemma_varint_bytes_shape(v, 10);
    lemma_varint_bytes_payload(v, rest);
    assert forall|j: int| 0 <= j < enc.len() - 1 implies s[j] >= 128 by {
        assert(s[j] == enc[j]);
    }
    assert(s[enc.len() - 1] == enc.last());
    lemma_varint_len_found(s, enc.len(), 0);
    assert(s.skip(enc.len() as int) =~= rest);
}

/// Reading undoes writing: the written form of any 64-bit `v`, with any bytes
/// after it, reads back as `v` and leaves those bytes.
pub proof fn lemma_varint64_roundtrip(v: u64, rest: Seq<u8>)
    ensures
        spec_varint64(varint_bytes(v as nat) + rest) == Ok::<(u64, Seq<u8>), PbfError>((v, rest)),
{
    reveal_with_fuel(pow128, 11);
    lemma_read_varint_bytes(v as nat, rest);
}

/// Reading undoes writing for 32-bit values too.
pub proof fn lemma_varint32_roundtrip(v: u32, rest: Seq<u8>)
    ensures
        spec_varint32(varint_bytes(v as nat) + rest) == Ok::<(u32, Seq<u8>), PbfError>((v, rest)),
{
    reveal_with_fuel(pow128, 11);
    lemma_read_varint_bytes(v as nat, rest);
}

/// A 64-bit value read as a 32-bit one keeps its low 32 bits.
pub proof fn lemma_varint32_truncates(v: u64, rest: Seq<u8>)
    ensures
        spec_varint32(varint_bytes(v as nat) + rest) == Ok::<(u32, Seq<u8>), PbfError>(
            ((v % 0x1_0000_0000) as u32, rest),
        ),
{
    reveal_with_fuel(pow128, 11);
    lemma_read_varint_bytes(v as nat, rest);
}

/// Zigzag decoding undoes zigzag coding, codes are never negative, and the
/// codes of `0` and `-1` are `0` and `1`.
pub proof fn lemma_zigzag_roundtrip(v: int)
    ensures
        zigzag(zigzag_code(v)) == v,
        zigzag_code(v) >= 0,
        zigzag_code(0) == 0,
        zigzag_code(-1) == 1,
{
}

/// Zigzag coding undoes zigzag decoding.
pub proof fn lemma_zigzag_code_of_decoded(n: int)
    requires
        n >= 0,
    ensures
        zigzag_code(zigzag(n)) == n,
{
}

/// A field key in bit operations: the wire type is its low three bits, the
/// field number the bits above them.
pub proof fn lemma_key_in_bits(key: u32)
    ensures
        key_wire_type(key) == key & 7,
        key_field(key) == key >> 3,
{
    assert(key % 8 == key & 7) by (bit_vector);
    assert(key / 8 == key >> 3) by (bit_vector);
}

/// Zigzag decoding in bit operations: the code shifted right by one bit, with
/// every bit flipped where the lowest bit of the code was set, is the decoded
/// number in two's complement.
pub proof fn lemma_zigzag_in_bits(n: u64)
    ensures
        n & 1 == 0 ==> zigzag(n as int) == (n >> 1),
        n & 1 == 1 ==> zigzag(n as int) == ((n >> 1) ^ 0xffff_ffff_ffff_ffff)
            - 0x1_0000_0000_0000_0000,
{
    assert(n & 1 == 0 ==> n % 2 == 0 && (n >> 1) == n / 2) by (bit_vector);
    assert(n & 1 == 1 ==> n % 2 == 1 && ((n >> 1) ^ 0xffff_ffff_ffff_ffff)
        == 0xffff_ffff_ffff_ffff - n / 2) by (bit_vector);
}

/// A signed 32-bit value written as the variable-length integer of its zigzag
/// code reads back unchanged.
pub proof fn lemma_svarint32_roundtrip(v: i32, rest: Seq<u8>)
    ensures
        spec_svarint32(varint_bytes(zigzag_code(v as int) as nat) + rest) == Ok::<
            (i32, Seq<u8>),
            PbfError,
        >((v, rest)),
{
    lemma_varint32_roundtrip(zigzag_code(v as int) as u32, rest);
}

/// A signed 64-bit value written as the variable-length integer of its zigzag
/// code reads back unchanged.
pub proof fn lemma_svarint64_roundtrip(v: i64, rest: Seq<u8>)
    ensures
        spec_svarint64(varint_bytes(zigzag_code(v as int) as nat) + rest) == Ok::<
            (i64, Seq<u8>),
            PbfError,
        >((v, rest)),
{
    lemma_varint64_roundtrip(zigzag_code(v as int) as u64, rest);
}

/// Every 32-bit pattern, that of a NaN or of an infinity too, reads back from
/// its four bytes bit for bit.
pub proof fn lemma_fixed32_roundtrip(v: u32, rest: Seq<u8>)
    ensures
        spec_fixed32(fixed32_bytes(v) + rest) == Ok::<(u32, Seq<u8>), PbfError>((v, rest)),
{
    let s = fixed32_bytes(v) + rest;
    reveal_with_fuel(big_endian, 5);
    assert(s[0] == fixed32_bytes(v)[0]);
    assert(s[1] == fixed32_bytes(v)[1]);
    assert(s[2] == fixed32_bytes(v)[2]);
    assert(s[3] == fixed32_bytes(v)[3]);
    assert(s.skip(4) =~= rest);
}

/// Every 64-bit pattern reads back from its eight bytes bit for bit.
pub proof fn lemma_fixed64_roundtrip(v: u64, rest: Seq<u8>)
    ensures
        spec_fixed64(fixed64_bytes(v) + rest) == Ok::<(u64, Seq<u8>), PbfError>((v, rest)),
{
    let s = fixed64_bytes(v) + rest;
    reveal_with_fuel(big_endian, 9);
    assert(s[0] == fixed64_bytes(v)[0]);
    assert(s[1] == fixed64_bytes(v)[1]);
    assert(s[2] == fixed64_bytes(v)[2]);
    assert(s[3] == fixed64_bytes(v)[3]);
    assert(s[4] == fixed64_bytes(v)[4]);
    assert(s[5] == fixed64_bytes(v)[5]);
    assert(s[6] == fixed64_bytes(v)[6]);
    assert(s[7] == fixed64_bytes(v)[7]);
    assert(s.skip(8) =~= rest);
    assert(v == (((((((v / 0x100_0000_0000_0000) * 256 + v / 0x1_0000_0000_0000 % 256) * 256 + v
        / 0x100_0000_0000 % 256) * 256 + v / 0x1_0000_0000 % 256) * 256 + v / 0x100_0000 % 256)
        * 256 + v / 0x1_0000 % 256) * 256 + v / 0x100 % 256) * 256 + v % 256) by (bit_vector);
}

} // verus!
