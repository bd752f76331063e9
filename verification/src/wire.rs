//! The wire format of tile bytes, stated on byte sequences.
//!
//! Every reader here takes the bytes that are still unread and gives either the
//! value read together with the bytes left after it, or the reason why no value
//! can be read. The byte cursor is proved against these functions, and the tile
//! decoder is stated in terms of them.

use vstd::prelude::*;

verus! {

/// Why a value could not be decoded.
#[derive(PartialEq, Eq, Structural, Clone, Copy, Debug)]
pub enum PbfError {
    /// Fewer bytes remain than the value needs.
    OutOfRange,
    /// A variable-length integer does not end within ten bytes, or the buffer
    /// ends before it does.
    MalformedVarint,
    /// The bytes of a string are not UTF-8.
    InvalidEncoding,
    /// A field key names a wire type other than 0, 1, 2 and 5.
    UnknownWireType,
    /// A feature's tag list holds a key index without a value index.
    OddTagCount,
    /// A geometry stream holds a command other than 1, 2 and 7.
    UnknownGeometryCommand,
}

/// The most bytes a variable-length integer may take.
pub const MAX_VARINT_BYTES: usize = 10;

/// Wire type of a variable-length integer.
pub const WIRE_VARINT: u32 = 0;

/// Wire type of an eight-byte value.
pub const WIRE_FIXED64: u32 = 1;

/// Wire type of a length-prefixed run of bytes.
pub const WIRE_LENGTH_DELIMITED: u32 = 2;

/// Wire type of a four-byte value.
pub const WIRE_FIXED32: u32 = 5;

/// `128` to the power `n`.
pub open spec fn pow128(n: nat) -> nat
    decreases n,
{
    if n == 0 {
        1
    } else {
        128 * pow128((n - 1) as nat)
    }
}

/// The number spelled by the low seven bits of each of the first `n` bytes of
/// `s`, least significant group first.
pub open spec fn varint_payload(s: Seq<u8>, n: nat) -> nat
    decreases n,
{
    if n == 0 {
        0
    } else {
        varint_payload(s, (n - 1) as nat) + (s[n - 1] % 128) as nat * pow128((n - 1) as nat)
    }
}

/// Looks for the end of a variable-length integer whose bytes before index `i`
/// all carry the continuation bit: the count of its bytes, if it ends within
/// `s` and within ten bytes.
pub open spec fn varint_len_from(s: Seq<u8>, i: nat) -> Option<nat>
    decreases MAX_VARINT_BYTES - i,
{
    if i >= MAX_VARINT_BYTES || i >= s.len() {
        None
    } else if s[i as int] < 128 {
        Some(i + 1)
    } else {
        varint_len_from(s, i + 1)
    }
}

/// The count of bytes of the variable-length integer at the head of `s`.
pub open spec fn varint_len(s: Seq<u8>) -> Option<nat> {
    varint_len_from(s, 0)
}

/// A variable-length integer of up to 64 bits; bits beyond the 64th are dropped.
pub open spec fn spec_varint64(s: Seq<u8>) -> Result<(u64, Seq<u8>), PbfError> {
    match varint_len(s) {
        Some(n) => Ok(
            ((varint_payload(s, n) % 0x1_0000_0000_0000_0000) as u64, s.skip(n as int)),
        ),
        None => Err(PbfError::MalformedVarint),
    }
}

/// A variable-length integer cut down to its low 32 bits.
pub open spec fn spec_varint32(s: Seq<u8>) -> Result<(u32, Seq<u8>), PbfError> {
    match varint_len(s) {
        Some(n) => Ok(((varint_payload(s, n) % 0x1_0000_0000) as u32, s.skip(n as int))),
        None => Err(PbfError::MalformedVarint),
    }
}

/// The signed number that the zigzag code `n` stands for: even codes are the
/// non-negative numbers, odd codes the negative ones.
pub open spec fn zigzag(n: int) -> int {
    if n % 2 == 0 {
        n / 2
    } else {
        -(n / 2) - 1
    }
}

/// The zigzag code of the signed number `v`.
pub open spec fn zigzag_code(v: int) -> int {
    if v >= 0 {
        2 * v
    } else {
        -2 * v - 1
    }
}

/// A zigzag-coded signed integer of 32 bits.
pub open spec fn spec_svarint32(s: Seq<u8>) -> Result<(i32, Seq<u8>), PbfError> {
    match spec_varint32(s) {
        Ok((n, rest)) => Ok((zigzag(n as int) as i32, rest)),
        Err(e) => Err(e),
    }
}

/// A zigzag-coded signed integer of 64 bits.
pub open spec fn spec_svarint64(s: Seq<u8>) -> Result<(i64, Seq<u8>), PbfError> {
    match spec_varint64(s) {
        Ok((n, rest)) => Ok((zigzag(n as int) as i64, rest)),
        Err(e) => Err(e),
    }
}

/// The number spelled by the first `n` bytes of `s`, most significant byte first.
pub open spec fn big_endian(s: Seq<u8>, n: nat) -> nat
    decreases n,
{
    if n == 0 {
        0
    } else {
        256 * big_endian(s, (n - 1) as nat) + s[n - 1] as nat
    }
}

/// Four bytes, most significant first: the bit pattern of a 32-bit float.
pub open spec fn spec_fixed32(s: Seq<u8>) -> Result<(u32, Seq<u8>), PbfError> {
    if s.len() < 4 {
        Err(PbfError::OutOfRange)
    } else {
        Ok((big_endian(s, 4) as u32, s.skip(4)))
    }
}

/// Eight bytes, most significant first: the bit pattern of a 64-bit float.
pub open spec fn spec_fixed64(s: Seq<u8>) -> Result<(u64, Seq<u8>), PbfError> {
    if s.len() < 8 {
        Err(PbfError::OutOfRange)
    } else {
        Ok((big_endian(s, 8) as u64, s.skip(8)))
    }
}

/// One byte; any value but zero is `true`.
pub open spec fn spec_boolean(s: Seq<u8>) -> Result<(bool, Seq<u8>), PbfError> {
    if s.len() < 1 {
        Err(PbfError::OutOfRange)
    } else {
        Ok((s[0] != 0, s.skip(1)))
    }
}

/// Steps over `n` bytes.
pub open spec fn spec_skip_bytes(s: Seq<u8>, n: nat) -> Result<Seq<u8>, PbfError> {
    if n > s.len() {
        Err(PbfError::OutOfRange)
    } else {
        Ok(s.skip(n as int))
    }
}

/// A 32-bit length and then that many bytes.
pub open spec fn spec_chunk(s: Seq<u8>) -> Result<(Seq<u8>, Seq<u8>), PbfError> {
    match spec_varint32(s) {
        Ok((n, rest)) => if n > rest.len() {
            Err(PbfError::OutOfRange)
        } else {
            Ok((rest.take(n as int), rest.skip(n as int)))
        },
        Err(e) => Err(e),
    }
}

/// A length-prefixed run of bytes read as UTF-8 text.
pub open spec fn spec_string(s: Seq<u8>) -> Result<(Seq<char>, Seq<u8>), PbfError> {
    match spec_chunk(s) {
        Ok((bytes, rest)) => if vstd::utf8::valid_utf8(bytes) {
            Ok((vstd::utf8::decode_utf8(bytes), rest))
        } else {
            Err(PbfError::InvalidEncoding)
        },
        Err(e) => Err(e),
    }
}

/// The field number that a field key carries: all but its low three bits.
pub open spec fn key_field(key: u32) -> u32 {
    key / 8
}

/// The wire type that a field key carries: its low three bits.
pub open spec fn key_wire_type(key: u32) -> u32 {
    key % 8
}

/// Steps over the value of a field whose key is `key`, as its wire type says.
pub open spec fn spec_skip_value(s: Seq<u8>, key: u32) -> Result<Seq<u8>, PbfError> {
    let wire = key_wire_type(key);
    if wire == WIRE_VARINT {
        match spec_varint64(s) {
            Ok((_, rest)) => Ok(rest),
            Err(e) => Err(e),
        }
    } else if wire == WIRE_FIXED64 {
        spec_skip_bytes(s, 8)
    } else if wire == WIRE_LENGTH_DELIMITED {
        match spec_chunk(s) {
            Ok((_, rest)) => Ok(rest),
            Err(e) => Err(e),
        }
    } else if wire == WIRE_FIXED32 {
        spec_skip_bytes(s, 4)
    } else {
        Err(PbfError::UnknownWireType)
    }
}

/// The next field key, or `None` where no byte is left.
pub open spec fn spec_next(s: Seq<u8>) -> Result<Option<(u32, Seq<u8>)>, PbfError> {
    if s.len() == 0 {
        Ok(None)
    } else {
        match spec_varint32(s) {
            Ok((key, rest)) => Ok(Some((key, rest))),
            Err(e) => Err(e),
        }
    }
}

} // verus!

verus! {

/// A variable-length integer that ends does so within the bytes at hand and
/// within ten bytes, and takes at least one.
pub proof fn lemma_varint_len_in_range(s: Seq<u8>, i: nat)
    ensures
        varint_len_from(s, i) matches Some(n) ==> i < n && n <= s.len() && n <= MAX_VARINT_BYTES,
    decreases MAX_VARINT_BYTES - i,
{
    if i < MAX_VARINT_BYTES && i < s.len() && s[i as int] >= 128 {
        lemma_varint_len_in_range(s, i + 1);
    }
}

/// Every read that succeeds leaves fewer bytes than it found, but for a skip,
/// which may leave as many.
pub proof fn lemma_reads_consume(s: Seq<u8>)
    ensures
        spec_varint64(s) matches Ok((_, rest)) ==> rest.len() < s.len(),
        spec_varint32(s) matches Ok((_, rest)) ==> rest.len() < s.len(),
        spec_svarint64(s) matches Ok((_, rest)) ==> rest.len() < s.len(),
        spec_svarint32(s) matches Ok((_, rest)) ==> rest.len() < s.len(),
        spec_fixed64(s) matches Ok((_, rest)) ==> rest.len() < s.len(),
        spec_fixed32(s) matches Ok((_, rest)) ==> rest.len() < s.len(),
        spec_boolean(s) matches Ok((_, rest)) ==> rest.len() < s.len(),
        spec_chunk(s) matches Ok((bytes, rest)) ==> bytes.len() + rest.len() < s.len(),
        spec_string(s) matches Ok((_, rest)) ==> rest.len() < s.len(),
        spec_next(s) matches Ok(Some((_, rest))) ==> rest.len() < s.len(),
        forall|key: u32| (#[trigger] spec_skip_value(s, key)) matches Ok(rest) ==> rest.len() <= s.len(),
{
    lemma_varint_len_in_range(s, 0);
}

} // verus!
