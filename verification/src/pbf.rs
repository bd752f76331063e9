//! A forward-only reader over the bytes of one tile or of one nested message.

use crate::wire::big_endian;
use crate::wire::key_field;
use crate::wire::pow128;
use crate::wire::spec_boolean;
use crate::wire::spec_chunk;
use crate::wire::spec_fixed32;
use crate::wire::spec_fixed64;
use crate::wire::spec_next;
use crate::wire::spec_skip_bytes;
use crate::wire::spec_skip_value;
use crate::wire::spec_string;
use crate::wire::spec_svarint32;
use crate::wire::spec_svarint64;
use crate::wire::spec_varint32;
use crate::wire::spec_varint64;
use crate::wire::varint_len;
use crate::wire::varint_len_from;
use crate::wire::varint_payload;
use crate::wire::zigzag;
use crate::wire::PbfError;
use crate::wire::MAX_VARINT_BYTES;
use crate::wire::WIRE_FIXED32;
use crate::wire::WIRE_FIXED64;
use crate::wire::WIRE_LENGTH_DELIMITED;
use crate::wire::WIRE_VARINT;
use vstd::prelude::*;
use vstd::utf8::decode_utf8;
use vstd::utf8::valid_utf8;

verus! {

/// What a cursor stands for: the bytes not yet read, and the last field key
/// that `next` read, whole and as a field number.
pub struct PbfView {
    pub bytes: Seq<u8>,
    pub value: u32,
    pub tag: u32,
}

impl PbfView {
    /// The same cursor with `bytes` left to read.
    pub open spec fn with_bytes(self, bytes: Seq<u8>) -> PbfView {
        PbfView { bytes, value: self.value, tag: self.tag }
    }
}

/// A byte buffer with a read position. Every read either succeeds and moves
/// the position past the value, or fails and leaves the cursor as it was.
pub struct Pbf {
    data: Vec<u8>,
    inx: usize,
    value: u32,
    tag: u32,
}

impl View for Pbf {
    type V = PbfView;

    closed spec fn view(&self) -> PbfView {
        PbfView {
            bytes: if self.inx <= self.data@.len() {
                self.data@.subrange(self.inx as int, self.data@.len() as int)
            } else {
                Seq::empty()
            },
            value: self.value,
            tag: self.tag,
        }
    }
}

/// What a read that gives a value of type `T` does to a cursor: on success
/// the value comes back and the cursor stands at the bytes left, on failure
/// the error comes back and the cursor has not moved.
pub open spec fn reads<T>(
    before: PbfView,
    after: PbfView,
    got: Result<T, PbfError>,
    outcome: Result<(T, Seq<u8>), PbfError>,
) -> bool {
    match outcome {
        Ok((v, rest)) => got == Ok::<T, PbfError>(v) && after == before.with_bytes(rest),
        Err(e) => got == Err::<T, PbfError>(e) && after == before,
    }
}

/// What a read that gives no value does to a cursor.
pub open spec fn steps(
    before: PbfView,
    after: PbfView,
    got: Result<(), PbfError>,
    outcome: Result<Seq<u8>, PbfError>,
) -> bool {
    match outcome {
        Ok(rest) => got == Ok::<(), PbfError>(()) && after == before.with_bytes(rest),
        Err(e) => got == Err::<(), PbfError>(e) && after == before,
    }
}

/// What decoding a whole message gives: the value or the reason for none, and
/// where the cursor then stands.
pub struct Parsed<T> {
    pub outcome: Result<T, PbfError>,
    pub cursor: PbfView,
}

/// What a decoder of a whole message owes: the error that `expected` names, or
/// a value whose view is the one that `expected` holds, and in both cases the
/// cursor where `expected` has it.
pub open spec fn parses<T: View>(
    expected: Parsed<T::V>,
    got: Result<T, PbfError>,
    after: PbfView,
) -> bool {
    &&& after == expected.cursor
    &&& match expected.outcome {
        Ok(v) => got is Ok && got->Ok_0@ == v,
        Err(e) => got is Err && got->Err_0 == e,
    }
}

/// `String::from_utf8` of the standard library: the text that `bytes` spell
/// in UTF-8, or `None` where they are not UTF-8.
#[verifier::external_body]
fn string_from_utf8(bytes: Vec<u8>) -> (r: Option<String>)
    ensures
        r is Some <==> valid_utf8(bytes@),
        r matches Some(s) ==> s@ == decode_utf8(bytes@),
{
    match String::from_utf8(bytes) {
        Ok(s) => Some(s),
        Err(_) => None,
    }
}

proof fn lemma_pow128_values()
    ensures
        pow128(0) == 1,
        pow128(1) == 0x80,
        pow128(2) == 0x4000,
        pow128(3) == 0x20_0000,
        pow128(4) == 0x1000_0000,
        pow128(5) == 0x8_0000_0000,
        pow128(6) == 0x400_0000_0000,
        pow128(7) == 0x2_0000_0000_0000,
        pow128(8) == 0x100_0000_0000_0000,
        pow128(9) == 0x8000_0000_0000_0000,
        pow128(10) == 0x40_0000_0000_0000_0000,
{
    reveal_with_fuel(pow128, 11);
}

/// The payload of the first `n` bytes stays below `128` to the `n`.
pub proof fn lemma_varint_payload_bound(s: Seq<u8>, n: nat)
    ensures
        varint_payload(s, n) < pow128(n),
    decreases n,
{
    if n > 0 {
        lemma_varint_payload_bound(s, (n - 1) as nat);
        let p = (s[n - 1] % 128) as nat;
        let m = pow128((n - 1) as nat);
        assert(p * m <= 127 * m) by (nonlinear_arith)
            requires
                p <= 127,
                m >= 0,
        ;
    }
}

impl Pbf {
    #[verifier::type_invariant]
    spec fn in_bounds(&self) -> bool {
        self.inx <= self.data.len()
    }

    /// The bytes left to read are never more than a buffer can hold.
    pub proof fn lemma_bytes_fit(&self)
        ensures
            self@.bytes.len() <= usize::MAX,
    {
        assert(self.data@.len() == self.data.len());
    }

    /// A cursor at the first byte of `data`.
    pub fn new(data: Vec<u8>) -> (p: Pbf)
        ensures
            p@ == (PbfView { bytes: data@, value: 0, tag: 0 }),
    {
        let p = Pbf { data, inx: 0, value: 0, tag: 0 };
        assert(p@.bytes =~= data@);
        p
    }

    /// The last field key that `next` read.
    pub fn value(&self) -> (v: u32)
        ensures
            v == self@.value,
    {
        self.value
    }

    /// The field number of the last field key that `next` read.
    pub fn tag(&self) -> (t: u32)
        ensures
            t == self@.tag,
    {
        self.tag
    }

    /// The count of bytes not yet read.
    pub fn remaining(&self) -> (n: usize)
        ensures
            n == self@.bytes.len(),
    {
        proof {
            use_type_invariant(self);
        }
        self.data.len() - self.inx
    }

    /// Whether any byte is left to read.
    pub fn has_next(&self) -> (b: bool)
        ensures
            b == (self@.bytes.len() > 0),
    {
        proof {
            use_type_invariant(self);
        }
        self.inx < self.data.len()
    }

    /// Steps over `bytes` bytes, or fails with `OutOfRange` where fewer remain.
    pub fn skip_bytes(&mut self, bytes: u32) -> (r: Result<(), PbfError>)
        ensures
            steps(old(self)@, final(self)@, r, spec_skip_bytes(old(self)@.bytes, bytes as nat)),
    {
        proof {
            use_type_invariant(&*self);
        }
        if bytes as usize > self.data.len() - self.inx {
            return Err(PbfError::OutOfRange);
        }
        self.inx = self.inx + bytes as usize;
        assert(self@.bytes =~= old(self)@.bytes.skip(bytes as int));
        Ok(())
    }

    /// Reads one byte as a truth value: zero is `false`, anything else `true`.
    pub fn boolean(&mut self) -> (r: Result<bool, PbfError>)
        ensures
            reads(old(self)@, final(self)@, r, spec_boolean(old(self)@.bytes)),
    {
        proof {
            use_type_invariant(&*self);
        }
        if self.inx >= self.data.len() {
            return Err(PbfError::OutOfRange);
        }
        let byte = self.data[self.inx];
        self.inx = self.inx + 1;
        assert(self@.bytes =~= old(self)@.bytes.skip(1));
        Ok(byte != 0)
    }

    /// Looks at the variable-length integer at the cursor without moving: its
    /// groups put together with no bit dropped, and the count of its bytes.
    fn peek_varint(&self) -> (r: Result<(u128, usize), PbfError>)
        ensures
            match varint_len(self@.bytes) {
                Some(n) => r == Ok::<(u128, usize), PbfError>(
                    (varint_payload(self@.bytes, n) as u128, n as usize),
                ) && varint_payload(self@.bytes, n) < pow128(10) && 1 <= n <= self@.bytes.len()
                    && n <= MAX_VARINT_BYTES,
                None => r == Err::<(u128, usize), PbfError>(PbfError::MalformedVarint),
            },
    {
        proof {
            use_type_invariant(self);
            lemma_pow128_values();
        }
        let left = self.data.len() - self.inx;
        let ghost bytes = self@.bytes;
        let mut i: usize = 0;
        let mut acc: u128 = 0;
        let mut mult: u128 = 1;
        while i < MAX_VARINT_BYTES && i < left
            invariant
                self.inx <= self.data.len(),
                left == self.data.len() - self.inx,
                bytes == self@.bytes,
                bytes.len() == left,
                i <= MAX_VARINT_BYTES,
                i <= left,
                acc == varint_payload(bytes, i as nat),
                mult == pow128(i as nat),
                acc < mult,
                varint_len(bytes) == varint_len_from(bytes, i as nat),
            decreases MAX_VARINT_BYTES - i,
        {
            let byte = self.data[self.inx + i];
            assert(byte == bytes[i as int]);
            proof {
                lemma_pow128_values();
                assert(pow128((i + 1) as nat) == 128 * pow128(i as nat));
                assert(mult <= 0x8000_0000_0000_0000);
                let p = (byte % 128) as nat;
                let m = mult as nat;
                assert(p * m <= 127 * m) by (nonlinear_arith)
                    requires
                        p <= 127,
                        m >= 0,
                ;
            }
            acc = acc + (byte % 128) as u128 * mult;
            mult = mult * 128;
            i = i + 1;
            if byte < 128 {
                proof {
                    lemma_varint_payload_bound(bytes, i as nat);
                }
                return Ok((acc, i));
            }
        }
        Err(PbfError::MalformedVarint)
    }

    /// Moves the cursor `n` bytes on.
    fn advance(&mut self, n: usize)
        requires
            n <= old(self)@.bytes.len(),
        ensures
            final(self)@ == old(self)@.with_bytes(old(self)@.bytes.skip(n as int)),
    {
        proof {
            use_type_invariant(&*self);
        }
        self.inx = self.inx + n;
        assert(self@.bytes =~= old(self)@.bytes.skip(n as int));
    }

    /// Reads a variable-length integer of up to ten bytes and keeps its low 32
    /// bits.
    pub fn varint32(&mut self) -> (r: Result<u32, PbfError>)
        ensures
            reads(old(self)@, final(self)@, r, spec_varint32(old(self)@.bytes)),
    {
        proof {
            lemma_pow128_values();
        }
        match self.peek_varint() {
            Ok((v, n)) => {
                self.advance(n);
                Ok((v % 0x1_0000_0000) as u32)
            },
            Err(e) => Err(e),
        }
    }

    /// Reads a variable-length integer of up to ten bytes and keeps its low 64
    /// bits.
    pub fn varint64(&mut self) -> (r: Result<u64, PbfError>)
        ensures
            reads(old(self)@, final(self)@, r, spec_varint64(old(self)@.bytes)),
    {
        proof {
            lemma_pow128_values();
        }
        match self.peek_varint() {
            Ok((v, n)) => {
                self.advance(n);
                Ok((v % 0x1_0000_0000_0000_0000) as u64)
            },
            Err(e) => Err(e),
        }
    }

    /// Reads a zigzag-coded signed integer of 32 bits.
    pub fn svarint32(&mut self) -> (r: Result<i32, PbfError>)
        ensures
            reads(old(self)@, final(self)@, r, spec_svarint32(old(self)@.bytes)),
    {
        match self.varint32() {
            Ok(n) => Ok(zigzag_decode32(n)),
            Err(e) => Err(e),
        }
    }

    /// Reads a zigzag-coded signed integer of 64 bits.
    pub fn svarint64(&mut self) -> (r: Result<i64, PbfError>)
        ensures
            reads(old(self)@, final(self)@, r, spec_svarint64(old(self)@.bytes)),
    {
        match self.varint64() {
            Ok(n) => Ok(zigzag_decode(n)),
            Err(e) => Err(e),
        }
    }

    /// Reads the next field key. `Ok(false)` says that no byte was left; after
    /// `Ok(true)` the key and its field number can be had from the cursor.
    pub fn next(&mut self) -> (r: Result<bool, PbfError>)
        ensures
            match spec_next(old(self)@.bytes) {
                Ok(Some((key, rest))) => r == Ok::<bool, PbfError>(true) && final(self)@ == (
                PbfView { bytes: rest, value: key, tag: key_field(key) }),
                Ok(None) => r == Ok::<bool, PbfError>(false) && final(self)@ == old(self)@,
                Err(e) => r == Err::<bool, PbfError>(e) && final(self)@ == old(self)@,
            },
    {
        if !self.has_next() {
            return Ok(false);
        }
        match self.varint32() {
            Ok(key) => {
                proof {
                    use_type_invariant(&*self);
                }
                self.value = key;
                self.tag = key / 8;
                Ok(true)
            },
            Err(e) => Err(e),
        }
    }

    /// Steps over the value of the field whose key `next` read last.
    pub fn skip(&mut self) -> (r: Result<(), PbfError>)
        ensures
            steps(
                old(self)@,
                final(self)@,
                r,
                spec_skip_value(old(self)@.bytes, old(self)@.value),
            ),
    {
        let key = self.value;
        self.skip_value(key)
    }

    /// Steps over the value of a field whose key is `val`: a variable-length
    /// integer, eight bytes, a length and that many bytes, or four bytes. Any
    /// other wire type fails with `UnknownWireType`.
    pub fn skip_value(&mut self, val: u32) -> (r: Result<(), PbfError>)
        ensures
            steps(old(self)@, final(self)@, r, spec_skip_value(old(self)@.bytes, val)),
    {
        let wire = val % 8;
        if wire == WIRE_VARINT {
            match self.varint64() {
                Ok(_) => Ok(()),
                Err(e) => Err(e),
            }
        } else if wire == WIRE_FIXED64 {
            self.skip_bytes(8)
        } else if wire == WIRE_LENGTH_DELIMITED {
            match self.peek_chunk() {
                Ok((_, n)) => {
                    self.advance(n);
                    Ok(())
                },
                Err(e) => Err(e),
            }
        } else if wire == WIRE_FIXED32 {
            self.skip_bytes(4)
        } else {
            Err(PbfError::UnknownWireType)
        }
    }

    /// Reads four bytes, most significant first, as the bit pattern of a
    /// 32-bit float.
    pub fn fixed32(&mut self) -> (r: Result<u32, PbfError>)
        ensures
            reads(old(self)@, final(self)@, r, spec_fixed32(old(self)@.bytes)),
    {
        proof {
            use_type_invariant(&*self);
            reveal_with_fuel(big_endian, 5);
        }
        if self.data.len() - self.inx < 4 {
            return Err(PbfError::OutOfRange);
        }
        let ghost bytes = self@.bytes;
        let at = self.inx;
        let b0 = self.data[at] as u32;
        let b1 = self.data[at + 1] as u32;
        let b2 = self.data[at + 2] as u32;
        let b3 = self.data[at + 3] as u32;
        assert(b0 == bytes[0] && b1 == bytes[1] && b2 == bytes[2] && b3 == bytes[3]);
        self.inx = at + 4;
        assert(self@.bytes =~= bytes.skip(4));
        Ok(((b0 * 256 + b1) * 256 + b2) * 256 + b3)
    }

    /// Reads eight bytes, most significant first, as the bit pattern of a
    /// 64-bit float.
    pub fn fixed64(&mut self) -> (r: Result<u64, PbfError>)
        ensures
            reads(old(self)@, final(self)@, r, spec_fixed64(old(self)@.bytes)),
    {
        proof {
            use_type_invariant(&*self);
            reveal_with_fuel(big_endian, 9);
        }
        if self.data.len() - self.inx < 8 {
            return Err(PbfError::OutOfRange);
        }
        let ghost bytes = self@.bytes;
        let at = self.inx;
        let b0 = self.data[at] as u64;
        let b1 = self.data[at + 1] as u64;
        let b2 = self.data[at + 2] as u64;
        let b3 = self.data[at + 3] as u64;
        let b4 = self.data[at + 4] as u64;
        let b5 = self.data[at + 5] as u64;
        let b6 = self.data[at + 6] as u64;
        let b7 = self.data[at + 7] as u64;
        assert(b0 == bytes[0] && b1 == bytes[1] && b2 == bytes[2] && b3 == bytes[3]);
        assert(b4 == bytes[4] && b5 == bytes[5] && b6 == bytes[6] && b7 == bytes[7]);
        self.inx = at + 8;
        assert(self@.bytes =~= bytes.skip(8));
        let hi = ((b0 * 256 + b1) * 256 + b2) * 256 + b3;
        let lo = ((b4 * 256 + b5) * 256 + b6) * 256 + b7;
        Ok(hi * 0x1_0000_0000 + lo)
    }

    /// Looks at the length-prefixed run of bytes at the cursor without
    /// moving: a copy of the run, and the count of bytes that prefix and run
    /// take together.
    fn peek_chunk(&self) -> (r: Result<(Vec<u8>, usize), PbfError>)
        ensures
            match spec_chunk(self@.bytes) {
                Ok((bytes, rest)) => r is Ok && r->Ok_0.0@ == bytes && r->Ok_0.1
                    <= self@.bytes.len() && rest == self@.bytes.skip(r->Ok_0.1 as int),
                Err(e) => r == Err::<(Vec<u8>, usize), PbfError>(e),
            },
    {
        proof {
            use_type_invariant(self);
            lemma_pow128_values();
        }
        let (len, prefix) = match self.peek_varint() {
            Ok((v, n)) => ((v % 0x1_0000_0000) as usize, n),
            Err(e) => {
                return Err(e);
            },
        };
        let from = self.inx + prefix;
        if len > self.data.len() - from {
            return Err(PbfError::OutOfRange);
        }
        let ghost rest = self@.bytes.skip(prefix as int);
        assert(rest =~= self.data@.subrange(from as int, self.data@.len() as int));
        let mut out: Vec<u8> = Vec::new();
        let mut i: usize = 0;
        while i < len
            invariant
                i <= len,
                from + len <= self.data.len(),
                rest == self.data@.subrange(from as int, self.data@.len() as int),
                out@ == rest.take(i as int),
            decreases len - i,
        {
            out.push(self.data[from + i]);
            i = i + 1;
            assert(out@ =~= rest.take(i as int));
        }
        assert(rest.skip(len as int) =~= self@.bytes.skip(prefix + len));
        Ok((out, prefix + len))
    }

    /// Reads a length and that many bytes as UTF-8 text. Bytes that are not
    /// UTF-8 fail with `InvalidEncoding`.
    pub fn string(&mut self) -> (r: Result<String, PbfError>)
        ensures
            match spec_string(old(self)@.bytes) {
                Ok((text, rest)) => r is Ok && r->Ok_0@ == text && final(self)@ == old(
                    self,
                )@.with_bytes(rest),
                Err(e) => r == Err::<String, PbfError>(e) && final(self)@ == old(self)@,
            },
    {
        let (bytes, n) = match self.peek_chunk() {
            Ok(found) => found,
            Err(e) => {
                return Err(e);
            },
        };
        match string_from_utf8(bytes) {
            Some(text) => {
                self.advance(n);
                Ok(text)
            },
            None => Err(PbfError::InvalidEncoding),
        }
    }

    /// Reads a length and hands out a cursor over exactly that many bytes.
    pub fn message(&mut self) -> (r: Result<Pbf, PbfError>)
        ensures
            match spec_chunk(old(self)@.bytes) {
                Ok((bytes, rest)) => r is Ok && r->Ok_0@ == (PbfView { bytes, value: 0, tag: 0 })
                    && final(self)@ == old(self)@.with_bytes(rest),
                Err(e) => r is Err && r->Err_0 == e && final(self)@ == old(self)@,
            },
    {
        match self.peek_chunk() {
            Ok((bytes, n)) => {
                self.advance(n);
                Ok(Pbf::new(bytes))
            },
            Err(e) => Err(e),
        }
    }
}

/// The signed number that the 64-bit zigzag code `n` stands for.
pub fn zigzag_decode(n: u64) -> (v: i64)
    ensures
        v == zigzag(n as int),
{
    if n % 2 == 0 {
        (n / 2) as i64
    } else {
        -((n / 2) as i64) - 1
    }
}

/// The signed number that the 32-bit zigzag code `n` stands for.
pub fn zigzag_decode32(n: u32) -> (v: i32)
    ensures
        v == zigzag(n as int),
{
    if n % 2 == 0 {
        (n / 2) as i32
    } else {
        -((n / 2) as i32) - 1
    }
}

} // verus!
