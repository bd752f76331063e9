//! The typed value of a feature attribute.

use crate::pbf::parses;
use crate::pbf::Parsed;
use crate::pbf::Pbf;
use crate::pbf::PbfView;
use crate::wire::key_field;
use crate::wire::lemma_reads_consume;
use crate::wire::spec_boolean;
use crate::wire::spec_fixed32;
use crate::wire::spec_fixed64;
use crate::wire::spec_next;
use crate::wire::spec_skip_value;
use crate::wire::spec_string;
use crate::wire::spec_svarint64;
use crate::wire::spec_varint64;
use crate::wire::PbfError;
use vstd::prelude::*;

verus! {

/// One attribute value. A floating-point value is held as its bit pattern.
#[derive(Debug, Clone, PartialEq)]
pub enum VectorTileValue {
    NoValue,
    StringVal(String),
    Float32Val(u32),
    Float64Val(u64),
    Int64Val(i64),
    UInt64Val(u64),
    SInt64Val(i64),
    BoolVal(bool),
}

/// An attribute value as the contracts see it.
pub enum ValueView {
    NoValue,
    StringVal(Seq<char>),
    Float32Val(u32),
    Float64Val(u64),
    Int64Val(i64),
    UInt64Val(u64),
    SInt64Val(i64),
    BoolVal(bool),
}

impl View for VectorTileValue {
    type V = ValueView;

    open spec fn view(&self) -> ValueView {
        match self {
            VectorTileValue::NoValue => ValueView::NoValue,
            VectorTileValue::StringVal(s) => ValueView::StringVal(s@),
            VectorTileValue::Float32Val(bits) => ValueView::Float32Val(*bits),
            VectorTileValue::Float64Val(bits) => ValueView::Float64Val(*bits),
            VectorTileValue::Int64Val(v) => ValueView::Int64Val(*v),
            VectorTileValue::UInt64Val(v) => ValueView::UInt64Val(*v),
            VectorTileValue::SInt64Val(v) => ValueView::SInt64Val(*v),
            VectorTileValue::BoolVal(b) => ValueView::BoolVal(*b),
        }
    }
}

/// Field of a value message that holds text.
pub const VALUE_STRING: u32 = 1;

/// Field that holds the bits of a 32-bit float.
pub const VALUE_FLOAT: u32 = 2;

/// Field that holds the bits of a 64-bit float.
pub const VALUE_DOUBLE: u32 = 3;

/// Field that holds a signed integer. It is read as a zigzag code, as the
/// field `VALUE_SINT` is; the two differ in the kind of value they give.
pub const VALUE_INT: u32 = 4;

/// Field that holds an unsigned integer.
pub const VALUE_UINT: u32 = 5;

/// Field that holds a zigzag-coded signed integer.
pub const VALUE_SINT: u32 = 6;

/// Field that holds a truth value.
pub const VALUE_BOOL: u32 = 7;

/// Reads the value of the field whose number is `field` from `bytes`: the
/// value and the bytes left. `None` says that `field` is none of the seven
/// fields of a value message.
pub open spec fn spec_value_field(field: u32, bytes: Seq<u8>) -> Option<
    Result<(ValueView, Seq<u8>), PbfError>,
> {
    if field == VALUE_STRING {
        Some(
            match spec_string(bytes) {
                Ok((v, rest)) => Ok((ValueView::StringVal(v), rest)),
                Err(e) => Err(e),
            },
        )
    } else if field == VALUE_FLOAT {
        Some(
            match spec_fixed32(bytes) {
                Ok((v, rest)) => Ok((ValueView::Float32Val(v), rest)),
                Err(e) => Err(e),
            },
        )
    } else if field == VALUE_DOUBLE {
        Some(
            match spec_fixed64(bytes) {
                Ok((v, rest)) => Ok((ValueView::Float64Val(v), rest)),
                Err(e) => Err(e),
            },
        )
    } else if field == VALUE_INT {
        Some(
            match spec_svarint64(bytes) {
                Ok((v, rest)) => Ok((ValueView::Int64Val(v), rest)),
                Err(e) => Err(e),
            },
        )
    } else if field == VALUE_UINT {
        Some(
            match spec_varint64(bytes) {
                Ok((v, rest)) => Ok((ValueView::UInt64Val(v), rest)),
                Err(e) => Err(e),
            },
        )
    } else if field == VALUE_SINT {
        Some(
            match spec_svarint64(bytes) {
                Ok((v, rest)) => Ok((ValueView::SInt64Val(v), rest)),
                Err(e) => Err(e),
            },
        )
    } else if field == VALUE_BOOL {
        Some(
            match spec_boolean(bytes) {
                Ok((v, rest)) => Ok((ValueView::BoolVal(v), rest)),
                Err(e) => Err(e),
            },
        )
    } else {
        None
    }
}

/// Decodes what is left of a value message, `acc` being the value found so
/// far. Of several values in one message the last one stands; any other field
/// is stepped over.
pub open spec fn spec_value_run(c: PbfView, acc: ValueView) -> Parsed<ValueView>
    decreases c.bytes.len(),
{
    match spec_next(c.bytes) {
        Err(e) => Parsed { outcome: Err(e), cursor: c },
        Ok(None) => Parsed { outcome: Ok(acc), cursor: c },
        Ok(Some((key, rest))) => {
            let at = PbfView { bytes: rest, value: key, tag: key_field(key) };
            proof {
                lemma_reads_consume(c.bytes);
                lemma_reads_consume(rest);
            }
            match spec_value_field(at.tag, rest) {
                Some(Ok((v, rest2))) => spec_value_run(at.with_bytes(rest2), v),
                Some(Err(e)) => Parsed { outcome: Err(e), cursor: at },
                None => match spec_skip_value(rest, key) {
                    Ok(rest2) => spec_value_run(at.with_bytes(rest2), acc),
                    Err(e) => Parsed { outcome: Err(e), cursor: at },
                },
            }
        },
    }
}

/// The value that the message `bytes` holds.
pub open spec fn spec_value(bytes: Seq<u8>) -> Result<ValueView, PbfError> {
    spec_value_run(PbfView { bytes, value: 0, tag: 0 }, ValueView::NoValue).outcome
}

impl VectorTileValue {
    /// Reads the value of the field that `data` stands at, where it is one of
    /// the seven fields of a value message.
    fn parse_field(data: &mut Pbf) -> (r: Option<Result<VectorTileValue, PbfError>>)
        ensures
            match spec_value_field(old(data)@.tag, old(data)@.bytes) {
                Some(Ok((v, rest))) => r is Some && r->Some_0 is Ok && r->Some_0->Ok_0@ == v
                    && final(data)@ == old(data)@.with_bytes(rest),
                Some(Err(e)) => r == Some(Err::<VectorTileValue, PbfError>(e)) && final(data)@
                    == old(data)@,
                None => r is None && final(data)@ == old(data)@,
            },
    {
        let field = data.tag();
        if field == VALUE_STRING {
            Some(
                match data.string() {
                    Ok(v) => Ok(VectorTileValue::StringVal(v)),
                    Err(e) => Err(e),
                },
            )
        } else if field == VALUE_FLOAT {
            Some(
                match data.fixed32() {
                    Ok(v) => Ok(VectorTileValue::Float32Val(v)),
                    Err(e) => Err(e),
                },
            )
        } else if field == VALUE_DOUBLE {
            Some(
                match data.fixed64() {
                    Ok(v) => Ok(VectorTileValue::Float64Val(v)),
                    Err(e) => Err(e),
                },
            )
        } else if field == VALUE_INT {
            Some(
                match data.svarint64() {
                    Ok(v) => Ok(VectorTileValue::Int64Val(v)),
                    Err(e) => Err(e),
                },
            )
        } else if field == VALUE_UINT {
            Some(
                match data.varint64() {
                    Ok(v) => Ok(VectorTileValue::UInt64Val(v)),
                    Err(e) => Err(e),
                },
            )
        } else if field == VALUE_SINT {
            Some(
                match data.svarint64() {
                    Ok(v) => Ok(VectorTileValue::SInt64Val(v)),
                    Err(e) => Err(e),
                },
            )
        } else if field == VALUE_BOOL {
            Some(
                match data.boolean() {
                    Ok(v) => Ok(VectorTileValue::BoolVal(v)),
                    Err(e) => Err(e),
                },
            )
        } else {
            None
        }
    }

    /// Decodes a value message. A message without a value gives `NoValue`; of
    /// several values the last one stands.
    pub fn parse(data: &mut Pbf) -> (r: Result<VectorTileValue, PbfError>)
        ensures
            parses(spec_value_run(old(data)@, ValueView::NoValue), r, final(data)@),
    {
        let mut val = VectorTileValue::NoValue;
        loop
            invariant
                spec_value_run(old(data)@, ValueView::NoValue) == spec_value_run(data@, val@),
            decreases data@.bytes.len(),
        {
            proof {
                lemma_reads_consume(data@.bytes);
            }
            match data.next() {
                Ok(true) => {},
                Ok(false) => {
                    return Ok(val);
                },
                Err(e) => {
                    return Err(e);
                },
            }
            proof {
                lemma_reads_consume(data@.bytes);
            }
            match VectorTileValue::parse_field(data) {
                Some(Ok(v)) => {
                    val = v;
                },
                Some(Err(e)) => {
                    return Err(e);
                },
                None => match data.skip() {
                    Ok(()) => {},
                    Err(e) => {
                        return Err(e);
                    },
                },
            }
        }
    }
}

} // verus!
