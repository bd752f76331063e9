//! Command streams written out, and what decoding them gives.

use crate::encode::lemma_svarint32_roundtrip;
use crate::encode::lemma_varint32_roundtrip;
use crate::encode::varint_bytes;
use crate::pbf::PbfView;
use crate::tile_geometry::known_command;
use crate::tile_geometry::spec_geometry;
use crate::tile_geometry::spec_geometry_command;
use crate::tile_geometry::spec_geometry_header;
use crate::tile_geometry::spec_geometry_run;
use crate::tile_geometry::GeometryState;
use crate::tile_geometry::Ring;
use crate::tile_geometry::CMD_CLOSE_PATH;
use crate::tile_geometry::CMD_LINE_TO;
use crate::tile_geometry::CMD_MOVE_TO;
use crate::wire::zigzag_code;
use crate::wire::PbfError;
use vstd::prelude::*;

verus! {

/// The most times that one header can make a command run.
pub const MAX_REPEAT: u32 = 0x1fff_ffff;

/// The bytes of the header of the command `cmd` run `count` times: the count
/// above the three bits of the command.
pub open spec fn header_bytes(cmd: u32, count: u32) -> Seq<u8> {
    varint_bytes((count * 8 + cmd) as nat)
}

/// The bytes of one offset: its zigzag code as a variable-length integer.
pub open spec fn offset_bytes(d: i32) -> Seq<u8> {
    varint_bytes(zigzag_code(d as int) as nat)
}

/// The bytes of a point given by its offsets `d` from the point before.
pub open spec fn point_bytes(d: (i32, i32), rest: Seq<u8>) -> Seq<u8> {
    offset_bytes(d.0) + (offset_bytes(d.1) + rest)
}

/// The stream that draws one closed ring through three points: `MoveTo` to
/// the first, `LineTo` to the second and the third, `ClosePath`.
pub open spec fn closed_ring_stream(d0: (i32, i32), d1: (i32, i32), d2: (i32, i32)) -> Seq<u8> {
    header_bytes(CMD_MOVE_TO, 1) + point_bytes(
        d0,
        header_bytes(CMD_LINE_TO, 2) + point_bytes(
            d1,
            point_bytes(d2, header_bytes(CMD_CLOSE_PATH, 1)),
        ),
    )
}

/// Reading a header written by `header_bytes` gives its command and count.
pub proof fn lemma_read_header(c: PbfView, st: GeometryState, cmd: u32, count: u32, rest: Seq<u8>)
    requires
        known_command(cmd),
        count <= MAX_REPEAT,
        st.count == 0,
        c.bytes == header_bytes(cmd, count) + rest,
    ensures
        spec_geometry_header(c, st) == Ok::<(PbfView, GeometryState), (PbfError, PbfView)>(
            (c.with_bytes(rest), GeometryState { cmd, count, ..st }),
        ),
{
    lemma_varint32_roundtrip((count * 8 + cmd) as u32, rest);
}

/// Running `MoveTo` or `LineTo` on a point written by `point_bytes` moves by
/// its offsets.
pub proof fn lemma_read_point(c: PbfView, st: GeometryState, d: (i32, i32), rest: Seq<u8>)
    requires
        st.cmd != CMD_CLOSE_PATH,
        c.bytes == point_bytes(d, rest),
    ensures
        spec_geometry_command(c, st) == Ok::<(PbfView, GeometryState), (PbfError, PbfView)>(
            (c.with_bytes(rest), st.with_point(d.0 as int, d.1 as int)),
        ),
{
    lemma_svarint32_roundtrip(d.0, offset_bytes(d.1) + rest);
    lemma_svarint32_roundtrip(d.1, rest);
}

/// A stream of `MoveTo` once, `LineTo` twice and `ClosePath` once decodes to
/// exactly one ring of four points: the three points that the offsets lead
/// to, each from the one before and the first from the origin, and the first
/// point once more.
pub proof fn lemma_closed_ring_decodes(d0: (i32, i32), d1: (i32, i32), d2: (i32, i32))
    ensures
        spec_geometry(closed_ring_stream(d0, d1, d2)) == Ok::<Seq<Ring>, PbfError>(
            seq![
                seq![
                    (d0.0 as int, d0.1 as int),
                    (d0.0 + d1.0, d0.1 + d1.1),
                    (d0.0 + d1.0 + d2.0, d0.1 + d1.1 + d2.1),
                    (d0.0 as int, d0.1 as int),
                ],
            ],
        ),
{
    let pa = (d0.0 as int, d0.1 as int);
    let pb = (d0.0 + d1.0, d0.1 + d1.1);
    let pc = (d0.0 + d1.0 + d2.0, d0.1 + d1.1 + d2.1);
    let close = header_bytes(CMD_CLOSE_PATH, 1);
    let third = point_bytes(d2, close);
    let second = point_bytes(d1, third);
    let lines = header_bytes(CMD_LINE_TO, 2) + second;
    let first = point_bytes(d0, lines);
    let c0 = PbfView { bytes: closed_ring_stream(d0, d1, d2), value: 0, tag: 0 };
    let st0 = GeometryState::start();

    // MoveTo to the first point.
    let c1 = c0.with_bytes(first);
    let st1 = GeometryState { cmd: CMD_MOVE_TO, count: 1, ..st0 };
    lemma_read_header(c0, st0, CMD_MOVE_TO, 1, first);
    let c2 = c0.with_bytes(lines);
    let st2 = st1.with_point(d0.0 as int, d0.1 as int);
    lemma_read_point(c1, st1, d0, lines);
    lemma_nonempty(c0.bytes, varint_bytes(9), first);
    assert(spec_geometry_run(c0, st0) == spec_geometry_run(c2, st2));
    assert(st2.current =~= seq![pa]);

    // LineTo to the second point.
    let c3 = c0.with_bytes(second);
    let st3 = GeometryState { cmd: CMD_LINE_TO, count: 2, ..st2 };
    lemma_read_header(c2, st2, CMD_LINE_TO, 2, second);
    let c4 = c0.with_bytes(third);
    let st4 = st3.with_point(d1.0 as int, d1.1 as int);
    lemma_read_point(c3, st3, d1, third);
    lemma_nonempty(c2.bytes, varint_bytes(18), second);
    assert(spec_geometry_run(c2, st2) == spec_geometry_run(c4, st4));
    assert(st4.current =~= seq![pa, pb]);

    // LineTo to the third point.
    let c5 = c0.with_bytes(close);
    let st5 = st4.with_point(d2.0 as int, d2.1 as int);
    lemma_read_point(c4, st4, d2, close);
    lemma_nonempty(c4.bytes, offset_bytes(d2.0), offset_bytes(d2.1) + close);
    assert(spec_geometry_header(c4, st4) == Ok::<
        (PbfView, GeometryState),
        (PbfError, PbfView),
    >((c4, st4)));
    assert(spec_geometry_run(c4, st4) == spec_geometry_run(c5, st5));
    assert(st5.current =~= seq![pa, pb, pc]);

    // ClosePath.
    let c6 = c0.with_bytes(Seq::<u8>::empty());
    let st6 = GeometryState { cmd: CMD_CLOSE_PATH, count: 1, ..st5 };
    assert(close + Seq::<u8>::empty() =~= close);
    lemma_read_header(c5, st5, CMD_CLOSE_PATH, 1, Seq::<u8>::empty());
    let st7 = st6.closed();
    lemma_nonempty(c5.bytes, close, Seq::<u8>::empty());
    assert(spec_geometry_run(c5, st5) == spec_geometry_run(c6, st7));
    assert(st5.current.push(st5.current[0]) =~= seq![pa, pb, pc, pa]);
    assert(st7.rings =~= seq![seq![pa, pb, pc, pa]]);
}

/// A written integer is at least one byte, and so is what begins with one.
proof fn lemma_nonempty(whole: Seq<u8>, head: Seq<u8>, rest: Seq<u8>)
    requires
        whole == head + rest,
        exists|v: nat| head == varint_bytes(v),
    ensures
        whole.len() > 0,
{
    let v = choose|v: nat| head == varint_bytes(v);
    assert(varint_bytes(v).len() > 0) by {
        reveal_with_fuel(varint_bytes, 2);
    }
}

} // verus!
