//! The geometry of one feature: rings of points, packed as a stream of
//! drawing commands.

use crate::pbf::parses;
use crate::pbf::Parsed;
use crate::pbf::Pbf;
use crate::pbf::PbfView;
use crate::wire::lemma_reads_consume;
use crate::wire::spec_svarint32;
use crate::wire::spec_varint32;
use crate::wire::PbfError;
use vstd::prelude::*;

verus! {

/// Command that starts a new ring at a point.
pub const CMD_MOVE_TO: u32 = 1;

/// Command that adds a point to the ring under way.
pub const CMD_LINE_TO: u32 = 2;

/// Command that closes the ring under way.
pub const CMD_CLOSE_PATH: u32 = 7;

/// A ring as the contracts see it: its points in order.
pub type Ring = Seq<(int, int)>;

/// The rings of one geometry, in the order in which the stream gives them, in
/// the integer units of the tile.
#[derive(Debug, Clone, PartialEq)]
pub struct VectorTileGeometry {
    pub geom_set: Vec<Vec<(i128, i128)>>,
}

/// The points of a ring as mathematical integers.
pub open spec fn ring_view(points: Seq<(i128, i128)>) -> Ring {
    Seq::new(points.len(), |i: int| (points[i].0 as int, points[i].1 as int))
}

/// The rings of a geometry as sequences of mathematical points.
pub open spec fn rings_view(rings: Seq<Vec<(i128, i128)>>) -> Seq<Ring> {
    Seq::new(rings.len(), |i: int| ring_view(rings[i]@))
}

impl View for VectorTileGeometry {
    type V = Seq<Ring>;

    open spec fn view(&self) -> Seq<Ring> {
        rings_view(self.geom_set@)
    }
}

/// Where the decoder of a command stream stands between two steps.
pub struct GeometryState {
    /// The command under way.
    pub cmd: u32,
    /// How many times it is still to run.
    pub count: u32,
    /// The last point, from which the next is an offset.
    pub x: int,
    pub y: int,
    /// The points of the ring under way.
    pub current: Ring,
    /// The rings that are done.
    pub rings: Seq<Ring>,
}

impl GeometryState {
    /// The state before the first byte: at the origin, with nothing drawn.
    pub open spec fn start() -> GeometryState {
        GeometryState {
            cmd: CMD_MOVE_TO,
            count: 0,
            x: 0,
            y: 0,
            current: Seq::empty(),
            rings: Seq::empty(),
        }
    }

    /// The state after a command header: `header` holds the command in its low
    /// three bits and the repeat count above them.
    pub open spec fn with_header(self, header: u32) -> GeometryState {
        GeometryState { cmd: header % 8, count: header / 8, ..self }
    }

    /// The state after one run of `MoveTo` or `LineTo` that read the offset
    /// `(dx, dy)`. `MoveTo` first puts a ring under way, if it has points,
    /// among those that are done.
    pub open spec fn with_point(self, dx: int, dy: int) -> GeometryState {
        let starts_ring = self.cmd == CMD_MOVE_TO && self.current.len() > 0;
        GeometryState {
            cmd: self.cmd,
            count: (self.count - 1) as u32,
            x: self.x + dx,
            y: self.y + dy,
            current: if starts_ring {
                seq![(self.x + dx, self.y + dy)]
            } else {
                self.current.push((self.x + dx, self.y + dy))
            },
            rings: if starts_ring {
                self.rings.push(self.current)
            } else {
                self.rings
            },
        }
    }

    /// The state after one run of `ClosePath`: a ring under way gets its
    /// first point again as its last and is done.
    pub open spec fn closed(self) -> GeometryState {
        if self.current.len() > 0 {
            GeometryState {
                count: (self.count - 1) as u32,
                current: Seq::empty(),
                rings: self.rings.push(self.current.push(self.current[0])),
                ..self
            }
        } else {
            GeometryState { count: (self.count - 1) as u32, ..self }
        }
    }

    /// The rings once the stream has ended: a ring still under way counts.
    pub open spec fn finished(self) -> Seq<Ring> {
        if self.current.len() > 0 {
            self.rings.push(self.current)
        } else {
            self.rings
        }
    }
}

/// Whether `cmd` is one of the three commands of a geometry stream.
pub open spec fn known_command(cmd: u32) -> bool {
    cmd == CMD_MOVE_TO || cmd == CMD_LINE_TO || cmd == CMD_CLOSE_PATH
}

/// One move of the decoder: the cursor and the state after it, or the error
/// that ends the decoding and the cursor at which it does.
pub type GeometryMove = Result<(PbfView, GeometryState), (PbfError, PbfView)>;

/// Reads a command header where no command is under way. A command other than
/// `MoveTo`, `LineTo` and `ClosePath` fails with `UnknownGeometryCommand`.
pub open spec fn spec_geometry_header(c: PbfView, st: GeometryState) -> GeometryMove {
    if st.count != 0 {
        Ok((c, st))
    } else {
        match spec_varint32(c.bytes) {
            Err(e) => Err((e, c)),
            Ok((header, rest)) => if known_command(header % 8) {
                Ok((c.with_bytes(rest), st.with_header(header)))
            } else {
                Err((PbfError::UnknownGeometryCommand, c.with_bytes(rest)))
            },
        }
    }
}

/// Runs the command under way once: `ClosePath` reads nothing, the other two
/// read the two offsets of a point.
pub open spec fn spec_geometry_command(c: PbfView, st: GeometryState) -> GeometryMove {
    if st.cmd == CMD_CLOSE_PATH {
        Ok((c, st.closed()))
    } else {
        match spec_svarint32(c.bytes) {
            Err(e) => Err((e, c)),
            Ok((dx, after_x)) => match spec_svarint32(after_x) {
                Err(e) => Err((e, c.with_bytes(after_x))),
                Ok((dy, after_y)) => Ok(
                    (c.with_bytes(after_y), st.with_point(dx as int, dy as int)),
                ),
            },
        }
    }
}

/// Decodes what is left of a command stream from the state `st`.
///
/// While bytes are left: where no command is under way a header is read; a
/// header with a count of zero runs nothing; else the command under way runs
/// once. When no byte is left the stream has ended, whatever count is left
/// over.
pub open spec fn spec_geometry_run(c: PbfView, st: GeometryState) -> Parsed<Seq<Ring>>
    decreases c.bytes.len(), st.count,
{
    if c.bytes.len() == 0 {
        Parsed { outcome: Ok(st.finished()), cursor: c }
    } else {
        match spec_geometry_header(c, st) {
            Err((e, at)) => Parsed { outcome: Err(e), cursor: at },
            Ok((c1, st1)) => {
                proof {
                    lemma_reads_consume(c.bytes);
                }
                if st1.count == 0 {
                    spec_geometry_run(c1, st1)
                } else {
                    match spec_geometry_command(c1, st1) {
                        Err((e, at)) => Parsed { outcome: Err(e), cursor: at },
                        Ok((c2, st2)) => {
                            proof {
                                lemma_geometry_command_progress(c1, st1);
                            }
                            spec_geometry_run(c2, st2)
                        },
                    }
                }
            },
        }
    }
}

/// A command that runs takes bytes, or else takes one off its count.
pub proof fn lemma_geometry_command_progress(c: PbfView, st: GeometryState)
    requires
        st.count != 0,
    ensures
        spec_geometry_command(c, st) matches Ok((c2, st2)) ==> c2.bytes.len() < c.bytes.len() || (
        c2.bytes.len() == c.bytes.len() && st2.count < st.count),
{
    lemma_reads_consume(c.bytes);
    match spec_svarint32(c.bytes) {
        Ok((_, after_x)) => lemma_reads_consume(after_x),
        Err(_) => {},
    }
}

/// The rings that the command stream `bytes` draws.
pub open spec fn spec_geometry(bytes: Seq<u8>) -> Result<Seq<Ring>, PbfError> {
    spec_geometry_run(PbfView { bytes, value: 0, tag: 0 }, GeometryState::start()).outcome
}

} // verus!

verus! {

/// The decoder's state as it runs: the state of the contracts, with the rings
/// held in vectors.
struct RingBuilder {
    cmd: u32,
    length: u32,
    x: i128,
    y: i128,
    current: Vec<(i128, i128)>,
    rings: Vec<Vec<(i128, i128)>>,
}

impl View for RingBuilder {
    type V = GeometryState;

    closed spec fn view(&self) -> GeometryState {
        GeometryState {
            cmd: self.cmd,
            count: self.length,
            x: self.x as int,
            y: self.y as int,
            current: ring_view(self.current@),
            rings: rings_view(self.rings@),
        }
    }
}

/// The farthest from the origin that a coordinate can lie after offsets read
/// from `consumed` bytes: each offset takes a byte at least and moves the
/// point by no more than `2^31`.
pub open spec fn reach(consumed: int) -> int {
    0x8000_0000 * consumed
}

impl RingBuilder {
    /// Whether both coordinates lie within `reach(consumed)` of the origin.
    spec fn within(&self, consumed: int) -> bool {
        &&& -reach(consumed) <= self.x <= reach(consumed)
        &&& -reach(consumed) <= self.y <= reach(consumed)
    }

    fn new() -> (b: RingBuilder)
        ensures
            b@ == GeometryState::start(),
            b.within(0),
    {
        let b = RingBuilder {
            cmd: CMD_MOVE_TO,
            length: 0,
            x: 0,
            y: 0,
            current: Vec::new(),
            rings: Vec::new(),
        };
        assert(ring_view(b.current@) =~= Seq::<(int, int)>::empty());
        assert(rings_view(b.rings@) =~= Seq::<Ring>::empty());
        b
    }

    /// Puts the ring under way among those that are done and starts an empty
    /// one.
    fn finish_ring(&mut self)
        ensures
            final(self)@ == (GeometryState {
                current: Seq::empty(),
                rings: old(self)@.rings.push(old(self)@.current),
                ..old(self)@
            }),
            final(self).x == old(self).x,
            final(self).y == old(self).y,
    {
        let mut ring: Vec<(i128, i128)> = Vec::new();
        std::mem::swap(&mut self.current, &mut ring);
        self.rings.push(ring);
        assert(rings_view(self.rings@) =~= rings_view(old(self).rings@).push(
            ring_view(old(self).current@),
        ));
        assert(ring_view(self.current@) =~= Seq::<(int, int)>::empty());
    }

    /// Adds the point `p` to the ring under way.
    fn add_point(&mut self, p: (i128, i128))
        ensures
            final(self)@ == (GeometryState {
                current: old(self)@.current.push((p.0 as int, p.1 as int)),
                ..old(self)@
            }),
            final(self).x == old(self).x,
            final(self).y == old(self).y,
    {
        self.current.push(p);
        assert(ring_view(self.current@) =~= ring_view(old(self).current@).push(
            (p.0 as int, p.1 as int),
        ));
    }

    /// Reads a command header where no command is under way.
    fn read_header(&mut self, data: &mut Pbf) -> (r: Result<(), PbfError>)
        ensures
            match spec_geometry_header(old(data)@, old(self)@) {
                Ok((c, st)) => r is Ok && final(data)@ == c && final(self)@ == st,
                Err((e, c)) => r == Err::<(), PbfError>(e) && final(data)@ == c,
            },
            final(self).x == old(self).x,
            final(self).y == old(self).y,
    {
        if self.length != 0 {
            return Ok(());
        }
        let header = match data.varint32() {
            Ok(header) => header,
            Err(e) => {
                return Err(e);
            },
        };
        if header % 8 != CMD_MOVE_TO && header % 8 != CMD_LINE_TO && header % 8 != CMD_CLOSE_PATH {
            return Err(PbfError::UnknownGeometryCommand);
        }
        self.cmd = header % 8;
        self.length = header / 8;
        Ok(())
    }

    /// Runs the command under way once.
    fn run_command(&mut self, data: &mut Pbf, Ghost(consumed): Ghost<int>) -> (r: Result<
        (),
        PbfError,
    >)
        requires
            old(self).length > 0,
            old(self).within(consumed),
            0 <= consumed <= usize::MAX,
        ensures
            match spec_geometry_command(old(data)@, old(self)@) {
                Ok((c, st)) => {
                    &&& r is Ok
                    &&& final(data)@ == c
                    &&& final(self)@ == st
                    &&& final(self).within(consumed + old(data)@.bytes.len() - c.bytes.len())
                },
                Err((e, c)) => r == Err::<(), PbfError>(e) && final(data)@ == c,
            },
    {
        if self.cmd == CMD_CLOSE_PATH {
            self.length = self.length - 1;
            if self.current.len() > 0 {
                let first = self.current[0];
                assert(ring_view(self.current@)[0] == (first.0 as int, first.1 as int));
                self.add_point(first);
                self.finish_ring();
            }
            return Ok(());
        }
        proof {
            lemma_reads_consume(data@.bytes);
        }
        let dx = match data.svarint32() {
            Ok(dx) => dx,
            Err(e) => {
                return Err(e);
            },
        };
        proof {
            lemma_reads_consume(data@.bytes);
        }
        let dy = match data.svarint32() {
            Ok(dy) => dy,
            Err(e) => {
                return Err(e);
            },
        };
        if self.cmd == CMD_MOVE_TO && self.current.len() > 0 {
            self.finish_ring();
        }
        self.length = self.length - 1;
        self.x = self.x + dx as i128;
        self.y = self.y + dy as i128;
        let p = (self.x, self.y);
        self.add_point(p);
        assert(Seq::<(int, int)>::empty().push((p.0 as int, p.1 as int)) =~= seq![
            (p.0 as int, p.1 as int),
        ]);
        Ok(())
    }
}

impl VectorTileGeometry {
    /// Decodes a command stream into rings.
    ///
    /// `MoveTo` starts a ring, `LineTo` adds a point, each point given as a
    /// zigzag-coded offset from the point before it, the first from the
    /// origin; `ClosePath` repeats the ring's first point and ends the ring. A
    /// ring still open when the bytes end is given too.
    pub fn parse(data: &mut Pbf) -> (r: Result<VectorTileGeometry, PbfError>)
        ensures
            parses(spec_geometry_run(old(data)@, GeometryState::start()), r, final(data)@),
    {
        let mut b = RingBuilder::new();
        let ghost total = data@.bytes.len();
        proof {
            data.lemma_bytes_fit();
        }
        while data.has_next()
            invariant
                spec_geometry_run(old(data)@, GeometryState::start()) == spec_geometry_run(
                    data@,
                    b@,
                ),
                data@.bytes.len() <= total <= usize::MAX,
                b.within(total - data@.bytes.len()),
            decreases data@.bytes.len(), b.length,
        {
            let ghost c0 = data@;
            let ghost st0 = b@;
            proof {
                lemma_reads_consume(c0.bytes);
            }
            match b.read_header(data) {
                Ok(()) => {},
                Err(e) => {
                    return Err(e);
                },
            }
            if b.length > 0 {
                proof {
                    lemma_geometry_command_progress(data@, b@);
                }
                match b.run_command(data, Ghost(total - data@.bytes.len())) {
                    Ok(()) => {},
                    Err(e) => {
                        return Err(e);
                    },
                }
            }
        }
        if b.current.len() > 0 {
            b.finish_ring();
        }
        Ok(VectorTileGeometry { geom_set: b.rings })
    }
}

} // verus!
