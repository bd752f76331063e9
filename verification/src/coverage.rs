//! The tiles that cover a viewport: every tile of an upright rectangle of the
//! tile grid, row by row.

use crate::vector_tile_id::VectorTileID;
use vstd::prelude::*;

verus! {

/// The corners of the rectangle of tiles that a viewport touches, both of
/// them in it, and the zoom level of the grid.
#[derive(PartialEq, Eq, Structural, Clone, Copy, Debug)]
pub struct TileRange {
    pub min_x: u32,
    pub min_y: u32,
    pub max_x: u32,
    pub max_y: u32,
    pub z: u32,
}

impl TileRange {
    /// Whether the tile `id` lies in the rectangle, at its zoom level.
    pub open spec fn holds(self, id: VectorTileID) -> bool {
        &&& self.min_x <= id.x <= self.max_x
        &&& self.min_y <= id.y <= self.max_y
        &&& id.z == self.z
    }

    /// Whether the rectangle has a tile at all.
    pub open spec fn inhabited(self) -> bool {
        self.min_x <= self.max_x && self.min_y <= self.max_y
    }

    /// How many tiles a row of the rectangle has.
    pub open spec fn width(self) -> nat {
        if self.min_x <= self.max_x {
            (self.max_x - self.min_x + 1) as nat
        } else {
            0
        }
    }

    /// How many rows the rectangle has.
    pub open spec fn height(self) -> nat {
        if self.min_y <= self.max_y {
            (self.max_y - self.min_y + 1) as nat
        } else {
            0
        }
    }

    /// The first `n` tiles of the row `y`, from left to right.
    pub open spec fn row_prefix(self, y: u32, n: nat) -> Seq<VectorTileID> {
        Seq::new(n, |j: int| VectorTileID { x: (self.min_x + j) as u32, y, z: self.z })
    }

    /// The tiles of the row `y`, from left to right.
    pub open spec fn row(self, y: u32) -> Seq<VectorTileID> {
        self.row_prefix(y, self.width())
    }

    /// The tiles of the first `h` rows, the upper row first.
    pub open spec fn rows(self, h: nat) -> Seq<VectorTileID>
        decreases h,
    {
        if h == 0 {
            Seq::empty()
        } else {
            self.rows((h - 1) as nat) + self.row((self.min_y + h - 1) as u32)
        }
    }

    /// All tiles of the rectangle, row by row.
    pub open spec fn tiles(self) -> Seq<VectorTileID> {
        self.rows(self.height())
    }

    /// The first `h` rows hold the tiles of the rectangle that lie in them,
    /// and no others.
    pub proof fn lemma_rows_hold(self, h: nat, id: VectorTileID)
        requires
            h <= self.height(),
        ensures
            self.rows(h).contains(id) <==> self.holds(id) && id.y < self.min_y + h,
        decreases h,
    {
        if h > 0 {
            let above = self.rows((h - 1) as nat);
            let y = (self.min_y + h - 1) as u32;
            let last = self.row(y);
            self.lemma_rows_hold((h - 1) as nat, id);
            if self.holds(id) && id.y == y {
                let j = id.x - self.min_x;
                assert(last[j] == id);
                assert((above + last)[above.len() + j] == id);
            }
            if (above + last).contains(id) {
                let k = choose|k: int| 0 <= k < (above + last).len() && (above + last)[k] == id;
                if k < above.len() {
                    assert(above[k] == id);
                } else {
                    assert(last[k - above.len()] == id);
                }
            }
            if above.contains(id) {
                let k = choose|k: int| 0 <= k < above.len() && above[k] == id;
                assert((above + last)[k] == id);
            }
        }
    }

    /// The tiles of a rectangle are those that lie in it: all of them, and no
    /// tile from outside it or from another zoom level.
    pub proof fn lemma_tiles_hold(self, id: VectorTileID)
        ensures
            self.tiles().contains(id) <==> self.holds(id),
    {
        self.lemma_rows_hold(self.height(), id);
    }

    /// A rectangle that has a tile is covered by at least one, and a tile
    /// within the corners, such as the one under the viewport's centre, is
    /// among them.
    pub proof fn lemma_tiles_inhabited(self, centre: VectorTileID)
        requires
            self.holds(centre),
        ensures
            self.inhabited(),
            self.tiles().len() > 0,
            self.tiles().contains(centre),
    {
        self.lemma_tiles_hold(centre);
    }

    /// No tile is named twice: two places that hold the same tile are one.
    pub proof fn lemma_rows_distinct(self, h: nat, i: int, j: int)
        requires
            h <= self.height(),
            0 <= i < self.rows(h).len(),
            0 <= j < self.rows(h).len(),
            self.rows(h)[i] == self.rows(h)[j],
        ensures
            i == j,
        decreases h,
    {
        if h > 0 {
            let above = self.rows((h - 1) as nat);
            let y = (self.min_y + h - 1) as u32;
            let last = self.row(y);
            let all = above + last;
            if i < above.len() && j < above.len() {
                assert(all[i] == above[i] && all[j] == above[j]);
                self.lemma_rows_distinct((h - 1) as nat, i, j);
            } else if i >= above.len() && j >= above.len() {
                assert(all[i] == last[i - above.len()]);
                assert(all[j] == last[j - above.len()]);
            } else {
                let (lo, hi) = if i < j {
                    (i, j)
                } else {
                    (j, i)
                };
                assert(all[lo] == above[lo]);
                assert(all[hi] == last[hi - above.len()]);
                assert(above.contains(above[lo]));
                self.lemma_rows_hold((h - 1) as nat, above[lo]);
            }
        }
    }

    /// No tile is named twice by `tiles`.
    pub proof fn lemma_tiles_distinct(self, i: int, j: int)
        requires
            0 <= i < self.tiles().len(),
            0 <= j < self.tiles().len(),
            self.tiles()[i] == self.tiles()[j],
        ensures
            i == j,
    {
        self.lemma_rows_distinct(self.height(), i, j);
    }
}

/// Names every tile of the rectangle `range`: row by row from `min_y` to
/// `max_y`, each row from `min_x` to `max_x`. Corners out of order name no
/// tile.
pub fn get_covered_tiles(range: TileRange) -> (tiles: Vec<VectorTileID>)
    ensures
        tiles@ == range.tiles(),
{
    let mut covered: Vec<VectorTileID> = Vec::new();
    if range.min_y > range.max_y {
        return covered;
    }
    let mut y: u64 = range.min_y as u64;
    while y <= range.max_y as u64
        invariant
            range.min_y <= y <= range.max_y + 1,
            covered@ == range.rows((y - range.min_y) as nat),
        decreases range.max_y + 1 - y,
    {
        let ghost above = covered@;
        let mut x: u64 = range.min_x as u64;
        assert(covered@ =~= above + range.row_prefix(y as u32, 0));
        while x <= range.max_x as u64
            invariant
                range.min_x <= x,
                range.min_x <= range.max_x ==> x <= range.max_x + 1,
                range.min_x > range.max_x ==> x == range.min_x,
                range.min_y <= y <= range.max_y,
                covered@ == above + range.row_prefix(y as u32, (x - range.min_x) as nat),
            decreases range.max_x + 1 - x,
        {
            covered.push(VectorTileID { x: x as u32, y: y as u32, z: range.z });
            x = x + 1;
            assert(covered@ =~= above + range.row_prefix(y as u32, (x - range.min_x) as nat));
        }
        assert((x - range.min_x) as nat == range.width());
        y = y + 1;
    }
    covered
}

} // verus!
