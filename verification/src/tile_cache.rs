//! Where each tile of each tile source stands: not asked for, being fetched,
//! or decoded and at hand.

use crate::vector_tile_id::VectorTileID;
use crate::vector_tile_model::TileView;
use crate::vector_tile_model::VectorTileModel;
use std::collections::HashMap;
use std::sync::Arc;
use vstd::prelude::*;

verus! {

broadcast use vstd::std_specs::hash::group_hash_axioms;

/// What names one tile: the name of its source and its place in the grid.
pub type TileKey = (Seq<char>, VectorTileID);

/// Where a tile that has been asked for stands.
#[derive(Debug, Clone)]
pub enum TileState {
    /// A fetch of the tile is under way.
    Fetching,
    /// The tile has been fetched and decoded.
    Present(Arc<VectorTileModel>),
}

/// The state of a tile as the contracts see it.
pub enum TileStateView {
    Fetching,
    Present(TileView),
}

impl View for TileState {
    type V = TileStateView;

    open spec fn view(&self) -> TileStateView {
        match self {
            TileState::Fetching => TileStateView::Fetching,
            TileState::Present(tile) => TileStateView::Present(tile@),
        }
    }
}

/// What a look into the cache finds of one tile.
#[derive(Debug, Clone, Copy, PartialEq, Eq, Structural)]
pub enum TileStatus {
    Absent,
    Fetching,
    Present,
}

/// The status that the states `m` give the tile `key`.
pub open spec fn status_in(m: Map<TileKey, TileStateView>, key: TileKey) -> TileStatus {
    if !m.contains_key(key) {
        TileStatus::Absent
    } else if m[key] is Fetching {
        TileStatus::Fetching
    } else {
        TileStatus::Present
    }
}

/// The three coordinates of a tile as one number, a different number for each
/// tile.
pub open spec fn pack(id: VectorTileID) -> u128 {
    (id.z as u128 * 0x1_0000_0000_0000_0000 + id.x as u128 * 0x1_0000_0000 + id.y as u128) as u128
}

/// The tiles of one source that have been asked for.
struct SourceTiles {
    name: String,
    tiles: HashMap<u128, TileState>,
}

/// The states of all tiles that have been asked for, by source and tile. A
/// tile that has no state has not been asked for, or its fetch has failed.
pub struct TileCache {
    sources: Vec<SourceTiles>,
}

/// The place of the source named `name` among `sources`.
spec fn find_source(sources: Seq<SourceTiles>, name: Seq<char>) -> Option<int>
    decreases sources.len(),
{
    if sources.len() == 0 {
        None
    } else if sources.last().name@ == name {
        Some(sources.len() - 1)
    } else {
        find_source(sources.drop_last(), name)
    }
}

/// A source that is found is found where it is.
proof fn lemma_find_source(sources: Seq<SourceTiles>, name: Seq<char>)
    ensures
        find_source(sources, name) matches Some(i) ==> 0 <= i < sources.len() && sources[i].name@
            == name,
        find_source(sources, name) is None ==> forall|j: int|
            0 <= j < sources.len() ==> (#[trigger] sources[j]).name@ != name,
    decreases sources.len(),
{
    if sources.len() > 0 && sources.last().name@ != name {
        lemma_find_source(sources.drop_last(), name);
        assert forall|j: int|
            find_source(sources, name) is None && 0 <= j < sources.len() implies (
        #[trigger] sources[j]).name@ != name by {
            if j < sources.len() - 1 {
                assert(sources.drop_last()[j] == sources[j]);
            }
        }
    }
}

/// Where a source is found depends on the names alone.
proof fn lemma_find_source_by_names(a: Seq<SourceTiles>, b: Seq<SourceTiles>, name: Seq<char>)
    requires
        a.len() == b.len(),
        forall|j: int| 0 <= j < a.len() ==> (#[trigger] a[j]).name@ == b[j].name@,
    ensures
        find_source(a, name) == find_source(b, name),
    decreases a.len(),
{
    if a.len() > 0 {
        assert(a.last().name@ == b.last().name@);
        assert forall|j: int| 0 <= j < a.drop_last().len() implies (#[trigger] a.drop_last()[
            j
        ]).name@ == b.drop_last()[j].name@ by {
            assert(a[j].name@ == b[j].name@);
        }
        lemma_find_source_by_names(a.drop_last(), b.drop_last(), name);
    }
}

/// Two tiles with one number are one tile.
pub proof fn lemma_pack_injective(a: VectorTileID, b: VectorTileID)
    ensures
        pack(a) == pack(b) <==> a == b,
{
}

/// The state that `sources` hold of the tile `key`, if they hold one.
spec fn state_at(sources: Seq<SourceTiles>, key: TileKey) -> Option<TileStateView> {
    match find_source(sources, key.0) {
        Some(i) => if sources[i].tiles@.contains_key(pack(key.1)) {
            Some(sources[i].tiles@[pack(key.1)]@)
        } else {
            None
        },
        None => None,
    }
}

/// The states that `sources` hold, by tile.
spec fn states(sources: Seq<SourceTiles>) -> Map<TileKey, TileStateView> {
    Map::new(|k: TileKey| state_at(sources, k) is Some, |k: TileKey| state_at(sources, k)->0)
}

/// What a change of the tiles of the source at `i` does to the states: the
/// tile whose number `k` got the state `now` has it, every other tile stands
/// as before.
proof fn lemma_states_after_change(
    before: Seq<SourceTiles>,
    after: Seq<SourceTiles>,
    i: int,
    id: VectorTileID,
    put: Option<TileState>,
)
    requires
        0 <= i < before.len(),
        after.len() == before.len(),
        find_source(before, before[i].name@) == Some(i),
        after[i].name@ == before[i].name@,
        forall|j: int| 0 <= j < before.len() && j != i ==> after[j] == before[j],
        match put {
            Some(state) => after[i].tiles@ == before[i].tiles@.insert(pack(id), state),
            None => after[i].tiles@ == before[i].tiles@.remove(pack(id)),
        },
    ensures
        states(after) == match put {
            Some(state) => states(before).insert((before[i].name@, id), state@),
            None => states(before).remove((before[i].name@, id)),
        },
{
    let key = (before[i].name@, id);
    let now = match put {
        Some(state) => Some(state@),
        None => None,
    };
    let expected = match put {
        Some(state) => states(before).insert(key, state@),
        None => states(before).remove(key),
    };
    assert forall|k: TileKey| #[trigger]
        state_at(after, k) == (if k == key {
            now
        } else {
            state_at(before, k)
        }) by {
        lemma_find_source_by_names(after, before, k.0);
        lemma_find_source(before, k.0);
        lemma_pack_injective(k.1, id);
    }
    assert forall|k: TileKey| #[trigger] states(after).contains_key(k) == expected.contains_key(
        k,
    ) by {
        assert(state_at(after, k) == (if k == key {
            now
        } else {
            state_at(before, k)
        }));
    }
    assert forall|k: TileKey| #[trigger] states(after).contains_key(k) implies states(after)[k]
        == expected[k] by {
        assert(state_at(after, k) == (if k == key {
            now
        } else {
            state_at(before, k)
        }));
    }
    assert(states(after) =~= expected);
}

/// What a new source with the one tile `id` in the state `state` does to the
/// states.
proof fn lemma_states_after_push(
    before: Seq<SourceTiles>,
    added: SourceTiles,
    id: VectorTileID,
    state: TileStateView,
)
    requires
        find_source(before, added.name@) is None,
        added.tiles@.dom() =~= set![pack(id)],
        added.tiles@[pack(id)]@ == state,
    ensures
        states(before.push(added)) == states(before).insert((added.name@, id), state),
{
    let after = before.push(added);
    let key = (added.name@, id);
    let expected = states(before).insert(key, state);
    assert(after.drop_last() =~= before);
    assert(after.last() == added);
    assert forall|k: TileKey| #[trigger]
        state_at(after, k) == (if k == key {
            Some(state)
        } else {
            state_at(before, k)
        }) by {
        lemma_find_source(before, k.0);
        lemma_pack_injective(k.1, id);
        if k.0 != added.name@ {
            let found = find_source(before, k.0);
            if found is Some {
                assert(after[found->0] == before[found->0]);
            }
        }
    }
    assert forall|k: TileKey| #[trigger] states(after).contains_key(k) == expected.contains_key(
        k,
    ) by {
        assert(state_at(after, k) == (if k == key {
            Some(state)
        } else {
            state_at(before, k)
        }));
    }
    assert forall|k: TileKey| #[trigger] states(after).contains_key(k) implies states(after)[k]
        == expected[k] by {
        assert(state_at(after, k) == (if k == key {
            Some(state)
        } else {
            state_at(before, k)
        }));
    }
    assert(states(after) =~= expected);
}

impl View for TileCache {
    type V = Map<TileKey, TileStateView>;

    closed spec fn view(&self) -> Map<TileKey, TileStateView> {
        states(self.sources@)
    }
}

/// `Arc::clone` of the standard library: one more handle on the same tile.
#[verifier::external_body]
pub(crate) fn share_tile(tile: &Arc<VectorTileModel>) -> (shared: Arc<VectorTileModel>)
    ensures
        shared == *tile,
{
    Arc::clone(tile)
}

impl TileCache {
    /// A cache in which no tile has been asked for.
    pub fn new() -> (cache: TileCache)
        ensures
            cache@ == Map::<TileKey, TileStateView>::empty(),
    {
        let cache = TileCache { sources: Vec::new() };
        assert(cache@ =~= Map::<TileKey, TileStateView>::empty());
        cache
    }

    /// The place of the source named `name`.
    fn source_index(&self, name: &str) -> (r: Option<usize>)
        ensures
            r is Some <==> find_source(self.sources@, name@) is Some,
            r matches Some(i) ==> find_source(self.sources@, name@) == Some(i as int) && i
                < self.sources.len(),
    {
        let wanted = name.to_owned();
        let mut i: usize = self.sources.len();
        proof {
            assert(self.sources@.take(i as int) =~= self.sources@);
        }
        while i > 0
            invariant
                i <= self.sources.len(),
                wanted@ == name@,
                find_source(self.sources@, name@) == find_source(
                    self.sources@.take(i as int),
                    name@,
                ),
            decreases i,
        {
            proof {
                let upto = self.sources@.take(i as int);
                assert(upto.last() == self.sources[i - 1]);
                assert(upto.drop_last() =~= self.sources@.take(i - 1));
            }
            if self.sources[i - 1].name == wanted {
                return Some(i - 1);
            }
            i = i - 1;
        }
        None
    }

    /// The number of the tile `id`.
    fn key_of(id: &VectorTileID) -> (k: u128)
        ensures
            k == pack(*id),
    {
        id.z as u128 * 0x1_0000_0000_0000_0000 + id.x as u128 * 0x1_0000_0000 + id.y as u128
    }

    /// Where the tile `id` of the source `name` stands.
    pub fn status(&self, name: &str, id: &VectorTileID) -> (s: TileStatus)
        ensures
            s == status_in(self@, (name@, *id)),
    {
        match self.source_index(name) {
            None => TileStatus::Absent,
            Some(i) => match self.sources[i].tiles.get(&TileCache::key_of(id)) {
                None => TileStatus::Absent,
                Some(TileState::Fetching) => TileStatus::Fetching,
                Some(TileState::Present(_)) => TileStatus::Present,
            },
        }
    }

    /// A handle on the decoded tile `id` of the source `name`, if it is at
    /// hand.
    pub fn get(&self, name: &str, id: &VectorTileID) -> (r: Option<Arc<VectorTileModel>>)
        ensures
            match r {
                Some(tile) => self@.contains_key((name@, *id)) && self@[(name@, *id)]
                    == TileStateView::Present(tile@),
                None => status_in(self@, (name@, *id)) != TileStatus::Present,
            },
    {
        match self.source_index(name) {
            None => None,
            Some(i) => match self.sources[i].tiles.get(&TileCache::key_of(id)) {
                None => None,
                Some(TileState::Fetching) => None,
                Some(TileState::Present(tile)) => Some(share_tile(tile)),
            },
        }
    }

    /// Gives the tile `id` of the source `name` the state `state`, whatever
    /// state it had.
    pub fn put(&mut self, name: &str, id: &VectorTileID, state: TileState)
        ensures
            final(self)@ == old(self)@.insert((name@, *id), state@),
    {
        let k = TileCache::key_of(id);
        let ghost before = self.sources@;
        match self.source_index(name) {
            Some(i) => {
                proof {
                    lemma_find_source(before, name@);
                }
                self.sources[i].tiles.insert(k, state);
                proof {
                    lemma_states_after_change(before, self.sources@, i as int, *id, Some(state));
                }
            },
            None => {
                let mut tiles: HashMap<u128, TileState> = HashMap::new();
                tiles.insert(k, state);
                let added = SourceTiles { name: name.to_owned(), tiles };
                proof {
                    lemma_states_after_push(before, added, *id, state@);
                }
                self.sources.push(added);
            },
        }
    }

    /// Forgets the state of the tile `id` of the source `name`.
    pub fn clear(&mut self, name: &str, id: &VectorTileID)
        ensures
            final(self)@ == old(self)@.remove((name@, *id)),
    {
        let k = TileCache::key_of(id);
        let ghost before = self.sources@;
        match self.source_index(name) {
            Some(i) => {
                proof {
                    lemma_find_source(before, name@);
                }
                self.sources[i].tiles.remove(&k);
                proof {
                    lemma_states_after_change(before, self.sources@, i as int, *id, None);
                }
            },
            None => {
                assert(self@ =~= old(self)@.remove((name@, *id)));
            },
        }
    }
}

} // verus!
