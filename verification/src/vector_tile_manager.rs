//! The tile manager: which tiles to fetch for a viewport, and what a fetch
//! that has come back does to the cache.
//!
//! The manager decides and records; it fetches nothing itself. Its caller
//! fetches the addresses that `load_covered_tiles` hands out and brings each
//! result back through `on_task_complete`, and tells the observer of every
//! tile that `on_task_complete` reports as loaded.

use crate::coverage::get_covered_tiles;
use crate::coverage::TileRange;
use crate::map_error::MapError;
use crate::tile_address::lemma_address_names_its_tile;
use crate::tile_address::lemma_template_gives_address;
use crate::tile_address::tile_template;
use crate::tile_cache::share_tile;
use crate::tile_cache::status_in;
use crate::tile_cache::TileCache;
use crate::tile_cache::TileKey;
use crate::tile_cache::TileState;
use crate::tile_cache::TileStateView;
use crate::tile_cache::TileStatus;
use crate::tile_url::get_tile_id_from_url;
use crate::tile_url::get_tile_request_url;
use crate::tile_url::get_vector_tile_name_from_url;
use crate::tile_url::spec_name_from_url;
use crate::tile_url::spec_tile_id_from_url;
use crate::tile_url::substitute;
use crate::vector_tile_id::VectorTileID;
use crate::vector_tile_model::spec_tile;
use crate::vector_tile_model::TileView;
use crate::vector_tile_model::VectorTileModel;
use crate::views::lemma_views_empty;
use crate::views::lemma_views_push;
use crate::views::views;
use crate::wire::PbfError;
use std::sync::Arc;
use vstd::prelude::*;

verus! {

/// What a fetch brings back: bytes or none, or the failure of the transport.
pub type TaskReturn = Result<Option<Vec<u8>>, MapError>;

/// The states of all tiles, by source and tile.
pub type TileStates = Map<TileKey, TileStateView>;

/// A tile that has just become present: what the observer is told.
#[derive(Debug, Clone)]
pub struct TileLoaded {
    pub name: String,
    pub id: VectorTileID,
    pub tile: Arc<VectorTileModel>,
}

/// Why a fetch that came back gave no tile.
#[derive(Debug, Clone, PartialEq)]
pub enum LoadFailure {
    /// The transport failed.
    Transport(MapError),
    /// The fetch brought no bytes.
    NoData,
    /// The bytes are no tile.
    Malformed(PbfError),
    /// The address names no tile.
    Unroutable,
}

/// The tile that the address `url` names, and its source.
pub open spec fn route(url: Seq<char>) -> Option<TileKey> {
    match spec_tile_id_from_url(url) {
        Some(id) => Some((spec_name_from_url(url), id)),
        None => None,
    }
}

/// The states after a fetch of the tile `key` has come back without a tile: a
/// tile that was being fetched is absent again, a tile that was present from
/// an earlier fetch stays.
pub open spec fn settled(states: TileStates, key: TileKey) -> TileStates {
    if states.contains_key(key) && states[key] is Fetching {
        states.remove(key)
    } else {
        states
    }
}

/// The tile that the bytes `data` of a fetch from `url` give, with its source
/// and its place, or why they give none.
pub open spec fn spec_arrival(url: Seq<char>, data: Option<Seq<u8>>) -> Result<
    (TileKey, TileView),
    LoadFailure,
> {
    match data {
        None => Err(LoadFailure::NoData),
        Some(bytes) => match spec_tile(bytes) {
            Err(e) => Err(LoadFailure::Malformed(e)),
            Ok(tile) => match route(url) {
                None => Err(LoadFailure::Unroutable),
                Some(key) => Ok((key, tile)),
            },
        },
    }
}

/// The states after the fetch from `url` has come back with `data`: a tile
/// that decodes is present under the source and the place that `url` names,
/// in the place of any tile that was; any other outcome settles the tile that
/// `url` names. An address that names no tile changes nothing.
pub open spec fn after_success(states: TileStates, url: Seq<char>, data: Option<Seq<u8>>)
    -> TileStates {
    match route(url) {
        None => states,
        Some(key) => match spec_arrival(url, data) {
            Ok((_, tile)) => states.insert(key, TileStateView::Present(tile)),
            Err(_) => settled(states, key),
        },
    }
}

/// The states after the fetch from `url` has failed.
pub open spec fn after_failure(states: TileStates, url: Seq<char>) -> TileStates {
    match route(url) {
        None => states,
        Some(key) => settled(states, key),
    }
}

/// The states after every tile of `tiles` of the source `name` that had no
/// state has been marked as being fetched.
pub open spec fn claimed(states: TileStates, name: Seq<char>, tiles: Set<VectorTileID>)
    -> TileStates {
    Map::new(
        |k: TileKey| states.contains_key(k) || (k.0 == name && tiles.contains(k.1)),
        |k: TileKey|
            if states.contains_key(k) {
                states[k]
            } else {
                TileStateView::Fetching
            },
    )
}

/// The addresses to fetch for `tiles`: for each tile of the source `name`
/// that has no state in `states`, in the order of `tiles`, the template
/// filled in with its coordinates.
pub open spec fn requests(
    states: TileStates,
    name: Seq<char>,
    tiles: Seq<VectorTileID>,
    template: Seq<char>,
) -> Seq<Seq<char>>
    decreases tiles.len(),
{
    if tiles.len() == 0 {
        Seq::empty()
    } else {
        let before = requests(states, name, tiles.drop_last(), template);
        if states.contains_key((name, tiles.last())) {
            before
        } else {
            before.push(substitute(template, tiles.last()))
        }
    }
}

/// The view of the bytes that a fetch brought, if it brought any.
pub open spec fn data_view(data: Option<Vec<u8>>) -> Option<Seq<u8>> {
    match data {
        Some(bytes) => Some(bytes@),
        None => None,
    }
}

/// Whether `got` is what the contracts expect of a fetch that came back: the
/// same failure, or the tile `expected` under its source and place.
pub open spec fn reports(
    got: Result<TileLoaded, LoadFailure>,
    expected: Result<(TileKey, TileView), LoadFailure>,
) -> bool {
    match expected {
        Ok((key, tile)) => got is Ok && got->Ok_0.name@ == key.0 && got->Ok_0.id == key.1
            && got->Ok_0.tile@ == tile,
        Err(failure) => got is Err && got->Err_0 == failure,
    }
}

/// The text `text` in upper case, as Unicode has it.
pub uninterp spec fn uppercase(text: Seq<char>) -> Seq<char>;

/// `str::to_uppercase` of the standard library: the same text in upper case.
#[verifier::external_body]
fn to_uppercase(text: &str) -> (upper: String)
    ensures
        upper@ == uppercase(text@),
{
    text.to_uppercase()
}

/// The tile manager.
pub struct VectorTileManager {
    cache: TileCache,
}

impl View for VectorTileManager {
    type V = TileStates;

    closed spec fn view(&self) -> TileStates {
        self.cache@
    }
}

impl VectorTileManager {
    /// A manager that has not asked for any tile.
    pub fn new() -> (manager: VectorTileManager)
        ensures
            manager@ == TileStates::empty(),
    {
        VectorTileManager { cache: TileCache::new() }
    }

    /// Whether the tile `vector_tile_id` of the source `vector_name` is
    /// decoded and at hand.
    pub fn is_tile_loaded(&self, vector_name: &str, vector_tile_id: &VectorTileID) -> (b: bool)
        ensures
            b == (status_in(self@, (vector_name@, *vector_tile_id)) == TileStatus::Present),
    {
        match self.cache.status(vector_name, vector_tile_id) {
            TileStatus::Present => true,
            _ => false,
        }
    }

    /// Where the tile `vector_tile_id` of the source `vector_name` stands.
    pub fn tile_status(&self, vector_name: &str, vector_tile_id: &VectorTileID) -> (s: TileStatus)
        ensures
            s == status_in(self@, (vector_name@, *vector_tile_id)),
    {
        self.cache.status(vector_name, vector_tile_id)
    }

    /// A handle on the tile `vector_tile_id` of the source `vector_name`, if
    /// it is at hand.
    pub fn get_tile(&self, vector_name: &str, vector_tile_id: &VectorTileID) -> (r: Option<
        Arc<VectorTileModel>,
    >)
        ensures
            match r {
                Some(tile) => self@.contains_key((vector_name@, *vector_tile_id)) && self@[(
                    vector_name@,
                    *vector_tile_id,
                )] == TileStateView::Present(tile@),
                None => status_in(self@, (vector_name@, *vector_tile_id)) != TileStatus::Present,
            },
    {
        self.cache.get(vector_name, vector_tile_id)
    }

    /// Marks the tile as being fetched if it has no state, and says whether
    /// it did: `true` makes the caller the one to fetch it.
    pub fn claim(&mut self, vector_name: &str, vector_tile_id: &VectorTileID) -> (mine: bool)
        ensures
            mine == !old(self)@.contains_key((vector_name@, *vector_tile_id)),
            final(self)@ == claimed(old(self)@, vector_name@, set![*vector_tile_id]),
    {
        match self.cache.status(vector_name, vector_tile_id) {
            TileStatus::Absent => {
                self.cache.put(vector_name, vector_tile_id, TileState::Fetching);
                assert(self@ =~= claimed(old(self)@, vector_name@, set![*vector_tile_id]));
                true
            },
            _ => {
                assert(self@ =~= claimed(old(self)@, vector_name@, set![*vector_tile_id]));
                false
            },
        }
    }

    /// Decides what to fetch for a viewport that touches the tiles of `range`:
    /// every tile of `range` that has no state in the source `vector_name` is
    /// marked as being fetched, and its address, made from `url_template`, is
    /// handed out. A tile that is present or being fetched is left alone.
    pub fn load_covered_tiles(&mut self, vector_name: &str, range: TileRange, url_template: &str)
        -> (urls: Vec<String>)
        ensures
            final(self)@ == claimed(old(self)@, vector_name@, range.tiles().to_set()),
            views(urls@) == requests(old(self)@, vector_name@, range.tiles(), url_template@),
    {
        let covered = get_covered_tiles(range);
        let mut urls: Vec<String> = Vec::new();
        let mut i: usize = 0;
        proof {
            lemma_views_empty::<String>();
            assert(covered@.take(0) =~= Seq::<VectorTileID>::empty());
            assert(self@ =~= claimed(old(self)@, vector_name@, covered@.take(0).to_set()));
        }
        while i < covered.len()
            invariant
                i <= covered.len(),
                covered@ == range.tiles(),
                self@ == claimed(old(self)@, vector_name@, covered@.take(i as int).to_set()),
                views(urls@) == requests(
                    old(self)@,
                    vector_name@,
                    covered@.take(i as int),
                    url_template@,
                ),
            decreases covered.len() - i,
        {
            let id = covered[i];
            let ghost done = covered@.take(i as int);
            let ghost upto = covered@.take(i + 1);
            proof {
                assert(upto.drop_last() =~= done);
                assert(upto.last() == id);
                assert(upto.to_set() =~= done.to_set().insert(id)) by {
                    assert forall|t: VectorTileID| upto.contains(t) <==> done.contains(t) || t
                        == id by {
                        if done.contains(t) {
                            let j = choose|j: int| 0 <= j < done.len() && done[j] == t;
                            assert(upto[j] == t);
                        }
                        if upto.contains(t) {
                            let j = choose|j: int| 0 <= j < upto.len() && upto[j] == t;
                            if j < i {
                                assert(done[j] == t);
                            }
                        }
                        assert(upto[i as int] == id);
                    }
                }
                if done.contains(id) {
                    let j = choose|j: int| 0 <= j < done.len() && done[j] == id;
                    range.lemma_tiles_distinct(j, i as int);
                }
            }
            let ghost now = self@;
            if self.claim(vector_name, &id) {
                let url = get_tile_request_url(&id, url_template);
                proof {
                    lemma_views_push(urls@, url);
                }
                urls.push(url);
            }
            assert(self@ =~= claimed(old(self)@, vector_name@, upto.to_set()));
            i = i + 1;
        }
        assert(covered@.take(covered.len() as int) =~= covered@);
        urls
    }

    /// Acts on a tile source that has become known. The source goes by its
    /// name in upper case. Where `zoom` is among the zoom levels `avail_zooms`
    /// at which the source has tiles, decides what to fetch for `range` as
    /// `load_covered_tiles` does; else does nothing.
    pub fn on_manifest_loaded(
        &mut self,
        name: &str,
        url_template: &str,
        avail_zooms: &Vec<u64>,
        zoom: u64,
        range: TileRange,
    ) -> (urls: Vec<String>)
        ensures
            avail_zooms@.contains(zoom) ==> final(self)@ == claimed(
                old(self)@,
                uppercase(name@),
                range.tiles().to_set(),
            ) && views(urls@) == requests(
                old(self)@,
                uppercase(name@),
                range.tiles(),
                url_template@,
            ),
            !avail_zooms@.contains(zoom) ==> final(self)@ == old(self)@ && urls@.len() == 0,
    {
        if has_zoom(avail_zooms, zoom) {
            let vector_name = to_uppercase(name);
            self.load_covered_tiles(vector_name.as_str(), range, url_template)
        } else {
            Vec::new()
        }
    }

    /// Takes in the bytes of the fetch from `url`. Bytes that decode become
    /// the tile of the source and the place that `url` names, in the place of
    /// any tile that was there, and are reported for the observer. No bytes,
    /// bytes that are no tile, or an address that names no tile are reported
    /// as the failure they are, and leave every present tile as it was.
    pub fn on_task_success(&mut self, url: &str, data: Option<Vec<u8>>) -> (r: Result<
        TileLoaded,
        LoadFailure,
    >)
        ensures
            final(self)@ == after_success(old(self)@, url@, data_view(data)),
            reports(r, spec_arrival(url@, data_view(data))),
    {
        let decoded = match data {
            None => Err(LoadFailure::NoData),
            Some(bytes) => match VectorTileModel::decode(bytes) {
                Ok(tile) => Ok(tile),
                Err(e) => Err(LoadFailure::Malformed(e)),
            },
        };
        let id = match get_tile_id_from_url(url) {
            Some(id) => id,
            None => {
                return match decoded {
                    Ok(_) => Err(LoadFailure::Unroutable),
                    Err(failure) => Err(failure),
                };
            },
        };
        let name = get_vector_tile_name_from_url(url);
        match decoded {
            Ok(tile) => {
                let tile = Arc::new(tile);
                self.cache.put(name.as_str(), &id, TileState::Present(share_tile(&tile)));
                Ok(TileLoaded { name, id, tile })
            },
            Err(failure) => {
                self.settle(name.as_str(), &id);
                Err(failure)
            },
        }
    }

    /// Takes in the failure of the fetch from `url`: a tile that was being
    /// fetched is absent again and may be asked for anew; every present tile
    /// stays as it was.
    pub fn on_task_failure(&mut self, url: &str, map_error: MapError) -> (failure: LoadFailure)
        ensures
            final(self)@ == after_failure(old(self)@, url@),
            failure == LoadFailure::Transport(map_error),
    {
        match get_tile_id_from_url(url) {
            Some(id) => {
                let name = get_vector_tile_name_from_url(url);
                self.settle(name.as_str(), &id);
            },
            None => {},
        }
        LoadFailure::Transport(map_error)
    }

    /// Takes in what the fetch from `url` brought back, bytes or failure, and
    /// acts on exactly one of the two.
    pub fn on_task_complete(&mut self, url: &str, outcome: TaskReturn) -> (r: Result<
        TileLoaded,
        LoadFailure,
    >)
        ensures
            match outcome {
                Ok(data) => final(self)@ == after_success(old(self)@, url@, data_view(data))
                    && reports(r, spec_arrival(url@, data_view(data))),
                Err(e) => final(self)@ == after_failure(old(self)@, url@) && r == Err::<
                    TileLoaded,
                    LoadFailure,
                >(LoadFailure::Transport(e)),
            },
    {
        match outcome {
            Ok(data) => self.on_task_success(url, data),
            Err(e) => Err(self.on_task_failure(url, e)),
        }
    }

    /// Makes a tile that was being fetched absent again.
    fn settle(&mut self, name: &str, id: &VectorTileID)
        ensures
            final(self)@ == settled(old(self)@, (name@, *id)),
    {
        match self.cache.status(name, id) {
            TileStatus::Fetching => {
                self.cache.clear(name, id);
            },
            _ => {},
        }
    }
}

/// Whether `zoom` is among `avail_zooms`.
pub fn has_zoom(avail_zooms: &Vec<u64>, zoom: u64) -> (b: bool)
    ensures
        b == avail_zooms@.contains(zoom),
{
    let mut i: usize = 0;
    while i < avail_zooms.len()
        invariant
            i <= avail_zooms.len(),
            forall|j: int| 0 <= j < i ==> avail_zooms[j] != zoom,
        decreases avail_zooms.len() - i,
    {
        if avail_zooms[i] == zoom {
            return true;
        }
        i = i + 1;
    }
    false
}

/// No address is asked for of a tile that has a state.
pub proof fn lemma_requests_of_known_tiles(
    states: TileStates,
    name: Seq<char>,
    tiles: Seq<VectorTileID>,
    template: Seq<char>,
)
    requires
        forall|i: int| 0 <= i < tiles.len() ==> states.contains_key((name, #[trigger] tiles[i])),
    ensures
        requests(states, name, tiles, template) == Seq::<Seq<char>>::empty(),
    decreases tiles.len(),
{
    if tiles.len() > 0 {
        assert forall|i: int| 0 <= i < tiles.drop_last().len() implies states.contains_key(
            (name, #[trigger] tiles.drop_last()[i]),
        ) by {
            assert(tiles.drop_last()[i] == tiles[i]);
        }
        lemma_requests_of_known_tiles(states, name, tiles.drop_last(), template);
        assert(tiles.last() == tiles[tiles.len() - 1]);
    }
}

/// Deciding twice for one viewport, with no fetch come back in between, is
/// deciding once: the second decision asks for no address and changes no
/// state.
pub proof fn lemma_second_load_is_idle(
    states: TileStates,
    name: Seq<char>,
    range: TileRange,
    template: Seq<char>,
)
    ensures
        claimed(claimed(states, name, range.tiles().to_set()), name, range.tiles().to_set())
            == claimed(states, name, range.tiles().to_set()),
        requests(claimed(states, name, range.tiles().to_set()), name, range.tiles(), template)
            == Seq::<Seq<char>>::empty(),
{
    let tiles = range.tiles();
    let once = claimed(states, name, tiles.to_set());
    assert(claimed(once, name, tiles.to_set()) =~= once);
    assert forall|i: int| 0 <= i < tiles.len() implies once.contains_key(
        (name, #[trigger] tiles[i]),
    ) by {
        assert(tiles.contains(tiles[i]));
    }
    lemma_requests_of_known_tiles(once, name, tiles, template);
}

/// Deciding what to fetch changes no state that a tile has: a present tile
/// stays present with the same content, a tile being fetched stays so.
pub proof fn lemma_claim_keeps_states(
    states: TileStates,
    name: Seq<char>,
    tiles: Set<VectorTileID>,
    key: TileKey,
)
    requires
        states.contains_key(key),
    ensures
        claimed(states, name, tiles).contains_key(key),
        claimed(states, name, tiles)[key] == states[key],
{
}

/// Of two fetches of one address that both bring a tile, the one that comes
/// back last decides: the states are as if the earlier had never come back.
pub proof fn lemma_last_arrival_stands(
    states: TileStates,
    url: Seq<char>,
    first: Option<Seq<u8>>,
    second: Option<Seq<u8>>,
)
    requires
        spec_arrival(url, second) is Ok,
    ensures
        after_success(after_success(states, url, first), url, second) == after_success(
            states,
            url,
            second,
        ),
{
    assert(after_success(after_success(states, url, first), url, second) =~= after_success(
        states,
        url,
        second,
    ));
}

/// A fetch that comes back, with whatever bytes, changes the state of no tile
/// but the one that its address names.
pub proof fn lemma_arrival_touches_one_tile(
    states: TileStates,
    url: Seq<char>,
    data: Option<Seq<u8>>,
    other: TileKey,
)
    requires
        route(url) != Some(other),
    ensures
        after_success(states, url, data).contains_key(other) == states.contains_key(other),
        states.contains_key(other) ==> after_success(states, url, data)[other] == states[other],
        after_failure(states, url).contains_key(other) == states.contains_key(other),
        states.contains_key(other) ==> after_failure(states, url)[other] == states[other],
{
}

/// A fetch that brings no tile, be it for want of bytes, for bytes that do
/// not decode or for an address that names no tile, leaves the present tiles
/// as they were: none is added, none is lost and none is changed.
pub proof fn lemma_failed_arrival_keeps_tiles(
    states: TileStates,
    url: Seq<char>,
    data: Option<Seq<u8>>,
    key: TileKey,
)
    requires
        spec_arrival(url, data) is Err,
    ensures
        status_in(after_success(states, url, data), key) == TileStatus::Present <==> status_in(
            states,
            key,
        ) == TileStatus::Present,
        status_in(states, key) == TileStatus::Present ==> after_success(states, url, data)[key]
            == states[key],
        status_in(after_failure(states, url), key) == TileStatus::Present <==> status_in(
            states,
            key,
        ) == TileStatus::Present,
        status_in(states, key) == TileStatus::Present ==> after_failure(states, url)[key]
            == states[key],
{
}

/// A tile that was asked for by an address made from the template of its
/// source, and whose bytes decode, becomes present under that source and its
/// own place: the address is all that ties the bytes to the tile, and it
/// suffices.
pub proof fn lemma_fetched_tile_finds_its_place(
    states: TileStates,
    prefix: Seq<char>,
    name: Seq<char>,
    query: Seq<char>,
    id: VectorTileID,
    bytes: Seq<u8>,
)
    requires
        !prefix.contains('{'),
        !name.contains('{') && !name.contains('/') && !name.contains('?'),
        !query.contains('{') && !query.contains('/'),
        spec_tile(bytes) is Ok,
    ensures
        route(substitute(tile_template(prefix, name, query), id)) == Some((name, id)),
        after_success(
            states,
            substitute(tile_template(prefix, name, query), id),
            Some(bytes),
        ) == states.insert((name, id), TileStateView::Present(spec_tile(bytes)->Ok_0)),
{
    lemma_template_gives_address(prefix, name, query, id);
    lemma_address_names_its_tile(prefix, id, name, query);
}

/// A tile is present after a fetch has come back only if it was present
/// before with the same content or is the tile that the bytes decode to,
/// whole: no part of a tile that failed to decode is ever present.
pub proof fn lemma_present_tiles_are_decoded(
    states: TileStates,
    url: Seq<char>,
    data: Option<Seq<u8>>,
    key: TileKey,
)
    requires
        status_in(after_success(states, url, data), key) == TileStatus::Present,
    ensures
        (status_in(states, key) == TileStatus::Present && after_success(states, url, data)[key]
            == states[key]) || (spec_arrival(url, data) matches Ok((k, tile)) && k == key
            && after_success(states, url, data)[key] == TileStateView::Present(tile)),
{
}

} // verus!
