//! What to do with a tile source that a style names, and what to tell of a
//! manifest once it is at hand.

use crate::manifest_model::spec_manifest;
use crate::manifest_model::ManifestFields;
use crate::manifest_model::ManifestModel;
use crate::manifest_model::ManifestType;
use crate::manifest_model::ManifestView;
use crate::tile_url::chars_of;
use crate::tile_url::starts_with;
use crate::tile_url::string_of;
use crate::views::views;
use vstd::prelude::*;

verus! {

/// The start of an address that stands for the tile discovery service.
pub const TMP_URI_PREFIX: &'static str = "/tile-discovery-api";

/// The host of the tile discovery service.
pub const UB_DOMAIN: &'static str = "REMOVED";

/// The path of the tile discovery service on its host.
pub const UB_ENDPOINT: &'static str = "/rt/msd";

/// The kind of tiles that the word `kind` of a style names: raster tiles for
/// `raster`, vector tiles for every other word.
pub open spec fn spec_manifest_type(kind: Seq<char>) -> ManifestType {
    if kind == "raster"@ {
        ManifestType::Raster
    } else {
        ManifestType::Vector
    }
}

/// The address to fetch for `uri`: an address that begins with the prefix of
/// the tile discovery service has the host and the path of the service in the
/// place of the prefix; any other address stays.
pub open spec fn spec_convert_uber_url(uri: Seq<char>) -> Seq<char> {
    if starts_with(uri, TMP_URI_PREFIX@) {
        UB_DOMAIN@ + UB_ENDPOINT@ + uri.skip(TMP_URI_PREFIX@.len() as int)
    } else {
        uri
    }
}

/// What a style says of one tile source. `kind` is the word under `type`,
/// `None` where there is none or it is no text. `has_url` says whether the
/// source has a member `url`, and `url` holds it where it is text.
#[derive(Debug, Clone, PartialEq)]
pub struct SourceEntry {
    pub kind: Option<String>,
    pub has_url: bool,
    pub url: Option<String>,
    pub fields: ManifestFields,
}

/// What to do with a tile source.
#[derive(Debug, Clone, PartialEq)]
pub enum ManifestAction {
    /// Fetch the manifest from this address.
    Fetch(String),
    /// The style holds the manifest itself: this one.
    Use(ManifestModel),
}

/// The view of what to do with a tile source.
pub enum ManifestActionView {
    Fetch(Seq<char>),
    Use(ManifestView),
}

impl View for ManifestAction {
    type V = ManifestActionView;

    open spec fn view(&self) -> ManifestActionView {
        match self {
            ManifestAction::Fetch(url) => ManifestActionView::Fetch(url@),
            ManifestAction::Use(model) => ManifestActionView::Use(model@),
        }
    }
}

/// Why a style's entry for a tile source cannot be acted on.
#[derive(Debug, Clone, Copy, PartialEq, Eq, Structural)]
pub enum ManifestError {
    /// The entry names no kind of tiles.
    NoType,
    /// The entry has a `url` that is no text.
    UrlNotText,
    /// The manifest lacks one of its lists.
    Incomplete,
}

/// What to do with the tile source `entry`: an entry with a `url` has its
/// manifest fetched from there, by way of the tile discovery service where
/// the address asks for it; an entry without one is the manifest.
pub open spec fn spec_load_manifest(entry: SourceEntry) -> Result<
    ManifestActionView,
    ManifestError,
> {
    match entry.kind {
        None => Err(ManifestError::NoType),
        Some(kind) => if entry.has_url {
            match entry.url {
                None => Err(ManifestError::UrlNotText),
                Some(url) => Ok(ManifestActionView::Fetch(spec_convert_uber_url(url@))),
            }
        } else {
            match spec_manifest(spec_manifest_type(kind@), entry.fields) {
                None => Err(ManifestError::Incomplete),
                Some(model) => Ok(ManifestActionView::Use(model)),
            }
        },
    }
}

/// Whether `text` begins with `prefix`.
fn has_prefix(text: &Vec<char>, prefix: &Vec<char>) -> (b: bool)
    ensures
        b == starts_with(text@, prefix@),
{
    if prefix.len() > text.len() {
        return false;
    }
    let mut i: usize = 0;
    while i < prefix.len()
        invariant
            i <= prefix.len() <= text.len(),
            forall|j: int| 0 <= j < i ==> text[j] == prefix[j],
        decreases prefix.len() - i,
    {
        if text[i] != prefix[i] {
            assert(text@.take(prefix.len() as int)[i as int] != prefix@[i as int]);
            return false;
        }
        i = i + 1;
    }
    assert(text@.take(prefix.len() as int) =~= prefix@);
    true
}

/// Adds the characters of `more` from index `from` on to `out`.
fn push_from(out: &mut Vec<char>, more: &Vec<char>, from: usize)
    requires
        from <= more.len(),
    ensures
        final(out)@ == old(out)@ + more@.skip(from as int),
{
    let mut i: usize = from;
    assert(more@.skip(from as int).take(0) =~= Seq::<char>::empty());
    assert(out@ =~= old(out)@ + more@.skip(from as int).take(0));
    while i < more.len()
        invariant
            from <= i <= more.len(),
            out@ == old(out)@ + more@.skip(from as int).take(i - from),
        decreases more.len() - i,
    {
        out.push(more[i]);
        i = i + 1;
        assert(out@ =~= old(out)@ + more@.skip(from as int).take(i - from));
    }
    assert(more@.skip(from as int).take(more.len() - from) =~= more@.skip(from as int));
}

/// Turns the address `uri` of a manifest into the address to fetch.
pub fn convert_uber_url(uri: &str) -> (url: String)
    ensures
        url@ == spec_convert_uber_url(uri@),
{
    let text = chars_of(uri);
    let prefix = chars_of(TMP_URI_PREFIX);
    if has_prefix(&text, &prefix) {
        let mut out = chars_of(UB_DOMAIN);
        let endpoint = chars_of(UB_ENDPOINT);
        push_from(&mut out, &endpoint, 0);
        push_from(&mut out, &text, prefix.len());
        assert(endpoint@.skip(0) =~= endpoint@);
        string_of(&out)
    } else {
        string_of(&text)
    }
}

/// The kind of tiles that the word `kind` names.
pub fn manifest_type_of(kind: &str) -> (t: ManifestType)
    ensures
        t == spec_manifest_type(kind@),
{
    if kind.to_owned() == "raster".to_owned() {
        ManifestType::Raster
    } else {
        ManifestType::Vector
    }
}

/// Decides what to do with a tile source that a style names.
pub fn load_manifest(entry: &SourceEntry) -> (r: Result<ManifestAction, ManifestError>)
    ensures
        match spec_load_manifest(*entry) {
            Ok(action) => r is Ok && r->Ok_0@ == action,
            Err(e) => r is Err && r->Err_0 == e,
        },
{
    let kind = match &entry.kind {
        Some(kind) => kind,
        None => {
            return Err(ManifestError::NoType);
        },
    };
    if entry.has_url {
        match &entry.url {
            Some(url) => Ok(ManifestAction::Fetch(convert_uber_url(url.as_str()))),
            None => Err(ManifestError::UrlNotText),
        }
    } else {
        let m_type = manifest_type_of(kind.as_str());
        match ManifestModel::parse(&m_type, &entry.fields) {
            Some(model) => Ok(ManifestAction::Use(model)),
            None => Err(ManifestError::Incomplete),
        }
    }
}

/// What the observer of a manifest is told once the manifest is at hand: the
/// first of its address templates and the zoom levels at which the source has
/// tiles. A manifest without a template tells nothing.
pub fn manifest_notice(model: &ManifestModel) -> (r: Option<(String, Vec<u64>)>)
    ensures
        r is Some <==> model@.tiles.len() > 0,
        r matches Some((template, zooms)) ==> template@ == model@.tiles[0] && zooms@
            == model@.tilezooms,
{
    if model.tiles.len() == 0 {
        return None;
    }
    let template = model.tiles[0].clone();
    let mut zooms: Vec<u64> = Vec::new();
    let mut i: usize = 0;
    while i < model.tilezooms.len()
        invariant
            i <= model.tilezooms.len(),
            zooms@ == model.tilezooms@.take(i as int),
        decreases model.tilezooms.len() - i,
    {
        zooms.push(model.tilezooms[i]);
        i = i + 1;
        assert(zooms@ =~= model.tilezooms@.take(i as int));
    }
    assert(model.tilezooms@.take(model.tilezooms.len() as int) =~= model.tilezooms@);
    assert(views(model.tiles@)[0] == model.tiles@[0]@);
    Some((template, zooms))
}

} // verus!
