//! The manifest of a tile source: where its tiles are to be had and at which
//! zoom levels.

use crate::views::lemma_views_empty;
use crate::views::lemma_views_push;
use crate::views::views;
use vstd::prelude::*;

verus! {

/// The kind of tiles that a source has.
#[derive(Debug, Clone, Copy, PartialEq, Eq, Structural)]
pub enum ManifestType {
    Vector,
    Raster,
}

/// The members of a manifest document, each as the document has it: a member
/// that the document lacks, or has as another kind of value than a manifest
/// wants, is `None`, and so is an item of a list that is of another kind than
/// the list wants. A floating-point number is held as its bit pattern.
#[derive(Debug, Clone, PartialEq)]
pub struct ManifestFields {
    pub name: Option<String>,
    pub scheme: Option<String>,
    pub minzoom: Option<i64>,
    pub maxzoom: Option<i64>,
    pub tilezooms: Option<Vec<Option<u64>>>,
    pub tilejson: Option<String>,
    pub prefetchable: Option<bool>,
    pub priority: Option<i64>,
    pub bounds: Option<Vec<Option<u64>>>,
    pub center: Option<Vec<Option<u64>>>,
    pub tiles: Option<Vec<Option<String>>>,
}

/// A manifest. `tiles` holds the address templates of the source and
/// `tilezooms` the zoom levels at which it has tiles; `bounds` and `center`
/// hold the bit patterns of floating-point numbers.
#[derive(Debug, Clone, PartialEq)]
pub struct ManifestModel {
    pub kind: ManifestType,
    pub name: String,
    pub scheme: String,
    pub minzoom: i64,
    pub maxzoom: i64,
    pub tilezooms: Vec<u64>,
    pub tilejson: String,
    pub prefetchable: bool,
    pub priority: i64,
    pub bounds: Vec<u64>,
    pub center: Vec<u64>,
    pub tiles: Vec<String>,
}

/// A manifest as the contracts see it.
pub struct ManifestView {
    pub kind: ManifestType,
    pub name: Seq<char>,
    pub scheme: Seq<char>,
    pub minzoom: i64,
    pub maxzoom: i64,
    pub tilezooms: Seq<u64>,
    pub tilejson: Seq<char>,
    pub prefetchable: bool,
    pub priority: i64,
    pub bounds: Seq<u64>,
    pub center: Seq<u64>,
    pub tiles: Seq<Seq<char>>,
}

impl View for ManifestModel {
    type V = ManifestView;

    open spec fn view(&self) -> ManifestView {
        ManifestView {
            kind: self.kind,
            name: self.name@,
            scheme: self.scheme@,
            minzoom: self.minzoom,
            maxzoom: self.maxzoom,
            tilezooms: self.tilezooms@,
            tilejson: self.tilejson@,
            prefetchable: self.prefetchable,
            priority: self.priority,
            bounds: self.bounds@,
            center: self.center@,
            tiles: views(self.tiles@),
        }
    }
}

/// The text of a member, or no text where the member is wanting.
pub open spec fn text_or_empty(member: Option<String>) -> Seq<char> {
    match member {
        Some(text) => text@,
        None => Seq::empty(),
    }
}

/// The number of a member, or zero where the member is wanting.
pub open spec fn int_or_zero(member: Option<i64>) -> i64 {
    match member {
        Some(v) => v,
        None => 0,
    }
}

/// The numbers of a list, zero for each item that is wanting.
pub open spec fn numbers_or_zero(items: Seq<Option<u64>>) -> Seq<u64> {
    Seq::new(
        items.len(),
        |i: int|
            match items[i] {
                Some(v) => v,
                None => 0,
            },
    )
}

/// The texts of a list, no text for each item that is wanting.
pub open spec fn texts_or_empty(items: Seq<Option<String>>) -> Seq<Seq<char>> {
    Seq::new(items.len(), |i: int| text_or_empty(items[i]))
}

/// The manifest of kind `kind` that the members `fields` make: a member that
/// is wanting has its default, which is no text, zero or `false`. There is no
/// manifest where one of the four lists is wanting.
pub open spec fn spec_manifest(kind: ManifestType, fields: ManifestFields) -> Option<
    ManifestView,
> {
    if fields.tilezooms is Some && fields.bounds is Some && fields.center is Some
        && fields.tiles is Some {
        Some(
            ManifestView {
                kind,
                name: text_or_empty(fields.name),
                scheme: text_or_empty(fields.scheme),
                minzoom: int_or_zero(fields.minzoom),
                maxzoom: int_or_zero(fields.maxzoom),
                tilezooms: numbers_or_zero(fields.tilezooms->0@),
                tilejson: text_or_empty(fields.tilejson),
                prefetchable: fields.prefetchable == Some(true),
                priority: int_or_zero(fields.priority),
                bounds: numbers_or_zero(fields.bounds->0@),
                center: numbers_or_zero(fields.center->0@),
                tiles: texts_or_empty(fields.tiles->0@),
            },
        )
    } else {
        None
    }
}

/// The text of a member, or no text.
pub(crate) fn take_text(member: &Option<String>) -> (text: String)
    ensures
        text@ == text_or_empty(*member),
{
    match member {
        Some(text) => text.clone(),
        None => String::new(),
    }
}

/// The number of a member, or zero.
pub(crate) fn take_int(member: &Option<i64>) -> (v: i64)
    ensures
        v == int_or_zero(*member),
{
    match member {
        Some(v) => *v,
        None => 0,
    }
}

/// The numbers of a list, zero for each item that is wanting.
fn take_numbers(items: &Vec<Option<u64>>) -> (out: Vec<u64>)
    ensures
        out@ == numbers_or_zero(items@),
{
    let mut out: Vec<u64> = Vec::new();
    let mut i: usize = 0;
    while i < items.len()
        invariant
            i <= items.len(),
            out@ == numbers_or_zero(items@.take(i as int)),
        decreases items.len() - i,
    {
        let v = match items[i] {
            Some(v) => v,
            None => 0,
        };
        out.push(v);
        i = i + 1;
        assert(out@ =~= numbers_or_zero(items@.take(i as int)));
    }
    assert(items@.take(items.len() as int) =~= items@);
    out
}

/// The texts of a list, no text for each item that is wanting.
fn take_texts(items: &Vec<Option<String>>) -> (out: Vec<String>)
    ensures
        views(out@) == texts_or_empty(items@),
{
    let mut out: Vec<String> = Vec::new();
    let mut i: usize = 0;
    proof {
        lemma_views_empty::<String>();
    }
    while i < items.len()
        invariant
            i <= items.len(),
            views(out@) == texts_or_empty(items@.take(i as int)),
        decreases items.len() - i,
    {
        let text = take_text(&items[i]);
        proof {
            lemma_views_push(out@, text);
        }
        out.push(text);
        i = i + 1;
        assert(views(out@) =~= texts_or_empty(items@.take(i as int)));
    }
    assert(items@.take(items.len() as int) =~= items@);
    out
}

impl ManifestModel {
    /// A manifest of vector tiles with nothing in it.
    pub fn new() -> (m: ManifestModel)
        ensures
            m@ == (ManifestView {
                kind: ManifestType::Vector,
                name: Seq::empty(),
                scheme: Seq::empty(),
                minzoom: 0,
                maxzoom: 0,
                tilezooms: Seq::empty(),
                tilejson: Seq::empty(),
                prefetchable: false,
                priority: 0,
                bounds: Seq::empty(),
                center: Seq::empty(),
                tiles: Seq::empty(),
            }),
    {
        proof {
            lemma_views_empty::<String>();
        }
        ManifestModel {
            kind: ManifestType::Vector,
            name: String::new(),
            scheme: String::new(),
            minzoom: 0,
            maxzoom: 0,
            tilezooms: Vec::new(),
            tilejson: String::new(),
            prefetchable: false,
            priority: 0,
            bounds: Vec::new(),
            center: Vec::new(),
            tiles: Vec::new(),
        }
    }

    /// Makes the manifest of kind `type_` from the members of a document. A
    /// member that is wanting has its default; a list that is wanting leaves
    /// no manifest.
    pub fn parse(type_: &ManifestType, fields: &ManifestFields) -> (r: Option<ManifestModel>)
        ensures
            match spec_manifest(*type_, *fields) {
                Some(m) => r is Some && r->Some_0@ == m,
                None => r is None,
            },
    {
        let tilezooms = match &fields.tilezooms {
            Some(items) => take_numbers(items),
            None => {
                return None;
            },
        };
        let bounds = match &fields.bounds {
            Some(items) => take_numbers(items),
            None => {
                return None;
            },
        };
        let center = match &fields.center {
            Some(items) => take_numbers(items),
            None => {
                return None;
            },
        };
        let tiles = match &fields.tiles {
            Some(items) => take_texts(items),
            None => {
                return None;
            },
        };
        let prefetchable = match fields.prefetchable {
            Some(b) => b,
            None => false,
        };
        Some(
            ManifestModel {
                kind: *type_,
                name: take_text(&fields.name),
                scheme: take_text(&fields.scheme),
                minzoom: take_int(&fields.minzoom),
                maxzoom: take_int(&fields.maxzoom),
                tilezooms,
                tilejson: take_text(&fields.tilejson),
                prefetchable,
                priority: take_int(&fields.priority),
                bounds,
                center,
                tiles,
            },
        )
    }
}

} // verus!
