//! The head of a style: its name, its zoom range and where its sprites and
//! glyphs are to be had.

use crate::manifest_model::int_or_zero;
use crate::manifest_model::take_int;
use crate::manifest_model::take_text;
use crate::manifest_model::text_or_empty;
use vstd::prelude::*;

verus! {

/// The members of a style document, each as the document has it: a member
/// that the document lacks, or has as another kind of value than a style
/// wants, is `None`. `has_layers` and `has_sources` say whether the document
/// has a list of layers and a table of sources.
#[derive(Debug, Clone, PartialEq)]
pub struct StyleFields {
    pub name: Option<String>,
    pub minzoom: Option<i64>,
    pub maxzoom: Option<i64>,
    pub sprite: Option<String>,
    pub glyphs: Option<String>,
    pub has_layers: bool,
    pub has_sources: bool,
}

/// The head of a style.
#[derive(Debug, Clone, PartialEq)]
pub struct StyleModel {
    pub name: String,
    pub min_zoom: i64,
    pub max_zoom: i64,
    pub sprite_url: String,
    pub glyph_template_url: String,
}

/// The head of a style as the contracts see it.
pub struct StyleView {
    pub name: Seq<char>,
    pub min_zoom: i64,
    pub max_zoom: i64,
    pub sprite_url: Seq<char>,
    pub glyph_template_url: Seq<char>,
}

impl View for StyleModel {
    type V = StyleView;

    open spec fn view(&self) -> StyleView {
        StyleView {
            name: self.name@,
            min_zoom: self.min_zoom,
            max_zoom: self.max_zoom,
            sprite_url: self.sprite_url@,
            glyph_template_url: self.glyph_template_url@,
        }
    }
}

/// The head of the style that the members `fields` make: a member that is
/// wanting has its default, which is no text or zero. There is no style
/// without layers or without sources.
pub open spec fn spec_style(fields: StyleFields) -> Option<StyleView> {
    if fields.has_layers && fields.has_sources {
        Some(
            StyleView {
                name: text_or_empty(fields.name),
                min_zoom: int_or_zero(fields.minzoom),
                max_zoom: int_or_zero(fields.maxzoom),
                sprite_url: text_or_empty(fields.sprite),
                glyph_template_url: text_or_empty(fields.glyphs),
            },
        )
    } else {
        None
    }
}

impl StyleModel {
    /// The head of a style with nothing in it.
    pub fn new() -> (m: StyleModel)
        ensures
            m@ == (StyleView {
                name: Seq::empty(),
                min_zoom: 0,
                max_zoom: 0,
                sprite_url: Seq::empty(),
                glyph_template_url: Seq::empty(),
            }),
    {
        StyleModel {
            name: String::new(),
            min_zoom: 0,
            max_zoom: 0,
            sprite_url: String::new(),
            glyph_template_url: String::new(),
        }
    }

    /// Makes the head of a style from the members of a document.
    pub fn parse(fields: &StyleFields) -> (r: Option<StyleModel>)
        ensures
            match spec_style(*fields) {
                Some(m) => r is Some && r->Some_0@ == m,
                None => r is None,
            },
    {
        if !fields.has_layers || !fields.has_sources {
            return None;
        }
        Some(
            StyleModel {
                name: take_text(&fields.name),
                min_zoom: take_int(&fields.minzoom),
                max_zoom: take_int(&fields.maxzoom),
                sprite_url: take_text(&fields.sprite),
                glyph_template_url: take_text(&fields.glyphs),
            },
        )
    }
}

} // verus!
