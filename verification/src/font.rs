//! Glyphs of the bitmap font that text is drawn with.

use noto_sans_mono_bitmap::{FontWeight, RasterHeight};
use vstd::prelude::*;

verus! {

/// Width in pixels of every glyph of the font.
pub const GLYPH_WIDTH: usize = 9;

/// Height in pixels of every glyph of the font.
pub const GLYPH_HEIGHT: usize = 16;

/// A rasterised character: rows of pixel intensities, top row first.
#[derive(Clone, Copy, Debug)]
pub struct Glyph {
    /// One slice per row, one byte per pixel, 0 for background.
    pub raster: &'static [&'static [u8]],
    /// Columns the glyph occupies.
    pub width: usize,
    /// Rows the glyph occupies.
    pub height: usize,
}

impl View for Glyph {
    type V = Seq<Seq<u8>>;

    /// The intensities row by row.
    open spec fn view(&self) -> Seq<Seq<u8>> {
        Seq::new(self.raster@.len(), |i: int| self.raster@[i]@)
    }
}

impl Glyph {
    /// The raster has `height` rows of `width` pixels each.
    pub open spec fn wf(&self) -> bool {
        &&& self@.len() == self.height
        &&& forall|i: int| 0 <= i < self@.len() ==> (#[trigger] self@[i]).len() == self.width
    }
}

/// The raster that the font holds for `c`, or `None` for a character it
/// does not know.
pub uninterp spec fn raster_of(c: char) -> Option<Seq<Seq<u8>>>;

/// Looks `c` up in the regular weight of the font at raster height 16, with
/// `noto_sans_mono_bitmap::get_raster`. Trusted: the result is the font's
/// raster for `c`, and every raster of that size has `GLYPH_HEIGHT` rows of
/// `GLYPH_WIDTH` bytes.
#[verifier::external_body]
pub(crate) fn get_raster(c: char) -> (glyph: Option<Glyph>)
    ensures
        raster_of(c) == match glyph {
            Some(g) => Some(g@),
            None => None,
        },
        glyph matches Some(g) ==> g.wf() && g.width == GLYPH_WIDTH && g.height == GLYPH_HEIGHT,
{
    match noto_sans_mono_bitmap::get_raster(c, FontWeight::Regular, RasterHeight::Size16) {
        Some(rendered) => Some(
            Glyph { raster: rendered.raster(), width: rendered.width(), height: rendered.height() },
        ),
        None => None,
    }
}

} // verus!
