//! Pages of the paginated export: the two page sizes and the scale that
//! makes an image fill its page.

use vstd::prelude::*;
use crate::text::text_equals;

verus! {

/// The aspect ratio that selects the standard page.
pub const RATIO_STANDARD: &'static str = "4:3";

/// The resolution, in pixels per inch, at which an image has its natural
/// size on a page.
pub const NATURAL_DPI: u64 = 300;

/// Hundredths of a millimetre in one inch.
pub const HUNDREDTHS_PER_INCH: u64 = 2540;

/// The size of every page of a document.
#[derive(Debug, Clone, Copy, PartialEq, Eq, Structural)]
pub enum PagePreset {
    /// 297 mm by 222.75 mm, for slides of ratio 4:3.
    Standard,
    /// 340 mm by 191.25 mm, for slides of ratio 16:9.
    Widescreen,
}

/// The preset for an aspect ratio: the standard page for `4:3`, the
/// widescreen page for every other value.
pub open spec fn preset_of(aspect_ratio: Seq<char>) -> PagePreset {
    if aspect_ratio == RATIO_STANDARD@ {
        PagePreset::Standard
    } else {
        PagePreset::Widescreen
    }
}

/// The width of a page, in hundredths of a millimetre.
pub open spec fn page_width(preset: PagePreset) -> nat {
    match preset {
        PagePreset::Standard => 29700,
        PagePreset::Widescreen => 34000,
    }
}

/// The height of a page, in hundredths of a millimetre.
pub open spec fn page_height(preset: PagePreset) -> nat {
    match preset {
        PagePreset::Standard => 22275,
        PagePreset::Widescreen => 19125,
    }
}

/// Selects the page size for a project's aspect ratio.
pub fn page_preset(aspect_ratio: &str) -> (preset: PagePreset)
    ensures
        preset == preset_of(aspect_ratio@),
{
    if text_equals(aspect_ratio, RATIO_STANDARD) {
        PagePreset::Standard
    } else {
        PagePreset::Widescreen
    }
}

impl PagePreset {
    /// The width of the page, in hundredths of a millimetre.
    pub fn width(self) -> (w: u32)
        ensures
            w == page_width(self),
    {
        match self {
            PagePreset::Standard => 29700,
            PagePreset::Widescreen => 34000,
        }
    }

    /// The height of the page, in hundredths of a millimetre.
    pub fn height(self) -> (h: u32)
        ensures
            h == page_height(self),
    {
        match self {
            PagePreset::Standard => 22275,
            PagePreset::Widescreen => 19125,
        }
    }
}

/// Each page has the ratio it is named for: the standard page is 4 wide to
/// 3 high, the widescreen page 16 wide to 9 high.
pub proof fn lemma_preset_ratio(preset: PagePreset)
    ensures
        preset == PagePreset::Standard ==> page_width(preset) * 3 == page_height(preset) * 4,
        preset == PagePreset::Widescreen ==> page_width(preset) * 9 == page_height(preset) * 16,
{
}

/// A scale factor as a fraction.
#[derive(Debug, Clone, Copy, PartialEq, Eq, Structural)]
pub struct Ratio {
    pub numerator: u64,
    pub denominator: u64,
}

/// The factor by which an image `pixels` wide must be stretched to span
/// `extent` hundredths of a millimetre. At its natural size the image spans
/// `pixels / 300` inches.
pub open spec fn fill_ratio(extent: nat, pixels: nat) -> (int, int) {
    (extent * NATURAL_DPI, HUNDREDTHS_PER_INCH * pixels)
}

/// Computes the factor that stretches `pixels` pixels over `extent`
/// hundredths of a millimetre; `None` for an image without pixels, which
/// no factor can stretch.
pub fn fill_scale(extent: u32, pixels: u32) -> (scale: Option<Ratio>)
    ensures
        scale is Some <==> pixels > 0,
        scale matches Some(r) ==> (r.numerator as int, r.denominator as int) == fill_ratio(
            extent as nat,
            pixels as nat,
        ) && r.denominator > 0,
{
    if pixels == 0 {
        None
    } else {
        let numerator: u64 = (extent as u64) * NATURAL_DPI;
        let denominator: u64 = HUNDREDTHS_PER_INCH * (pixels as u64);
        Some(Ratio { numerator, denominator })
    }
}

/// Stretched by its fill ratio, an image spans exactly the extent asked
/// for: its natural span in hundredths of a millimetre, `pixels * 2540 /
/// 300`, times the ratio, is `extent`.
pub proof fn lemma_fill_is_exact(extent: nat, pixels: nat)
    requires
        pixels > 0,
    ensures
        fill_ratio(extent, pixels).1 > 0,
        pixels * 2540 * fill_ratio(extent, pixels).0 == extent * 300 * fill_ratio(
            extent,
            pixels,
        ).1,
{
    assert(pixels * 2540 * (extent * 300) == extent * 300 * (2540 * pixels)) by (nonlinear_arith);
}

} // verus!
