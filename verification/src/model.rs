//! The slide graph: a project, its ordered slides, and the hotspots and text
//! overlays placed on them. Each type has a view, the mathematical value that
//! the contracts of this crate speak of.

use vstd::prelude::*;
use crate::number::{is_decimal_text, Decimal};

verus! {

/// The `link_type` of a hotspot that opens an external address. Any other
/// value makes the hotspot a link to a slide.
pub const LINK_URL: &'static str = "url";

/// The `link_type` written for a hotspot that opens another slide.
pub const LINK_SLIDE: &'static str = "slide";

/// How a hotspot is drawn.
#[derive(Debug, Clone)]
pub struct HotspotStyle {
    pub color: String,
    pub opacity: Decimal,
    pub border_radius: Decimal,
    pub icon: Option<String>,
}

/// The view of a [`HotspotStyle`].
pub struct HotspotStyleView {
    pub color: Seq<char>,
    pub opacity: Seq<char>,
    pub border_radius: Seq<char>,
    pub icon: Option<Seq<char>>,
}

impl View for HotspotStyle {
    type V = HotspotStyleView;

    open spec fn view(&self) -> HotspotStyleView {
        HotspotStyleView {
            color: self.color@,
            opacity: self.opacity@,
            border_radius: self.border_radius@,
            icon: self.icon.deep_view(),
        }
    }
}

impl DeepView for HotspotStyle {
    type V = HotspotStyleView;

    open spec fn deep_view(&self) -> HotspotStyleView {
        self@
    }
}

/// A clickable rectangle on a slide. Position and size are percentages of
/// the slide's area.
#[derive(Debug, Clone)]
pub struct Hotspot {
    pub id: String,
    pub x: Decimal,
    pub y: Decimal,
    pub w: Decimal,
    pub h: Decimal,
    pub link_type: String,
    pub target_id: Option<String>,
    pub url: Option<String>,
    pub tooltip: Option<String>,
    pub style: Option<HotspotStyle>,
}

/// The view of a [`Hotspot`].
pub struct HotspotView {
    pub id: Seq<char>,
    pub x: Seq<char>,
    pub y: Seq<char>,
    pub w: Seq<char>,
    pub h: Seq<char>,
    pub link_type: Seq<char>,
    pub target_id: Option<Seq<char>>,
    pub url: Option<Seq<char>>,
    pub tooltip: Option<Seq<char>>,
    pub style: Option<HotspotStyleView>,
}

impl View for Hotspot {
    type V = HotspotView;

    open spec fn view(&self) -> HotspotView {
        HotspotView {
            id: self.id@,
            x: self.x@,
            y: self.y@,
            w: self.w@,
            h: self.h@,
            link_type: self.link_type@,
            target_id: self.target_id.deep_view(),
            url: self.url.deep_view(),
            tooltip: self.tooltip.deep_view(),
            style: self.style.deep_view(),
        }
    }
}

impl DeepView for Hotspot {
    type V = HotspotView;

    open spec fn deep_view(&self) -> HotspotView {
        self@
    }
}

impl HotspotStyleView {
    /// True when opacity and radius write decimal numbers, as they do in
    /// the view of every [`HotspotStyle`].
    pub open spec fn well_formed(self) -> bool {
        is_decimal_text(self.opacity) && is_decimal_text(self.border_radius)
    }
}

impl HotspotView {
    /// True when position, size and style write decimal numbers, as they do
    /// in the view of every [`Hotspot`].
    pub open spec fn well_formed(self) -> bool {
        &&& is_decimal_text(self.x)
        &&& is_decimal_text(self.y)
        &&& is_decimal_text(self.w)
        &&& is_decimal_text(self.h)
        &&& match self.style {
            Some(style) => style.well_formed(),
            None => true,
        }
    }

    /// True when the hotspot opens an external address.
    pub open spec fn is_url_link(self) -> bool {
        self.link_type == LINK_URL@
    }

    /// True when exactly one of target and address is given, the one that
    /// the link kind calls for.
    pub open spec fn link_consistent(self) -> bool {
        if self.is_url_link() {
            self.url is Some && self.target_id is None
        } else {
            self.target_id is Some && self.url is None
        }
    }
}

/// A block of text laid over a slide. It links to nothing.
#[derive(Debug, Clone)]
pub struct TextOverlay {
    pub id: String,
    pub x: Decimal,
    pub y: Decimal,
    pub w: Decimal,
    pub h: Decimal,
    pub text: String,
    pub font_size: Decimal,
    pub font_weight: String,
    pub color: String,
    pub background_color: String,
    pub text_align: String,
    pub border_radius: Decimal,
}

/// The view of a [`TextOverlay`].
pub struct TextOverlayView {
    pub id: Seq<char>,
    pub x: Seq<char>,
    pub y: Seq<char>,
    pub w: Seq<char>,
    pub h: Seq<char>,
    pub text: Seq<char>,
    pub font_size: Seq<char>,
    pub font_weight: Seq<char>,
    pub color: Seq<char>,
    pub background_color: Seq<char>,
    pub text_align: Seq<char>,
    pub border_radius: Seq<char>,
}

impl View for TextOverlay {
    type V = TextOverlayView;

    open spec fn view(&self) -> TextOverlayView {
        TextOverlayView {
            id: self.id@,
            x: self.x@,
            y: self.y@,
            w: self.w@,
            h: self.h@,
            text: self.text@,
            font_size: self.font_size@,
            font_weight: self.font_weight@,
            color: self.color@,
            background_color: self.background_color@,
            text_align: self.text_align@,
            border_radius: self.border_radius@,
        }
    }
}

impl TextOverlayView {
    /// True when position, size, font size and radius write decimal
    /// numbers, as they do in the view of every [`TextOverlay`].
    pub open spec fn well_formed(self) -> bool {
        &&& is_decimal_text(self.x)
        &&& is_decimal_text(self.y)
        &&& is_decimal_text(self.w)
        &&& is_decimal_text(self.h)
        &&& is_decimal_text(self.font_size)
        &&& is_decimal_text(self.border_radius)
    }
}

impl DeepView for TextOverlay {
    type V = TextOverlayView;

    open spec fn deep_view(&self) -> TextOverlayView {
        self@
    }
}

/// One slide: a raster image with the regions placed on it.
#[derive(Debug, Clone)]
pub struct Slide {
    pub id: String,
    pub index: usize,
    pub label: String,
    pub is_main: bool,
    pub image_path: String,
    pub hotspots: Vec<Hotspot>,
    pub text_overlays: Vec<TextOverlay>,
}

/// The view of a [`Slide`].
pub struct SlideView {
    pub id: Seq<char>,
    pub index: nat,
    pub label: Seq<char>,
    pub is_main: bool,
    pub image_path: Seq<char>,
    pub hotspots: Seq<HotspotView>,
    pub text_overlays: Seq<TextOverlayView>,
}

impl View for Slide {
    type V = SlideView;

    open spec fn view(&self) -> SlideView {
        SlideView {
            id: self.id@,
            index: self.index as nat,
            label: self.label@,
            is_main: self.is_main,
            image_path: self.image_path@,
            hotspots: self.hotspots.deep_view(),
            text_overlays: self.text_overlays.deep_view(),
        }
    }
}

impl SlideView {
    /// True when every hotspot and every text overlay of the slide is well
    /// formed, as in the view of every [`Slide`].
    pub open spec fn well_formed(self) -> bool {
        &&& forall|k: int| 0 <= k < self.hotspots.len() ==> (#[trigger] self.hotspots[k]).well_formed()
        &&& forall|k: int|
            0 <= k < self.text_overlays.len() ==> (#[trigger] self.text_overlays[k]).well_formed()
    }
}

impl DeepView for Slide {
    type V = SlideView;

    open spec fn deep_view(&self) -> SlideView {
        self@
    }
}

/// A project: the slides of one deck, in the order of the presentation.
#[derive(Debug, Clone)]
pub struct Project {
    pub version: String,
    pub created_at: String,
    pub updated_at: String,
    pub source_file: String,
    pub aspect_ratio: String,
    pub slides: Vec<Slide>,
    pub enable_analytics: Option<bool>,
}

/// The view of a [`Project`].
pub struct ProjectView {
    pub version: Seq<char>,
    pub created_at: Seq<char>,
    pub updated_at: Seq<char>,
    pub source_file: Seq<char>,
    pub aspect_ratio: Seq<char>,
    pub slides: Seq<SlideView>,
    pub enable_analytics: Option<bool>,
}

impl View for Project {
    type V = ProjectView;

    open spec fn view(&self) -> ProjectView {
        ProjectView {
            version: self.version@,
            created_at: self.created_at@,
            updated_at: self.updated_at@,
            source_file: self.source_file@,
            aspect_ratio: self.aspect_ratio@,
            slides: self.slides.deep_view(),
            enable_analytics: self.enable_analytics,
        }
    }
}

impl ProjectView {
    /// True when every slide of the project is well formed, as in the view
    /// of every [`Project`].
    pub open spec fn well_formed(self) -> bool {
        forall|k: int| 0 <= k < self.slides.len() ==> (#[trigger] self.slides[k]).well_formed()
    }

    /// True when analytics are switched on.
    pub open spec fn analytics_on(self) -> bool {
        self.enable_analytics == Some(true)
    }

    /// True when no two slides share an id.
    pub open spec fn ids_unique(self) -> bool {
        forall|i: int, j: int|
            0 <= i < j < self.slides.len() ==> (#[trigger] self.slides[i]).id != (
            #[trigger] self.slides[j]).id
    }
}

/// Progress of an export: `current` of `total` steps are done.
#[derive(Debug, Clone, Copy, PartialEq, Eq, Structural)]
pub struct ExportProgress {
    pub current: usize,
    pub total: usize,
}

fn confirm_hotspot(h: &Hotspot)
    ensures
        h@.well_formed(),
{
    let _ = h.x.as_str();
    let _ = h.y.as_str();
    let _ = h.w.as_str();
    let _ = h.h.as_str();
    match &h.style {
        Some(style) => {
            let _ = style.opacity.as_str();
            let _ = style.border_radius.as_str();
        },
        None => {},
    }
}

fn confirm_overlay(o: &TextOverlay)
    ensures
        o@.well_formed(),
{
    let _ = o.x.as_str();
    let _ = o.y.as_str();
    let _ = o.w.as_str();
    let _ = o.h.as_str();
    let _ = o.font_size.as_str();
    let _ = o.border_radius.as_str();
}

fn confirm_slide(slide: &Slide)
    ensures
        slide@.well_formed(),
{
    let mut h: usize = 0;
    while h < slide.hotspots.len()
        invariant
            h <= slide.hotspots.len(),
            forall|k: int| 0 <= k < h ==> (#[trigger] slide@.hotspots[k]).well_formed(),
        decreases slide.hotspots.len() - h,
    {
        confirm_hotspot(&slide.hotspots[h]);
        assert(slide@.hotspots[h as int] == slide.hotspots[h as int]@);
        h = h + 1;
    }
    let mut o: usize = 0;
    while o < slide.text_overlays.len()
        invariant
            o <= slide.text_overlays.len(),
            forall|k: int| 0 <= k < o ==> (#[trigger] slide@.text_overlays[k]).well_formed(),
        decreases slide.text_overlays.len() - o,
    {
        confirm_overlay(&slide.text_overlays[o]);
        assert(slide@.text_overlays[o as int] == slide.text_overlays[o as int]@);
        o = o + 1;
    }
}

/// Brings into a proof what holds of every project: that each position,
/// size, opacity and radius in it writes a decimal number. The walk through
/// the project computes nothing; it only visits each number.
pub fn confirm_well_formed(project: &Project)
    ensures
        project@.well_formed(),
{
    let mut s: usize = 0;
    while s < project.slides.len()
        invariant
            s <= project.slides.len(),
            forall|k: int| 0 <= k < s ==> (#[trigger] project@.slides[k]).well_formed(),
        decreases project.slides.len() - s,
    {
        confirm_slide(&project.slides[s]);
        assert(project@.slides[s as int] == project.slides[s as int]@);
        s = s + 1;
    }
}

} // verus!
