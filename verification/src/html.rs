//! Markup fragments of the interactive document: hotspots, text overlays,
//! main-slide sections and modal overlays.
//!
//! Each fragment is a chain of fixed pieces and inserted values. An inserted
//! value is either a [`Decimal`](crate::number::Decimal), a number in decimal
//! notation, an image in its transport encoding, or a text that went through
//! [`html_escape`].

use vstd::prelude::*;
use vstd::string::*;
use crate::classify::{has_slide, slide_exists};
use crate::color::{hex_to_rgb, rgb_of};
use crate::escape::{escaped, html_escape};
use crate::model::{
    Hotspot, HotspotStyle, HotspotStyleView, HotspotView, Slide, SlideView, TextOverlay,
    TextOverlayView, LINK_URL,
};
use crate::number::{nat_text, push_nat};
use crate::text::{joined, text_equals};

verus! {

// The fixed pieces of markup. The fragments below chain them with the
// values of a slide; the texts of the pieces are not repeated there.

pub const NOTHING: &'static str = "";

pub const NEWLINE: &'static str = "\n";

pub const QUOTE: &'static str = "\"";

pub const COMMA: &'static str = ",";

pub const HOTSPOT_OPEN: &'static str = "      <div class=\"hotspot\"";

pub const ATTR_DATA_URL: &'static str = " data-type=\"url\"";

pub const ATTR_TITLE: &'static str = " title=\"";

pub const STYLE_LEFT: &'static str = " style=\"left:";

pub const STYLE_TOP: &'static str = "%;top:";

pub const STYLE_WIDTH: &'static str = "%;width:";

pub const STYLE_HEIGHT: &'static str = "%;height:";

pub const STYLE_BOX_END: &'static str = "%;";

pub const ATTR_ONCLICK: &'static str = "\" onclick=\"";

pub const TAG_END: &'static str = "\">";

pub const DIV_CLOSE: &'static str = "</div>";

pub const CALL_OPEN_URL: &'static str = "openUrl('";

pub const CALL_OPEN_SLIDE: &'static str = "openSlide('";

pub const CALL_END: &'static str = "')";

pub const CALL_NOTHING: &'static str = "void(0)";

pub const NO_ADDRESS: &'static str = "#";

pub const STYLE_BORDER_COLOR: &'static str = "border-color:";

pub const STYLE_BACKGROUND: &'static str = ";background:rgba(";

pub const STYLE_RADIUS: &'static str = ");border-radius:";

pub const ICON_OPEN: &'static str = "<span class=\"hotspot-icon\">";

pub const ICON_CLOSE: &'static str = "</span>";

pub const OVERLAY_OPEN: &'static str = "      <div class=\"text-overlay\" style=\"left:";

pub const STYLE_FONT_SIZE: &'static str = "%;font-size:";

pub const STYLE_FONT_WEIGHT: &'static str = "px;font-weight:";

pub const STYLE_COLOR: &'static str = ";color:";

pub const STYLE_FILL: &'static str = ";background:";

pub const STYLE_ALIGN: &'static str = ";text-align:";

pub const STYLE_OVERLAY_RADIUS: &'static str = ";border-radius:";

pub const OVERLAY_TEXT: &'static str = "px;\">";

pub const MAIN_OPEN: &'static str = "  <section class=\"main-slide\" id=\"";

pub const MAIN_FRAME: &'static str =
    "\">\n    <div class=\"slide-container\" style=\"position:relative;width:100%;aspect-ratio:";

pub const MAIN_CLOSE: &'static str = "\n    </div>\n  </section>\n";

pub const MODAL_OPEN: &'static str = "  <div class=\"modal-overlay\" id=\"modal-";

pub const MODAL_FRAME: &'static str =
    "\">\n    <button class=\"back-btn\" onclick=\"event.stopPropagation();goBack()\">&#8592; 戻る</button>\n    <div class=\"modal-content\" onclick=\"event.stopPropagation()\" style=\"position:relative;aspect-ratio:";

pub const MODAL_CLOSE: &'static str = "\n    </div>\n  </div>\n";

pub const IMAGE_OPEN: &'static str = ";\">\n      <img src=\"data:image/png;base64,";

pub const IMAGE_ALT: &'static str = "\" alt=\"";

pub const LAYER_OPEN: &'static str = "\" />\n      <div class=\"hotspot-layer\">";

pub const LAYER_CLOSE: &'static str = "</div>\n      ";

/// What a click on a hotspot does.
pub enum HotspotAction {
    /// Opens the external address in a new context.
    OpenUrl(Seq<char>),
    /// Opens the modal of the slide with this id.
    OpenSlide(Seq<char>),
    /// Does nothing: the hotspot names no slide of the project.
    Inert,
}

/// The action of a hotspot in a project with the given slides. A link to an
/// address opens the address, or `#` where none is given. A link to a slide
/// opens that slide's modal where the project has a slide of that id, and is
/// inert where it has none. A link to a slide that gives no target asks for
/// the slide of the empty id.
pub open spec fn hotspot_action(slides: Seq<SlideView>, h: HotspotView) -> HotspotAction {
    if h.is_url_link() {
        match h.url {
            Some(url) => HotspotAction::OpenUrl(url),
            None => HotspotAction::OpenUrl(NO_ADDRESS@),
        }
    } else {
        match h.target_id {
            Some(target) => if has_slide(slides, target) {
                HotspotAction::OpenSlide(target)
            } else {
                HotspotAction::Inert
            },
            None => HotspotAction::OpenSlide(NOTHING@),
        }
    }
}

/// The script call that performs an action.
pub open spec fn action_text(action: HotspotAction) -> Seq<char> {
    match action {
        HotspotAction::OpenUrl(url) => CALL_OPEN_URL@ + escaped(url) + CALL_END@,
        HotspotAction::OpenSlide(id) => CALL_OPEN_SLIDE@ + escaped(id) + CALL_END@,
        HotspotAction::Inert => CALL_NOTHING@,
    }
}

/// The attribute that marks a link to an address; nothing for other links.
pub open spec fn data_type_text(h: HotspotView) -> Seq<char> {
    if h.is_url_link() {
        ATTR_DATA_URL@
    } else {
        NOTHING@
    }
}

/// The tooltip attribute; nothing where there is no tooltip.
pub open spec fn title_text(tooltip: Option<Seq<char>>) -> Seq<char> {
    match tooltip {
        Some(t) => ATTR_TITLE@ + escaped(t) + QUOTE@,
        None => NOTHING@,
    }
}

/// The inline look of a styled hotspot; nothing for one without style,
/// which then takes the default look of the document.
pub open spec fn style_text(style: Option<HotspotStyleView>) -> Seq<char> {
    match style {
        Some(s) => STYLE_BORDER_COLOR@ + escaped(s.color) + STYLE_BACKGROUND@ + nat_text(
            rgb_of(s.color).0 as nat,
        ) + COMMA@ + nat_text(rgb_of(s.color).1 as nat) + COMMA@ + nat_text(
            rgb_of(s.color).2 as nat,
        ) + COMMA@ + s.opacity + STYLE_RADIUS@ + s.border_radius + STYLE_BOX_END@,
        None => NOTHING@,
    }
}

/// The icon of a styled hotspot; nothing where the style has no icon or an
/// empty one.
pub open spec fn icon_text(style: Option<HotspotStyleView>) -> Seq<char> {
    match style {
        Some(s) => match s.icon {
            Some(icon) => if icon.len() > 0 {
                ICON_OPEN@ + escaped(icon) + ICON_CLOSE@
            } else {
                NOTHING@
            },
            None => NOTHING@,
        },
        None => NOTHING@,
    }
}

/// The markup of one hotspot.
pub open spec fn hotspot_markup(slides: Seq<SlideView>, h: HotspotView) -> Seq<char> {
    HOTSPOT_OPEN@ + data_type_text(h) + title_text(h.tooltip) + STYLE_LEFT@ + h.x + STYLE_TOP@
        + h.y + STYLE_WIDTH@ + h.w + STYLE_HEIGHT@ + h.h + STYLE_BOX_END@ + style_text(h.style)
        + ATTR_ONCLICK@ + action_text(hotspot_action(slides, h)) + TAG_END@ + icon_text(h.style)
        + DIV_CLOSE@
}

/// The markup of each hotspot of a list.
pub open spec fn hotspot_parts(slides: Seq<SlideView>, hotspots: Seq<HotspotView>) -> Seq<
    Seq<char>,
> {
    Seq::new(hotspots.len(), |k: int| hotspot_markup(slides, hotspots[k]))
}

/// The markup of a list of hotspots: one line per hotspot.
pub open spec fn hotspots_markup(slides: Seq<SlideView>, hotspots: Seq<HotspotView>) -> Seq<
    char,
> {
    joined(hotspot_parts(slides, hotspots), NEWLINE@)
}

/// The markup of one text overlay.
pub open spec fn overlay_markup(o: TextOverlayView) -> Seq<char> {
    OVERLAY_OPEN@ + o.x + STYLE_TOP@ + o.y + STYLE_WIDTH@ + o.w + STYLE_HEIGHT@ + o.h
        + STYLE_FONT_SIZE@ + o.font_size + STYLE_FONT_WEIGHT@ + escaped(o.font_weight)
        + STYLE_COLOR@ + escaped(o.color) + STYLE_FILL@ + escaped(o.background_color)
        + STYLE_ALIGN@ + escaped(o.text_align) + STYLE_OVERLAY_RADIUS@ + o.border_radius
        + OVERLAY_TEXT@ + escaped(o.text) + DIV_CLOSE@
}

/// The markup of each text overlay of a list.
pub open spec fn overlay_parts(overlays: Seq<TextOverlayView>) -> Seq<Seq<char>> {
    Seq::new(overlays.len(), |k: int| overlay_markup(overlays[k]))
}

/// The markup of a list of text overlays: one line per overlay.
pub open spec fn overlays_markup(overlays: Seq<TextOverlayView>) -> Seq<char> {
    joined(overlay_parts(overlays), NEWLINE@)
}

fn render_action(slides: &Vec<Slide>, h: &Hotspot) -> (out: String)
    ensures
        out@ == action_text(hotspot_action(slides.deep_view(), h@)),
{
    let mut out = String::new();
    proof {
        assert(out@ + CALL_NOTHING@ == CALL_NOTHING@);
        assert(out@ + CALL_OPEN_URL@ == CALL_OPEN_URL@);
        assert(out@ + CALL_OPEN_SLIDE@ == CALL_OPEN_SLIDE@);
    }
    if text_equals(h.link_type.as_str(), LINK_URL) {
        out.append(CALL_OPEN_URL);
        match &h.url {
            Some(url) => {
                out.append(html_escape(url.as_str()).as_str());
            },
            None => {
                out.append(html_escape(NO_ADDRESS).as_str());
            },
        }
        out.append(CALL_END);
    } else {
        match &h.target_id {
            Some(target) => {
                if slide_exists(slides, target.as_str()) {
                    out.append(CALL_OPEN_SLIDE);
                    out.append(html_escape(target.as_str()).as_str());
                    out.append(CALL_END);
                } else {
                    out.append(CALL_NOTHING);
                }
            },
            None => {
                out.append(CALL_OPEN_SLIDE);
                out.append(html_escape(NOTHING).as_str());
                out.append(CALL_END);
            },
        }
    }
    out
}

fn render_title(tooltip: &Option<String>) -> (out: String)
    ensures
        out@ == title_text(tooltip.deep_view()),
{
    let mut out = String::new();
    proof {
        reveal_strlit("");
        assert(out@ == NOTHING@);
        assert(out@ + ATTR_TITLE@ == ATTR_TITLE@);
    }
    match tooltip {
        Some(t) => {
            out.append(ATTR_TITLE);
            out.append(html_escape(t.as_str()).as_str());
            out.append(QUOTE);
        },
        None => {},
    }
    out
}

fn render_style(style: &Option<HotspotStyle>) -> (out: String)
    ensures
        out@ == style_text(style.deep_view()),
{
    let mut out = String::new();
    proof {
        reveal_strlit("");
        assert(out@ == NOTHING@);
        assert(out@ + STYLE_BORDER_COLOR@ == STYLE_BORDER_COLOR@);
    }
    match style {
        Some(s) => {
            let rgb = hex_to_rgb(s.color.as_str());
            out.append(STYLE_BORDER_COLOR);
            out.append(html_escape(s.color.as_str()).as_str());
            out.append(STYLE_BACKGROUND);
            push_nat(&mut out, rgb.0 as u64);
            out.append(COMMA);
            push_nat(&mut out, rgb.1 as u64);
            out.append(COMMA);
            push_nat(&mut out, rgb.2 as u64);
            out.append(COMMA);
            out.append(s.opacity.as_str());
            out.append(STYLE_RADIUS);
            out.append(s.border_radius.as_str());
            out.append(STYLE_BOX_END);
        },
        None => {},
    }
    out
}

fn render_icon(style: &Option<HotspotStyle>) -> (out: String)
    ensures
        out@ == icon_text(style.deep_view()),
{
    let mut out = String::new();
    proof {
        reveal_strlit("");
        assert(out@ == NOTHING@);
        assert(out@ + ICON_OPEN@ == ICON_OPEN@);
    }
    match style {
        Some(s) => match &s.icon {
            Some(icon) => {
                if !icon.as_str().is_empty() {
                    out.append(ICON_OPEN);
                    out.append(html_escape(icon.as_str()).as_str());
                    out.append(ICON_CLOSE);
                }
            },
            None => {},
        },
        None => {},
    }
    out
}

fn render_hotspot(slides: &Vec<Slide>, h: &Hotspot) -> (out: String)
    ensures
        out@ == hotspot_markup(slides.deep_view(), h@),
{
    let mut out = String::new();
    proof {
        reveal_strlit("");
        assert(out@ + HOTSPOT_OPEN@ == HOTSPOT_OPEN@);
    }
    out.append(HOTSPOT_OPEN);
    if text_equals(h.link_type.as_str(), LINK_URL) {
        out.append(ATTR_DATA_URL);
    } else {
        out.append(NOTHING);
    }
    out.append(render_title(&h.tooltip).as_str());
    out.append(STYLE_LEFT);
    out.append(h.x.as_str());
    out.append(STYLE_TOP);
    out.append(h.y.as_str());
    out.append(STYLE_WIDTH);
    out.append(h.w.as_str());
    out.append(STYLE_HEIGHT);
    out.append(h.h.as_str());
    out.append(STYLE_BOX_END);
    out.append(render_style(&h.style).as_str());
    out.append(ATTR_ONCLICK);
    out.append(render_action(slides, h).as_str());
    out.append(TAG_END);
    out.append(render_icon(&h.style).as_str());
    out.append(DIV_CLOSE);
    out
}

/// Renders the hotspots of one slide, one line per hotspot.
///
/// Each hotspot becomes a positioned region with its click action: a link
/// to an address opens that address, a link to a slide of the project opens
/// that slide's modal, and a link that names no slide does nothing. Tooltip,
/// address, target, color and icon are escaped.
pub fn render_hotspots(hotspots: &Vec<Hotspot>, slides: &Vec<Slide>) -> (out: String)
    ensures
        out@ == hotspots_markup(slides.deep_view(), hotspots.deep_view()),
{
    let ghost view = hotspots.deep_view();
    let ghost all = slides.deep_view();
    let mut out = String::new();
    let mut i: usize = 0;
    while i < hotspots.len()
        invariant
            i <= hotspots.len(),
            view == hotspots.deep_view(),
            all == slides.deep_view(),
            out@ == hotspots_markup(all, view.take(i as int)),
        decreases hotspots.len() - i,
    {
        let ghost before = hotspot_parts(all, view.take(i as int));
        let ghost after = hotspot_parts(all, view.take(i + 1));
        proof {
            assert(view[i as int] == hotspots[i as int]@);
            assert(after == before.push(hotspot_markup(all, view[i as int])));
            assert(after.drop_last() == before);
            reveal_with_fuel(joined, 2);
        }
        if i > 0 {
            out.append(NEWLINE);
        }
        out.append(render_hotspot(slides, &hotspots[i]).as_str());
        i = i + 1;
    }
    assert(view.take(i as int) == view);
    out
}

fn render_overlay(o: &TextOverlay) -> (out: String)
    ensures
        out@ == overlay_markup(o@),
{
    let mut out = String::new();
    proof {
        assert(out@ + OVERLAY_OPEN@ == OVERLAY_OPEN@);
    }
    out.append(OVERLAY_OPEN);
    out.append(o.x.as_str());
    out.append(STYLE_TOP);
    out.append(o.y.as_str());
    out.append(STYLE_WIDTH);
    out.append(o.w.as_str());
    out.append(STYLE_HEIGHT);
    out.append(o.h.as_str());
    out.append(STYLE_FONT_SIZE);
    out.append(o.font_size.as_str());
    out.append(STYLE_FONT_WEIGHT);
    out.append(html_escape(o.font_weight.as_str()).as_str());
    out.append(STYLE_COLOR);
    out.append(html_escape(o.color.as_str()).as_str());
    out.append(STYLE_FILL);
    out.append(html_escape(o.background_color.as_str()).as_str());
    out.append(STYLE_ALIGN);
    out.append(html_escape(o.text_align.as_str()).as_str());
    out.append(STYLE_OVERLAY_RADIUS);
    out.append(o.border_radius.as_str());
    out.append(OVERLAY_TEXT);
    out.append(html_escape(o.text.as_str()).as_str());
    out.append(DIV_CLOSE);
    out
}

/// Renders the text overlays of one slide, one line per overlay. Font
/// weight, colors, alignment and the text itself are escaped.
pub fn render_text_overlays(overlays: &Vec<TextOverlay>) -> (out: String)
    ensures
        out@ == overlays_markup(overlays.deep_view()),
{
    let ghost view = overlays.deep_view();
    let mut out = String::new();
    let mut i: usize = 0;
    while i < overlays.len()
        invariant
            i <= overlays.len(),
            view == overlays.deep_view(),
            out@ == overlays_markup(view.take(i as int)),
        decreases overlays.len() - i,
    {
        let ghost before = overlay_parts(view.take(i as int));
        let ghost after = overlay_parts(view.take(i + 1));
        proof {
            assert(view[i as int] == overlays[i as int]@);
            assert(after == before.push(overlay_markup(view[i as int])));
            assert(after.drop_last() == before);
            reveal_with_fuel(joined, 2);
        }
        if i > 0 {
            out.append(NEWLINE);
        }
        out.append(render_overlay(&overlays[i]).as_str());
        i = i + 1;
    }
    assert(view.take(i as int) == view);
    out
}

/// What a main section and a modal overlay share: the image, the layer of
/// hotspots and the text overlays of a slide.
pub open spec fn slide_body(slides: Seq<SlideView>, slide: SlideView, image: Seq<char>) -> Seq<
    char,
> {
    IMAGE_OPEN@ + image + IMAGE_ALT@ + escaped(slide.label) + LAYER_OPEN@ + hotspots_markup(
        slides,
        slide.hotspots,
    ) + LAYER_CLOSE@ + overlays_markup(slide.text_overlays)
}

/// The section of a slide in the primary sequence. Its anchor is the
/// slide's id.
pub open spec fn main_section(
    slides: Seq<SlideView>,
    slide: SlideView,
    image: Seq<char>,
    aspect: Seq<char>,
) -> Seq<char> {
    MAIN_OPEN@ + escaped(slide.id) + MAIN_FRAME@ + escaped(aspect) + slide_body(
        slides,
        slide,
        image,
    ) + MAIN_CLOSE@
}

/// The hidden overlay of a slide that can be opened as a modal. Its anchor
/// is `modal-` followed by the slide's id; it carries a back control.
pub open spec fn modal_overlay(
    slides: Seq<SlideView>,
    slide: SlideView,
    image: Seq<char>,
    aspect: Seq<char>,
) -> Seq<char> {
    MODAL_OPEN@ + escaped(slide.id) + MODAL_FRAME@ + escaped(aspect) + slide_body(
        slides,
        slide,
        image,
    ) + MODAL_CLOSE@
}

fn render_body(slide: &Slide, slides: &Vec<Slide>, image: &str) -> (out: String)
    ensures
        out@ == slide_body(slides.deep_view(), slide@, image@),
{
    let mut out = String::new();
    proof {
        assert(out@ + IMAGE_OPEN@ == IMAGE_OPEN@);
    }
    out.append(IMAGE_OPEN);
    out.append(image);
    out.append(IMAGE_ALT);
    out.append(html_escape(slide.label.as_str()).as_str());
    out.append(LAYER_OPEN);
    out.append(render_hotspots(&slide.hotspots, slides).as_str());
    out.append(LAYER_CLOSE);
    out.append(render_text_overlays(&slide.text_overlays).as_str());
    out
}

/// Renders a slide as a section of the primary sequence.
///
/// `image` is the slide's image in its transport encoding and `aspect` the
/// aspect ratio as a style value; `slides` are the slides of the project,
/// against which the targets of the hotspots are resolved.
pub fn render_main_slide(slide: &Slide, slides: &Vec<Slide>, image: &str, aspect: &str) -> (out:
    String)
    ensures
        out@ == main_section(slides.deep_view(), slide@, image@, aspect@),
{
    let mut out = String::new();
    proof {
        assert(out@ + MAIN_OPEN@ == MAIN_OPEN@);
    }
    out.append(MAIN_OPEN);
    out.append(html_escape(slide.id.as_str()).as_str());
    out.append(MAIN_FRAME);
    out.append(html_escape(aspect).as_str());
    out.append(render_body(slide, slides, image).as_str());
    out.append(MAIN_CLOSE);
    out
}

/// Renders a slide as a modal overlay, hidden until a hotspot opens it.
///
/// The arguments are those of [`render_main_slide`].
pub fn render_sub_slide(slide: &Slide, slides: &Vec<Slide>, image: &str, aspect: &str) -> (out:
    String)
    ensures
        out@ == modal_overlay(slides.deep_view(), slide@, image@, aspect@),
{
    let mut out = String::new();
    proof {
        assert(out@ + MODAL_OPEN@ == MODAL_OPEN@);
    }
    out.append(MODAL_OPEN);
    out.append(html_escape(slide.id.as_str()).as_str());
    out.append(MODAL_FRAME);
    out.append(html_escape(aspect).as_str());
    out.append(render_body(slide, slides, image).as_str());
    out.append(MODAL_CLOSE);
    out
}

} // verus!
