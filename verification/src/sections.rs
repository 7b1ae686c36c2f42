//! The sections of the finished document, counted in its text: the opening
//! of a main section stands in it once for each primary slide, the opening
//! of a modal overlay once for each member of the secondary-render set, and
//! the only scripts are those of the skeleton, whatever the labels,
//! tooltips, addresses and texts of the project hold.

use vstd::prelude::*;
use crate::classify::{lemma_primary_sequence, lemma_render_set, modal_indices, primary_indices};
use crate::codec::is_base64_text;
use crate::color::rgb_of;
use crate::compile_html::{html_output, main_sections, modal_overlays, step_total};
use crate::document::{
    analytics_text, aspect_css, document_text, dot_nav, dot_parts, dot_text, DOC_BODY, DOC_DOTS,
    DOC_END, DOC_HEAD, DOC_MODALS, DOC_SCRIPT, DOC_STYLE, DOT_BREAK,
};
use crate::escape::{escaped, lemma_escaped_is_markup_free};
use crate::html::{
    action_text, data_type_text, hotspot_action, hotspot_markup, hotspot_parts, hotspots_markup,
    icon_text, main_section, modal_overlay, overlay_markup, overlay_parts, overlays_markup,
    slide_body, style_text, title_text, HotspotAction, MAIN_CLOSE, MAIN_FRAME, MAIN_OPEN,
    MODAL_CLOSE, MODAL_FRAME, MODAL_OPEN, NEWLINE,
};
use crate::marks::{
    is_mark, lemma_marks_open_tags, lemma_scan_action_pieces, lemma_scan_analytics_script,
    lemma_scan_doc_body, lemma_scan_doc_script, lemma_scan_doc_style, lemma_scan_frame_pieces,
    lemma_scan_hotspot_pieces, lemma_scan_main_open, lemma_scan_modal_open,
    lemma_scan_overlay_pieces, lemma_scan_skeleton_pieces, script_count, MAIN_MARK, MODAL_MARK,
    SCRIPT_MARK,
};
use crate::model::{HotspotView, ProjectView, SlideView, TextOverlayView};
use crate::number::{is_decimal_text, lemma_nat_text_digits, nat_text, unsigned_part};
use crate::scan::{
    clean, lemma_clean_concat, lemma_clean_joined, lemma_clean_pieces, lemma_clean_tally,
    lemma_tally_concat, lemma_tally_pieces, occurrences, tally,
};
use crate::text::concat_all;

verus! {

/// Escaped text holds none of the marks.
pub proof fn lemma_escaped_is_clean(s: Seq<char>, mark: Seq<char>)
    requires
        is_mark(mark),
    ensures
        clean(escaped(s), mark),
{
    lemma_marks_open_tags(mark);
    lemma_escaped_is_markup_free(s);
}

/// A decimal number holds none of the marks.
pub proof fn lemma_decimal_is_clean(s: Seq<char>, mark: Seq<char>)
    requires
        is_mark(mark),
        is_decimal_text(s),
    ensures
        clean(s, mark),
{
    lemma_marks_open_tags(mark);
    let body = unsigned_part(s);
    assert forall|i: int| 0 <= i < s.len() implies #[trigger] s[i] != '<' by {
        if s[0] == '-' {
            if i > 0 {
                assert(body[i - 1] == s[i]);
            }
        } else {
            assert(body[i] == s[i]);
        }
    }
}

/// A natural number in decimal notation holds none of the marks.
pub proof fn lemma_nat_is_clean(n: nat, mark: Seq<char>)
    requires
        is_mark(mark),
    ensures
        clean(nat_text(n), mark),
{
    lemma_marks_open_tags(mark);
    lemma_nat_text_digits(n);
}

/// An image in its transport encoding holds none of the marks.
pub proof fn lemma_image_is_clean(image: Seq<char>, mark: Seq<char>)
    requires
        is_mark(mark),
        is_base64_text(image),
    ensures
        clean(image, mark),
{
    lemma_marks_open_tags(mark);
}

/// The markup of a hotspot holds none of the marks.
#[verifier::rlimit(40)]
pub proof fn lemma_hotspot_is_clean(slides: Seq<SlideView>, h: HotspotView, mark: Seq<char>)
    requires
        is_mark(mark),
        h.well_formed(),
    ensures
        clean(hotspot_markup(slides, h), mark),
{
    broadcast use lemma_clean_concat;

    lemma_scan_hotspot_pieces(mark);
    lemma_scan_action_pieces(mark);
    lemma_decimal_is_clean(h.x, mark);
    lemma_decimal_is_clean(h.y, mark);
    lemma_decimal_is_clean(h.w, mark);
    lemma_decimal_is_clean(h.h, mark);
    assert(clean(data_type_text(h), mark));
    assert(clean(title_text(h.tooltip), mark)) by {
        if let Some(t) = h.tooltip {
            lemma_escaped_is_clean(t, mark);
        }
    }
    assert(clean(style_text(h.style), mark)) by {
        if let Some(s) = h.style {
            lemma_escaped_is_clean(s.color, mark);
            lemma_nat_is_clean(rgb_of(s.color).0 as nat, mark);
            lemma_nat_is_clean(rgb_of(s.color).1 as nat, mark);
            lemma_nat_is_clean(rgb_of(s.color).2 as nat, mark);
            lemma_decimal_is_clean(s.opacity, mark);
            lemma_decimal_is_clean(s.border_radius, mark);
        }
    }
    assert(clean(icon_text(h.style), mark)) by {
        if let Some(s) = h.style {
            if let Some(icon) = s.icon {
                lemma_escaped_is_clean(icon, mark);
            }
        }
    }
    assert(clean(action_text(hotspot_action(slides, h)), mark)) by {
        match hotspot_action(slides, h) {
            HotspotAction::OpenUrl(url) => {
                lemma_escaped_is_clean(url, mark);
            },
            HotspotAction::OpenSlide(id) => {
                lemma_escaped_is_clean(id, mark);
            },
            HotspotAction::Inert => {},
        }
    }
}

/// The markup of a text overlay holds none of the marks.
pub proof fn lemma_overlay_is_clean(o: TextOverlayView, mark: Seq<char>)
    requires
        is_mark(mark),
        o.well_formed(),
    ensures
        clean(overlay_markup(o), mark),
{
    broadcast use lemma_clean_concat;

    lemma_scan_hotspot_pieces(mark);
    lemma_scan_overlay_pieces(mark);
    lemma_decimal_is_clean(o.x, mark);
    lemma_decimal_is_clean(o.y, mark);
    lemma_decimal_is_clean(o.w, mark);
    lemma_decimal_is_clean(o.h, mark);
    lemma_decimal_is_clean(o.font_size, mark);
    lemma_decimal_is_clean(o.border_radius, mark);
    lemma_escaped_is_clean(o.font_weight, mark);
    lemma_escaped_is_clean(o.color, mark);
    lemma_escaped_is_clean(o.background_color, mark);
    lemma_escaped_is_clean(o.text_align, mark);
    lemma_escaped_is_clean(o.text, mark);
}

/// What a main section and a modal overlay share holds none of the marks.
pub proof fn lemma_body_is_clean(
    slides: Seq<SlideView>,
    slide: SlideView,
    image: Seq<char>,
    mark: Seq<char>,
)
    requires
        is_mark(mark),
        slide.well_formed(),
        is_base64_text(image),
    ensures
        clean(slide_body(slides, slide, image), mark),
{
    broadcast use lemma_clean_concat;

    lemma_scan_hotspot_pieces(mark);
    lemma_scan_frame_pieces(mark);
    lemma_image_is_clean(image, mark);
    lemma_escaped_is_clean(slide.label, mark);
    assert(clean(hotspots_markup(slides, slide.hotspots), mark)) by {
        let parts = hotspot_parts(slides, slide.hotspots);
        assert forall|k: int| 0 <= k < parts.len() implies clean(#[trigger] parts[k], mark) by {
            lemma_hotspot_is_clean(slides, slide.hotspots[k], mark);
        }
        lemma_clean_joined(parts, NEWLINE@, mark);
    }
    assert(clean(overlays_markup(slide.text_overlays), mark)) by {
        let parts = overlay_parts(slide.text_overlays);
        assert forall|k: int| 0 <= k < parts.len() implies clean(#[trigger] parts[k], mark) by {
            lemma_overlay_is_clean(slide.text_overlays[k], mark);
        }
        lemma_clean_joined(parts, NEWLINE@, mark);
    }
}

/// What follows the opening of a section or an overlay holds none of the
/// marks: the id of the slide, the frame, the aspect ratio, the body and
/// the closing.
proof fn lemma_rest_is_clean(
    slides: Seq<SlideView>,
    slide: SlideView,
    image: Seq<char>,
    aspect: Seq<char>,
    frame: Seq<char>,
    close: Seq<char>,
    mark: Seq<char>,
)
    requires
        is_mark(mark),
        slide.well_formed(),
        is_base64_text(image),
        clean(frame, mark),
        clean(close, mark),
    ensures
        clean(
            escaped(slide.id) + frame + escaped(aspect) + slide_body(slides, slide, image) + close,
            mark,
        ),
{
    broadcast use lemma_clean_concat;

    lemma_escaped_is_clean(slide.id, mark);
    lemma_escaped_is_clean(aspect, mark);
    lemma_body_is_clean(slides, slide, image, mark);
}

/// A main section holds the mark of main sections once, at its opening, and
/// nothing of the other marks.
#[verifier::rlimit(40)]
pub proof fn lemma_main_section_counts(
    slides: Seq<SlideView>,
    slide: SlideView,
    image: Seq<char>,
    aspect: Seq<char>,
)
    requires
        slide.well_formed(),
        is_base64_text(image),
    ensures
        tally(main_section(slides, slide, image, aspect), MAIN_MARK@, 1),
        clean(main_section(slides, slide, image, aspect), MODAL_MARK@),
        clean(main_section(slides, slide, image, aspect), SCRIPT_MARK@),
{
    lemma_scan_main_open();
    lemma_marks_open_tags(MAIN_MARK@);
    let tail = escaped(slide.id) + MAIN_FRAME@ + escaped(aspect) + slide_body(
        slides,
        slide,
        image,
    ) + MAIN_CLOSE@;
    assert(main_section(slides, slide, image, aspect) =~= MAIN_OPEN@ + tail);
    lemma_scan_frame_pieces(MAIN_MARK@);
    lemma_scan_frame_pieces(MODAL_MARK@);
    lemma_scan_frame_pieces(SCRIPT_MARK@);
    lemma_rest_is_clean(slides, slide, image, aspect, MAIN_FRAME@, MAIN_CLOSE@, MAIN_MARK@);
    lemma_rest_is_clean(slides, slide, image, aspect, MAIN_FRAME@, MAIN_CLOSE@, MODAL_MARK@);
    lemma_rest_is_clean(slides, slide, image, aspect, MAIN_FRAME@, MAIN_CLOSE@, SCRIPT_MARK@);
    lemma_clean_tally(tail, MAIN_MARK@);
    lemma_tally_concat(MAIN_OPEN@, tail, MAIN_MARK@, 1, 0);
    lemma_clean_concat(MAIN_OPEN@, tail, MODAL_MARK@);
    lemma_clean_concat(MAIN_OPEN@, tail, SCRIPT_MARK@);
}

/// A modal overlay holds the mark of modal overlays once, at its opening,
/// and nothing of the other marks.
#[verifier::rlimit(40)]
pub proof fn lemma_modal_overlay_counts(
    slides: Seq<SlideView>,
    slide: SlideView,
    image: Seq<char>,
    aspect: Seq<char>,
)
    requires
        slide.well_formed(),
        is_base64_text(image),
    ensures
        tally(modal_overlay(slides, slide, image, aspect), MODAL_MARK@, 1),
        clean(modal_overlay(slides, slide, image, aspect), MAIN_MARK@),
        clean(modal_overlay(slides, slide, image, aspect), SCRIPT_MARK@),
{
    lemma_scan_modal_open();
    lemma_marks_open_tags(MODAL_MARK@);
    let tail = escaped(slide.id) + MODAL_FRAME@ + escaped(aspect) + slide_body(
        slides,
        slide,
        image,
    ) + MODAL_CLOSE@;
    assert(modal_overlay(slides, slide, image, aspect) =~= MODAL_OPEN@ + tail);
    lemma_scan_frame_pieces(MAIN_MARK@);
    lemma_scan_frame_pieces(MODAL_MARK@);
    lemma_scan_frame_pieces(SCRIPT_MARK@);
    lemma_rest_is_clean(slides, slide, image, aspect, MODAL_FRAME@, MODAL_CLOSE@, MAIN_MARK@);
    lemma_rest_is_clean(slides, slide, image, aspect, MODAL_FRAME@, MODAL_CLOSE@, MODAL_MARK@);
    lemma_rest_is_clean(slides, slide, image, aspect, MODAL_FRAME@, MODAL_CLOSE@, SCRIPT_MARK@);
    lemma_clean_tally(tail, MODAL_MARK@);
    lemma_tally_concat(MODAL_OPEN@, tail, MODAL_MARK@, 1, 0);
    lemma_clean_concat(MODAL_OPEN@, tail, MAIN_MARK@);
    lemma_clean_concat(MODAL_OPEN@, tail, SCRIPT_MARK@);
}

/// The dot navigation holds none of the marks.
pub proof fn lemma_dot_nav_is_clean(count: nat, mark: Seq<char>)
    requires
        is_mark(mark),
    ensures
        clean(dot_nav(count), mark),
{
    lemma_scan_skeleton_pieces(mark);
    let parts = dot_parts(count);
    assert forall|k: int| 0 <= k < parts.len() implies clean(#[trigger] parts[k], mark) by {
        assert(parts[k] == dot_text(k));
    }
    lemma_clean_joined(parts, DOT_BREAK@, mark);
}

/// The number of scripts in the skeleton of a document: the navigation
/// script, and the analytics script where analytics are on.
pub open spec fn skeleton_scripts(analytics: bool) -> nat {
    if analytics {
        2
    } else {
        1
    }
}

/// In the finished document of a project, the opening of a main section
/// stands exactly once for each primary slide, and the opening of a modal
/// overlay exactly once for each member of the secondary-render set. The
/// only scripts are those of the skeleton. No label, tooltip, address, text
/// or color of the project can add to these or take from them.
#[verifier::rlimit(40)]
pub proof fn lemma_document_counts(p: ProjectView, title: Seq<char>, images: Seq<Seq<char>>)
    requires
        p.well_formed(),
        images.len() == step_total(p),
        forall|k: int| 0 <= k < images.len() ==> is_base64_text(#[trigger] images[k]),
    ensures
        occurrences(html_output(p, title, images), MAIN_MARK@) == primary_indices(p.slides).len(),
        occurrences(html_output(p, title, images), MODAL_MARK@) == modal_indices(p.slides).len(),
        occurrences(html_output(p, title, images), SCRIPT_MARK@) == skeleton_scripts(
            p.analytics_on(),
        ),
{
    let slides = p.slides;
    let aspect = aspect_css(p.aspect_ratio);
    let primary = primary_indices(slides);
    let modal = modal_indices(slides);
    let mains = main_sections(p, images);
    let modals = modal_overlays(p, images);
    lemma_primary_sequence(slides);
    lemma_render_set(slides);
    lemma_marks_open_tags(MAIN_MARK@);
    lemma_marks_open_tags(MODAL_MARK@);
    lemma_marks_open_tags(SCRIPT_MARK@);
    assert forall|k: int| 0 <= k < mains.len() implies tally(#[trigger] mains[k], MAIN_MARK@, 1)
        && clean(mains[k], MODAL_MARK@) && clean(mains[k], SCRIPT_MARK@) by {
        assert(slides[primary[k]].well_formed());
        lemma_main_section_counts(slides, slides[primary[k]], images[k], aspect);
    }
    assert forall|k: int| 0 <= k < modals.len() implies tally(
        #[trigger] modals[k],
        MODAL_MARK@,
        1,
    ) && clean(modals[k], MAIN_MARK@) && clean(modals[k], SCRIPT_MARK@) by {
        assert(slides[modal[k]].well_formed());
        lemma_modal_overlay_counts(slides, slides[modal[k]], images[primary.len() + k], aspect);
    }
    let main_html = concat_all(mains);
    let sub_html = concat_all(modals);
    lemma_tally_pieces(mains, MAIN_MARK@);
    lemma_clean_pieces(mains, MODAL_MARK@);
    lemma_clean_pieces(mains, SCRIPT_MARK@);
    lemma_tally_pieces(modals, MODAL_MARK@);
    lemma_clean_pieces(modals, MAIN_MARK@);
    lemma_clean_pieces(modals, SCRIPT_MARK@);
    lemma_clean_tally(main_html, MODAL_MARK@);
    lemma_clean_tally(main_html, SCRIPT_MARK@);
    lemma_clean_tally(sub_html, MAIN_MARK@);
    lemma_clean_tally(sub_html, SCRIPT_MARK@);
    let on = p.analytics_on();
    lemma_document_tally(title, aspect, main_html, sub_html, primary.len(), on, MAIN_MARK@, primary.len(), 0);
    lemma_document_tally(title, aspect, main_html, sub_html, primary.len(), on, MODAL_MARK@, 0, modal.len());
    lemma_document_tally(title, aspect, main_html, sub_html, primary.len(), on, SCRIPT_MARK@, 0, 0);
}

/// A document holds a mark as often as its primary sections, its modal
/// overlays and the scripts of its skeleton together.
#[verifier::rlimit(40)]
pub proof fn lemma_document_tally(
    title: Seq<char>,
    aspect: Seq<char>,
    main_html: Seq<char>,
    sub_html: Seq<char>,
    primary_count: nat,
    analytics: bool,
    mark: Seq<char>,
    in_main: nat,
    in_sub: nat,
)
    requires
        is_mark(mark),
        tally(main_html, mark, in_main),
        tally(sub_html, mark, in_sub),
    ensures
        tally(
            document_text(title, aspect, main_html, sub_html, primary_count, analytics),
            mark,
            in_main + in_sub + script_count(mark) * skeleton_scripts(analytics),
        ),
{
    lemma_marks_open_tags(mark);
    lemma_scan_skeleton_pieces(mark);
    lemma_scan_doc_style(mark);
    lemma_scan_doc_body(mark);
    lemma_scan_doc_script(mark);
    lemma_scan_analytics_script(mark);
    lemma_escaped_is_clean(title, mark);
    lemma_escaped_is_clean(aspect, mark);
    lemma_dot_nav_is_clean(primary_count, mark);
    let head = DOC_HEAD@ + escaped(title) + DOC_STYLE@ + escaped(aspect) + DOC_BODY@;
    let middle = DOC_MODALS@;
    let dots = DOC_DOTS@ + dot_nav(primary_count);
    let extra = analytics_text(analytics);
    let scripts = script_count(mark);
    let in_extra: nat = if analytics {
        scripts
    } else {
        0
    };
    assert(clean(head, mark) && clean(dots, mark)) by {
        broadcast use lemma_clean_concat;

    }
    lemma_clean_tally(head, mark);
    lemma_clean_tally(middle, mark);
    lemma_clean_tally(dots, mark);
    lemma_clean_tally(DOC_END@, mark);
    if !analytics {
        lemma_clean_tally(extra, mark);
    }
    assert(tally(extra, mark, in_extra));
    let a1 = head + main_html;
    let a2 = a1 + middle;
    let a3 = a2 + sub_html;
    let a4 = a3 + dots;
    let a5 = a4 + DOC_SCRIPT@;
    let a6 = a5 + extra;
    let a7 = a6 + DOC_END@;
    lemma_tally_concat(head, main_html, mark, 0, in_main);
    lemma_tally_concat(a1, middle, mark, in_main, 0);
    lemma_tally_concat(a2, sub_html, mark, in_main, in_sub);
    lemma_tally_concat(a3, dots, mark, in_main + in_sub, 0);
    lemma_tally_concat(a4, DOC_SCRIPT@, mark, in_main + in_sub, scripts);
    lemma_tally_concat(a5, extra, mark, in_main + in_sub + scripts, in_extra);
    lemma_tally_concat(a6, DOC_END@, mark, in_main + in_sub + scripts + in_extra, 0);
    assert(document_text(title, aspect, main_html, sub_html, primary_count, analytics) =~= a7);
    assert(scripts + in_extra == scripts * skeleton_scripts(analytics)) by (nonlinear_arith)
        requires
            in_extra == (if analytics {
                scripts
            } else {
                0
            }),
            skeleton_scripts(analytics) == (if analytics {
                2nat
            } else {
                1nat
            }),
    ;
}

} // verus!
