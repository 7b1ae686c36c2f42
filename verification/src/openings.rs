//! The opening of each section and of each modal overlay, with the id of
//! its slide, counted in the text of the finished document: it stands there
//! once for each slide of that id that is shown that way, and so exactly
//! once where no two slides share an id.

use vstd::prelude::*;
use crate::classify::{
    count_where, lemma_primary_sequence, lemma_render_set, modal_indices, primary_indices,
};
use crate::codec::is_base64_text;
use crate::compile_html::{html_output, main_sections, modal_overlays, step_total};
use crate::document::{
    analytics_text, aspect_css, document_text, dot_nav, DOC_BODY, DOC_DOTS, DOC_END, DOC_HEAD,
    DOC_MODALS, DOC_SCRIPT, DOC_STYLE,
};
use crate::escape::{escaped, lemma_escaped_is_injective, lemma_escaped_is_markup_free};
use crate::html::{
    main_section, modal_overlay, slide_body, MAIN_CLOSE, MAIN_FRAME, MAIN_OPEN, MODAL_CLOSE,
    MODAL_FRAME, MODAL_OPEN, TAG_END,
};
use crate::marks::{
    is_mark, lemma_main_opens_tag, lemma_marks_open_tags, lemma_modal_opens_tag,
    lemma_scan_analytics_script, lemma_scan_doc_body, lemma_scan_doc_script,
    lemma_scan_doc_style, lemma_scan_frame_pieces, lemma_scan_skeleton_pieces, opens_tag,
    MAIN_MARK, MODAL_MARK,
};
use crate::model::{ProjectView, SlideView};
use crate::scan::{
    breaks_off, clean, lemma_break_from_difference, lemma_break_shifts,
    lemma_clean_concat, lemma_clean_of_longer, lemma_clean_pieces, lemma_clean_tally,
    lemma_one_hit, lemma_single, lemma_tally_concat, lemma_tally_selected, occurrences,
    occurs_at, tally,
};
use crate::sections::{
    lemma_body_is_clean, lemma_dot_nav_is_clean, lemma_escaped_is_clean,
    lemma_main_section_counts, lemma_modal_overlay_counts,
};
use crate::text::{
    concat_all, lemma_concat_all_grows, lemma_concat_all_next, lemma_concat_all_split,
};

verus! {

/// The tag that `open` begins, completed with the id `id`: `open` without
/// its indentation, the id in escaped form, and the end of the tag.
pub open spec fn opening_with(open: Seq<char>, id: Seq<char>) -> Seq<char> {
    open.skip(2) + escaped(id) + TAG_END@
}

/// The opening of the main section of the slide with the id `id`, such as
/// `<section class="main-slide" id="slide-001">`.
pub open spec fn section_opening(id: Seq<char>) -> Seq<char> {
    opening_with(MAIN_OPEN@, id)
}

/// The opening of the modal overlay of the slide with the id `id`, such as
/// `<div class="modal-overlay" id="modal-slide-002">`.
pub open spec fn modal_opening(id: Seq<char>) -> Seq<char> {
    opening_with(MODAL_OPEN@, id)
}

/// Accepts the places in `order` at which a slide with the id `id` stands.
pub open spec fn has_id_at(slides: Seq<SlideView>, order: Seq<int>, id: Seq<char>) -> spec_fn(
    int,
) -> bool {
    |j: int| slides[order[j]].id == id
}

/// A tag opened for the slide `own`, followed by text that is clean of the
/// opening for `id`, holds that opening once where `own` is `id`, and not
/// at all otherwise.
#[verifier::rlimit(40)]
proof fn lemma_opening_tally(
    open: Seq<char>,
    tail: Seq<char>,
    own: Seq<char>,
    id: Seq<char>,
)
    requires
        opens_tag(open, tail),
        clean(tail, opening_with(open, id)),
    ensures
        tally(
            open + escaped(own) + tail,
            opening_with(open, id),
            if own == id {
                1
            } else {
                0
            },
        ),
{
    reveal_strlit("\">");
    let tag = open.skip(2);
    let mine = escaped(own);
    let asked = escaped(id);
    let mark = opening_with(open, id);
    let head = open + mine;
    let text = head + tail;
    lemma_escaped_is_markup_free(own);
    lemma_escaped_is_markup_free(id);
    assert(mark.len() == tag.len() + asked.len() + 2);
    assert(mark[0] == tag[0] && tag[0] == '<');
    assert forall|i: int| 0 <= i < text.len() && i != 2 && #[trigger] text[i] == mark[0] implies breaks_off(
        text,
        mark,
        i,
        1,
    ) by {
        if i < open.len() {
            assert(text[i] == open[i]);
        } else if i < head.len() {
            assert(text[i] == mine[i - open.len()]);
        } else {
            assert(text[i] == tail[i - head.len()]);
            lemma_break_shifts(head, tail, mark, i - head.len(), 1);
        }
    }
    assert forall|k: int| 0 <= k < tag.len() implies text[2 + k] == mark[k] by {
        assert(text[2 + k] == open[2 + k]);
    }
    if own == id {
        assert(text.subrange(2, 2 + mark.len() as int) =~= mark) by {
            assert forall|k: int| 0 <= k < mark.len() implies text.subrange(2, 2 + mark.len() as int)[k]
                == mark[k] by {
                if k < tag.len() {
                } else if k < tag.len() + asked.len() {
                    assert(text[2 + k] == mine[k - tag.len()]);
                } else {
                    assert(text[2 + k] == tail[k - tag.len() - asked.len()]);
                }
            }
        }
        lemma_single(text, mark, 2);
    } else {
        if mine == asked {
            lemma_escaped_is_injective(own, id);
        }
        let d: int = if mine.len() < asked.len() {
            mine.len() as int
        } else if asked.len() < mine.len() {
            asked.len() as int
        } else {
            choose|d: int| 0 <= d < mine.len() && mine[d] != asked[d]
        };
        if mine.len() == asked.len() {
            assert(!(mine =~= asked));
        }
        assert(0 <= d && d <= mine.len() && d <= asked.len());
        assert(text[2 + tag.len() + d] != mark[tag.len() + d]) by {
            if mine.len() < asked.len() {
                assert(text[2 + tag.len() + d] == tail[0]);
                assert(mark[tag.len() + d] == asked[d]);
            } else if asked.len() < mine.len() {
                assert(text[2 + tag.len() + d] == mine[d]);
                assert(mark[tag.len() + d] == TAG_END@[0]);
            } else {
                assert(text[2 + tag.len() + d] == mine[d]);
                assert(mark[tag.len() + d] == asked[d]);
            }
        }
        lemma_break_from_difference(text, mark, 2, 1, tag.len() + d);
        assert(clean(text, mark));
        lemma_clean_tally(text, mark);
    }
}

/// The opening for any id begins with the mark of its kind.
proof fn lemma_opening_begins_with_mark(id: Seq<char>)
    ensures
        0 < MAIN_MARK@.len() <= section_opening(id).len(),
        section_opening(id).take(MAIN_MARK@.len() as int) == MAIN_MARK@,
        0 < MODAL_MARK@.len() <= modal_opening(id).len(),
        modal_opening(id).take(MODAL_MARK@.len() as int) == MODAL_MARK@,
{
    lemma_main_opens_tag();
    lemma_modal_opens_tag();
    lemma_marks_open_tags(MAIN_MARK@);
    lemma_marks_open_tags(MODAL_MARK@);
    assert(section_opening(id).take(MAIN_MARK@.len() as int) =~= MAIN_OPEN@.subrange(
        2,
        2 + MAIN_MARK@.len() as int,
    ));
    assert(modal_opening(id).take(MODAL_MARK@.len() as int) =~= MODAL_OPEN@.subrange(
        2,
        2 + MODAL_MARK@.len() as int,
    ));
}

/// What follows the id in a section or an overlay is clean of a mark.
proof fn lemma_after_id_is_clean(
    slides: Seq<SlideView>,
    slide: SlideView,
    image: Seq<char>,
    aspect: Seq<char>,
    frame: Seq<char>,
    close: Seq<char>,
    mark: Seq<char>,
)
    requires
        is_mark(mark),
        slide.well_formed(),
        is_base64_text(image),
        clean(frame, mark),
        clean(close, mark),
    ensures
        clean(frame + escaped(aspect) + slide_body(slides, slide, image) + close, mark),
{
    broadcast use lemma_clean_concat;

    lemma_escaped_is_clean(aspect, mark);
    lemma_body_is_clean(slides, slide, image, mark);
}

/// The main section of a slide holds the opening for `id` once where `id`
/// is the id of the slide, and not at all otherwise; it holds the opening of
/// no modal overlay.
#[verifier::rlimit(40)]
pub proof fn lemma_main_section_opening(
    slides: Seq<SlideView>,
    slide: SlideView,
    image: Seq<char>,
    aspect: Seq<char>,
    id: Seq<char>,
)
    requires
        slide.well_formed(),
        is_base64_text(image),
    ensures
        tally(
            main_section(slides, slide, image, aspect),
            section_opening(id),
            if slide.id == id {
                1
            } else {
                0
            },
        ),
        clean(main_section(slides, slide, image, aspect), modal_opening(id)),
{
    let tail = MAIN_FRAME@ + escaped(aspect) + slide_body(slides, slide, image) + MAIN_CLOSE@;
    lemma_opening_begins_with_mark(id);
    lemma_main_opens_tag();
    lemma_scan_frame_pieces(MAIN_MARK@);
    lemma_after_id_is_clean(slides, slide, image, aspect, MAIN_FRAME@, MAIN_CLOSE@, MAIN_MARK@);
    lemma_clean_of_longer(tail, MAIN_MARK@, section_opening(id));
    assert(tail[0] == MAIN_FRAME@[0] && tail[1] == MAIN_FRAME@[1]);
    lemma_opening_tally(MAIN_OPEN@, tail, slide.id, id);
    assert(main_section(slides, slide, image, aspect) =~= MAIN_OPEN@ + escaped(slide.id) + tail);
    lemma_main_section_counts(slides, slide, image, aspect);
    lemma_clean_of_longer(
        main_section(slides, slide, image, aspect),
        MODAL_MARK@,
        modal_opening(id),
    );
}

/// The modal overlay of a slide holds the opening for `id` once where `id`
/// is the id of the slide, and not at all otherwise; it holds the opening of
/// no main section.
#[verifier::rlimit(40)]
pub proof fn lemma_modal_overlay_opening(
    slides: Seq<SlideView>,
    slide: SlideView,
    image: Seq<char>,
    aspect: Seq<char>,
    id: Seq<char>,
)
    requires
        slide.well_formed(),
        is_base64_text(image),
    ensures
        tally(
            modal_overlay(slides, slide, image, aspect),
            modal_opening(id),
            if slide.id == id {
                1
            } else {
                0
            },
        ),
        clean(modal_overlay(slides, slide, image, aspect), section_opening(id)),
{
    let tail = MODAL_FRAME@ + escaped(aspect) + slide_body(slides, slide, image) + MODAL_CLOSE@;
    lemma_opening_begins_with_mark(id);
    lemma_modal_opens_tag();
    lemma_scan_frame_pieces(MODAL_MARK@);
    lemma_after_id_is_clean(slides, slide, image, aspect, MODAL_FRAME@, MODAL_CLOSE@, MODAL_MARK@);
    lemma_clean_of_longer(tail, MODAL_MARK@, modal_opening(id));
    assert(tail[0] == MODAL_FRAME@[0] && tail[1] == MODAL_FRAME@[1]);
    lemma_opening_tally(MODAL_OPEN@, tail, slide.id, id);
    assert(modal_overlay(slides, slide, image, aspect) =~= MODAL_OPEN@ + escaped(slide.id)
        + tail);
    lemma_modal_overlay_counts(slides, slide, image, aspect);
    lemma_clean_of_longer(
        modal_overlay(slides, slide, image, aspect),
        MAIN_MARK@,
        section_opening(id),
    );
}

/// The skeleton holds no opening of a section or an overlay: a document
/// holds such an opening as often as its primary sections and its modal
/// overlays together.
#[verifier::rlimit(40)]
proof fn lemma_document_of_longer(
    title: Seq<char>,
    aspect: Seq<char>,
    main_html: Seq<char>,
    sub_html: Seq<char>,
    primary_count: nat,
    analytics: bool,
    base: Seq<char>,
    mark: Seq<char>,
    in_main: nat,
    in_sub: nat,
)
    requires
        base == MAIN_MARK@ || base == MODAL_MARK@,
        0 < base.len() <= mark.len(),
        mark.take(base.len() as int) == base,
        tally(main_html, mark, in_main),
        tally(sub_html, mark, in_sub),
    ensures
        tally(
            document_text(title, aspect, main_html, sub_html, primary_count, analytics),
            mark,
            in_main + in_sub,
        ),
{
    lemma_marks_open_tags(base);
    lemma_scan_skeleton_pieces(base);
    lemma_scan_doc_style(base);
    lemma_scan_doc_body(base);
    lemma_scan_doc_script(base);
    lemma_scan_analytics_script(base);
    lemma_escaped_is_clean(title, base);
    lemma_escaped_is_clean(aspect, base);
    lemma_dot_nav_is_clean(primary_count, base);
    let head = DOC_HEAD@ + escaped(title) + DOC_STYLE@ + escaped(aspect) + DOC_BODY@;
    let middle = DOC_MODALS@;
    let tail = DOC_DOTS@ + dot_nav(primary_count) + DOC_SCRIPT@ + analytics_text(analytics)
        + DOC_END@;
    assert(clean(head, base) && clean(tail, base)) by {
        broadcast use lemma_clean_concat;

    }
    lemma_clean_of_longer(head, base, mark);
    lemma_clean_of_longer(middle, base, mark);
    lemma_clean_of_longer(tail, base, mark);
    lemma_clean_tally(head, mark);
    lemma_clean_tally(middle, mark);
    lemma_clean_tally(tail, mark);
    lemma_tally_concat(head, main_html, mark, 0, in_main);
    lemma_tally_concat(head + main_html, middle, mark, in_main, 0);
    lemma_tally_concat(head + main_html + middle, sub_html, mark, in_main, in_sub);
    lemma_tally_concat(head + main_html + middle + sub_html, tail, mark, in_main + in_sub, 0);
    assert(document_text(title, aspect, main_html, sub_html, primary_count, analytics) =~= head
        + main_html + middle + sub_html + tail);
}

/// In the finished document of a project, the opening of the main section
/// for an id stands once for each primary slide of that id, and the opening
/// of the modal overlay for an id once for each member of the
/// secondary-render set of that id.
#[verifier::rlimit(40)]
pub proof fn lemma_document_openings(
    p: ProjectView,
    title: Seq<char>,
    images: Seq<Seq<char>>,
    id: Seq<char>,
)
    requires
        p.well_formed(),
        images.len() == step_total(p),
        forall|k: int| 0 <= k < images.len() ==> is_base64_text(#[trigger] images[k]),
    ensures
        occurrences(html_output(p, title, images), section_opening(id)) == count_where(
            primary_indices(p.slides).len(),
            has_id_at(p.slides, primary_indices(p.slides), id),
        ),
        occurrences(html_output(p, title, images), modal_opening(id)) == count_where(
            modal_indices(p.slides).len(),
            has_id_at(p.slides, modal_indices(p.slides), id),
        ),
{
    let slides = p.slides;
    let aspect = aspect_css(p.aspect_ratio);
    let primary = primary_indices(slides);
    let modal = modal_indices(slides);
    let mains = main_sections(p, images);
    let modals = modal_overlays(p, images);
    let in_main = has_id_at(slides, primary, id);
    let in_modal = has_id_at(slides, modal, id);
    lemma_primary_sequence(slides);
    lemma_render_set(slides);
    lemma_opening_begins_with_mark(id);
    assert forall|k: int| 0 <= k < mains.len() implies tally(
        #[trigger] mains[k],
        section_opening(id),
        if in_main(k) {
            1
        } else {
            0
        },
    ) && clean(mains[k], modal_opening(id)) by {
        assert(slides[primary[k]].well_formed());
        lemma_main_section_opening(slides, slides[primary[k]], images[k], aspect, id);
    }
    assert forall|k: int| 0 <= k < modals.len() implies tally(
        #[trigger] modals[k],
        modal_opening(id),
        if in_modal(k) {
            1
        } else {
            0
        },
    ) && clean(modals[k], section_opening(id)) by {
        assert(slides[modal[k]].well_formed());
        lemma_modal_overlay_opening(
            slides,
            slides[modal[k]],
            images[primary.len() + k],
            aspect,
            id,
        );
    }
    let main_html = concat_all(mains);
    let sub_html = concat_all(modals);
    lemma_tally_selected(mains, section_opening(id), in_main);
    lemma_tally_selected(modals, modal_opening(id), in_modal);
    lemma_clean_pieces(mains, modal_opening(id));
    lemma_clean_pieces(modals, section_opening(id));
    lemma_clean_tally(main_html, modal_opening(id));
    lemma_clean_tally(sub_html, section_opening(id));
    lemma_document_of_longer(
        title,
        aspect,
        main_html,
        sub_html,
        primary.len(),
        p.analytics_on(),
        MAIN_MARK@,
        section_opening(id),
        count_where(mains.len(), in_main),
        0,
    );
    lemma_document_of_longer(
        title,
        aspect,
        main_html,
        sub_html,
        primary.len(),
        p.analytics_on(),
        MODAL_MARK@,
        modal_opening(id),
        0,
        count_where(modals.len(), in_modal),
    );
}

/// In a list of distinct positions of a project without shared ids, the
/// id of the slide at one place stands at no other place.
proof fn lemma_id_stands_once(p: ProjectView, order: Seq<int>, k: int)
    requires
        p.ids_unique(),
        0 <= k < order.len(),
        forall|j: int| 0 <= j < order.len() ==> 0 <= #[trigger] order[j] < p.slides.len(),
        forall|i: int, j: int|
            0 <= i < j < order.len() ==> #[trigger] order[i] != #[trigger] order[j],
    ensures
        count_where(order.len(), has_id_at(p.slides, order, p.slides[order[k]].id)) == 1,
{
    let hit = has_id_at(p.slides, order, p.slides[order[k]].id);
    assert forall|j: int| 0 <= j < order.len() implies (#[trigger] hit(j) <==> j == k) by {
        let a = order[j];
        let b = order[k];
        if j < k {
            assert(order[j] != order[k]);
        } else if k < j {
            assert(order[k] != order[j]);
        }
        if a < b {
            assert(p.slides[a].id != p.slides[b].id);
        } else if b < a {
            assert(p.slides[b].id != p.slides[a].id);
        }
    }
    lemma_one_hit(order.len(), hit, k);
}

/// Where no two slides of a project share an id, the finished document
/// holds the opening of the main section of the `k`-th primary slide
/// exactly once.
#[verifier::rlimit(40)]
pub proof fn lemma_section_opening_stands_once(
    p: ProjectView,
    title: Seq<char>,
    images: Seq<Seq<char>>,
    k: int,
)
    requires
        p.well_formed(),
        p.ids_unique(),
        images.len() == step_total(p),
        forall|i: int| 0 <= i < images.len() ==> is_base64_text(#[trigger] images[i]),
        0 <= k < primary_indices(p.slides).len(),
    ensures
        occurrences(
            html_output(p, title, images),
            section_opening(p.slides[primary_indices(p.slides)[k]].id),
        ) == 1,
{
    let primary = primary_indices(p.slides);
    lemma_primary_sequence(p.slides);
    assert forall|i: int, j: int| 0 <= i < j < primary.len() implies #[trigger] primary[i]
        != #[trigger] primary[j] by {
        assert(primary[i] < primary[j]);
    }
    lemma_id_stands_once(p, primary, k);
    lemma_document_openings(p, title, images, p.slides[primary[k]].id);
}

/// Where no two slides of a project share an id, the finished document
/// holds the opening of the modal overlay of the `k`-th member of the
/// secondary-render set exactly once.
#[verifier::rlimit(40)]
pub proof fn lemma_modal_opening_stands_once(
    p: ProjectView,
    title: Seq<char>,
    images: Seq<Seq<char>>,
    k: int,
)
    requires
        p.well_formed(),
        p.ids_unique(),
        images.len() == step_total(p),
        forall|i: int| 0 <= i < images.len() ==> is_base64_text(#[trigger] images[i]),
        0 <= k < modal_indices(p.slides).len(),
    ensures
        occurrences(
            html_output(p, title, images),
            modal_opening(p.slides[modal_indices(p.slides)[k]].id),
        ) == 1,
{
    let modal = modal_indices(p.slides);
    lemma_render_set(p.slides);
    lemma_id_stands_once(p, modal, k);
    lemma_document_openings(p, title, images, p.slides[modal[k]].id);
}

/// A tag opened for a slide holds the opening for the id of that slide at
/// its third character.
proof fn lemma_opening_stands(open: Seq<char>, tail: Seq<char>, id: Seq<char>)
    requires
        opens_tag(open, tail),
    ensures
        occurs_at(open + escaped(id) + tail, opening_with(open, id), 2),
{
    reveal_strlit("\">");
    let tag = open.skip(2);
    let mine = escaped(id);
    let mark = opening_with(open, id);
    let text = open + mine + tail;
    assert(text.subrange(2, 2 + mark.len() as int) =~= mark) by {
        assert forall|k: int| 0 <= k < mark.len() implies text.subrange(
            2,
            2 + mark.len() as int,
        )[k] == mark[k] by {
            if k < tag.len() {
                assert(text[2 + k] == open[2 + k]);
            } else if k < tag.len() + mine.len() {
                assert(text[2 + k] == mine[k - tag.len()]);
            } else {
                assert(text[2 + k] == tail[k - tag.len() - mine.len()]);
            }
        }
    }
}

/// What stands in a text stands in it whatever follows.
proof fn lemma_occurs_before(a: Seq<char>, b: Seq<char>, mark: Seq<char>, at: int)
    requires
        occurs_at(a, mark, at),
    ensures
        occurs_at(a + b, mark, at),
{
    assert((a + b).subrange(at, at + mark.len()) =~= a.subrange(at, at + mark.len()));
}

/// What stands in a text stands in it, further on, whatever precedes.
proof fn lemma_occurs_after(a: Seq<char>, b: Seq<char>, mark: Seq<char>, at: int)
    requires
        occurs_at(b, mark, at),
    ensures
        occurs_at(a + b, mark, at + a.len()),
{
    assert((a + b).subrange(at + a.len(), at + a.len() + mark.len()) =~= b.subrange(
        at,
        at + mark.len(),
    ));
}

/// What precedes the main sections in a document.
pub open spec fn document_head(title: Seq<char>, aspect: Seq<char>) -> Seq<char> {
    DOC_HEAD@ + escaped(title) + DOC_STYLE@ + escaped(aspect) + DOC_BODY@
}

/// The place in the finished document at which the tag of the `k`-th main
/// section opens: after the head of the document, the sections before it,
/// and its own indentation.
pub open spec fn section_start(
    p: ProjectView,
    title: Seq<char>,
    images: Seq<Seq<char>>,
    k: int,
) -> int {
    (document_head(title, aspect_css(p.aspect_ratio)).len() + concat_all(
        main_sections(p, images).take(k),
    ).len() + 2) as int
}

/// What stands in a piece stands in the text of all pieces, after the
/// pieces before it.
proof fn lemma_occurs_in_piece(parts: Seq<Seq<char>>, k: int, mark: Seq<char>, at: int)
    requires
        0 <= k < parts.len(),
        occurs_at(parts[k], mark, at),
    ensures
        occurs_at(concat_all(parts), mark, concat_all(parts.take(k)).len() + at),
{
    let before = concat_all(parts.take(k));
    let upto = concat_all(parts.take(k + 1));
    let later = concat_all(parts.skip(k + 1));
    lemma_concat_all_next(parts, k);
    lemma_concat_all_split(parts, k + 1);
    lemma_occurs_after(before, parts[k], mark, at);
    lemma_occurs_before(upto, later, mark, at + before.len());
}

/// What stands in the main sections stands in the document, after its head.
proof fn lemma_occurs_in_document(
    title: Seq<char>,
    aspect: Seq<char>,
    main_html: Seq<char>,
    sub_html: Seq<char>,
    primary_count: nat,
    analytics: bool,
    mark: Seq<char>,
    at: int,
)
    requires
        occurs_at(main_html, mark, at),
    ensures
        occurs_at(
            document_text(title, aspect, main_html, sub_html, primary_count, analytics),
            mark,
            document_head(title, aspect).len() + at,
        ),
{
    let head = document_head(title, aspect);
    let rest = DOC_MODALS@ + sub_html + DOC_DOTS@ + dot_nav(primary_count) + DOC_SCRIPT@
        + analytics_text(analytics) + DOC_END@;
    lemma_occurs_after(head, main_html, mark, at);
    lemma_occurs_before(head + main_html, rest, mark, at + head.len());
    assert(document_text(title, aspect, main_html, sub_html, primary_count, analytics) =~= head
        + main_html + rest);
}

/// A main section holds the opening for the id of its slide at its third
/// character.
proof fn lemma_section_opens(
    slides: Seq<SlideView>,
    slide: SlideView,
    image: Seq<char>,
    aspect: Seq<char>,
)
    ensures
        occurs_at(main_section(slides, slide, image, aspect), section_opening(slide.id), 2),
        main_section(slides, slide, image, aspect).len() >= 2,
{
    let tail = MAIN_FRAME@ + escaped(aspect) + slide_body(slides, slide, image) + MAIN_CLOSE@;
    lemma_main_opens_tag();
    assert(tail[0] == MAIN_FRAME@[0] && tail[1] == MAIN_FRAME@[1]);
    lemma_opening_stands(MAIN_OPEN@, tail, slide.id);
    assert(main_section(slides, slide, image, aspect) =~= MAIN_OPEN@ + escaped(slide.id) + tail);
}

/// The main section of the `k`-th primary slide opens, with the id of that
/// slide, at its place in the finished document.
#[verifier::rlimit(40)]
pub proof fn lemma_section_stands_at_its_place(
    p: ProjectView,
    title: Seq<char>,
    images: Seq<Seq<char>>,
    k: int,
)
    requires
        images.len() == step_total(p),
        0 <= k < primary_indices(p.slides).len(),
    ensures
        occurs_at(
            html_output(p, title, images),
            section_opening(p.slides[primary_indices(p.slides)[k]].id),
            section_start(p, title, images, k),
        ),
{
    let slides = p.slides;
    let aspect = aspect_css(p.aspect_ratio);
    let slide = slides[primary_indices(slides)[k]];
    let mains = main_sections(p, images);
    let mark = section_opening(slide.id);
    lemma_section_opens(slides, slide, images[k], aspect);
    assert(occurs_at(mains[k], mark, 2)) by {
        assert(mains[k] == main_section(slides, slide, images[k], aspect));
    }
    lemma_occurs_in_piece(mains, k, mark, 2);
    assert(html_output(p, title, images) == document_text(
        title,
        aspect,
        concat_all(mains),
        concat_all(modal_overlays(p, images)),
        primary_indices(slides).len(),
        p.analytics_on(),
    ));
    lemma_occurs_in_document(
        title,
        aspect,
        concat_all(mains),
        concat_all(modal_overlays(p, images)),
        primary_indices(slides).len(),
        p.analytics_on(),
        mark,
        (concat_all(mains.take(k)).len() + 2) as int,
    );
}

/// The main sections open in the order of the primary sequence: the
/// section of an earlier primary slide opens before that of a later one.
pub proof fn lemma_sections_open_in_order(
    p: ProjectView,
    title: Seq<char>,
    images: Seq<Seq<char>>,
    j: int,
    k: int,
)
    requires
        images.len() == step_total(p),
        0 <= j < k < primary_indices(p.slides).len(),
    ensures
        section_start(p, title, images, j) < section_start(p, title, images, k),
        occurs_at(
            html_output(p, title, images),
            section_opening(p.slides[primary_indices(p.slides)[j]].id),
            section_start(p, title, images, j),
        ),
        occurs_at(
            html_output(p, title, images),
            section_opening(p.slides[primary_indices(p.slides)[k]].id),
            section_start(p, title, images, k),
        ),
{
    let mains = main_sections(p, images);
    lemma_section_stands_at_its_place(p, title, images, j);
    lemma_section_stands_at_its_place(p, title, images, k);
    lemma_concat_all_grows(mains, j, k);
    lemma_section_opens(
        p.slides,
        p.slides[primary_indices(p.slides)[j]],
        images[j],
        aspect_css(p.aspect_ratio),
    );
    assert(mains[j].len() >= 2);
}

} // verus!
