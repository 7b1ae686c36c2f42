//! Whole runs of the two compilers: what a driver that does as it is asked
//! sees from the first answer to the last.

use vstd::prelude::*;
use crate::classify::{modal_indices, page_order, primary_indices};
use crate::codec::{base64_standard, decode_outcome, decoded_rgb8, encodable, RasterImageView};
use crate::compile_html::{
    html_begin, html_next, html_output, main_sections, modal_overlays, primary_count,
    slide_at_step, step_total, HtmlActionView, HtmlEventView, HtmlPhase, HtmlState, HtmlStepView,
};
use crate::compile_pdf::{
    page_total, pdf_begin, pdf_next, placement, PdfActionView, PdfEventView, PdfPhase, PdfState,
    PdfStepView,
};
use crate::document::{aspect_css, title_for};
use crate::error::CompileErrorView;
use crate::html::{main_section, modal_overlay};
use crate::model::{ExportProgress, ProjectView};
use crate::pdf::preset_of;
use crate::validate::validation_warnings;

verus! {

/// The images `reads` in their transport encoding.
pub open spec fn encoded(reads: Seq<Seq<u8>>) -> Seq<Seq<char>> {
    Seq::new(reads.len(), |k: int| base64_standard(reads[k]))
}

/// True when the decoder reads `bytes` as an image and their transport
/// encoding has a length that can be counted.
pub open spec fn embeddable(bytes: Seq<u8>) -> bool {
    decoded_rgb8(bytes) is Ok && encodable(bytes.len())
}

/// The finished document of a project whose images, in reading order, are
/// stored as `reads`.
pub open spec fn html_document(p: ProjectView, reads: Seq<Seq<u8>>) -> Seq<char> {
    html_output(p, title_for(p.source_file), encoded(reads))
}

/// The state of an HTML compile and its last answer after the driver has
/// delivered the images `reads`, one for each request.
pub open spec fn html_after_reads(p: ProjectView, reads: Seq<Seq<u8>>) -> (HtmlState, HtmlStepView)
    decreases reads.len(),
{
    if reads.len() == 0 {
        html_begin(p)
    } else {
        html_next(
            html_after_reads(p, reads.drop_last()).0,
            HtmlEventView::ImageRead { bytes: reads.last() },
        )
    }
}

/// While images that the decoder reads are delivered as asked, an HTML
/// compile asks for the image of each slide of its plan in turn, announces
/// progress once per image, and, with the last image, hands over the
/// finished document. That document is fixed by the project and the stored
/// images alone.
pub proof fn lemma_html_run(p: ProjectView, reads: Seq<Seq<u8>>)
    requires
        step_total(p) <= usize::MAX,
        reads.len() <= step_total(p),
    ensures
        (forall|k: int| 0 <= k < reads.len() ==> embeddable(#[trigger] reads[k])) ==> {
            &&& html_after_reads(p, reads).0 == (HtmlState {
                project: p,
                title: title_for(p.source_file),
                images: encoded(reads),
                phase: if reads.len() < step_total(p) {
                    HtmlPhase::Loading
                } else {
                    HtmlPhase::Writing
                },
            })
            &&& html_after_reads(p, reads).1.action == (if reads.len() < step_total(p) {
                HtmlActionView::ReadImage {
                    path: p.slides[slide_at_step(p, reads.len() as int)].image_path,
                }
            } else {
                HtmlActionView::WriteOutput { html: html_document(p, reads) }
            })
            &&& html_after_reads(p, reads).1.progress == (if reads.len() == 0 {
                None
            } else {
                Some(
                    ExportProgress {
                        current: reads.len() as usize,
                        total: step_total(p) as usize,
                    },
                )
            })
        },
    decreases reads.len(),
{
    if forall|k: int| 0 <= k < reads.len() ==> embeddable(#[trigger] reads[k]) {
        if reads.len() == 0 {
            assert(encoded(reads) =~= Seq::<Seq<char>>::empty());
        } else {
            let before = reads.drop_last();
            assert forall|k: int| 0 <= k < before.len() implies embeddable(
                #[trigger] before[k],
            ) by {
                assert(before[k] == reads[k]);
            }
            lemma_html_run(p, before);
            assert(embeddable(reads[reads.len() - 1]));
            assert(encoded(reads) =~= encoded(before).push(base64_standard(reads.last())));
        }
    }
}

/// An image that the decoder does not read ends an HTML compile with the
/// path of that image and the decoder's cause, however many images were
/// read before it; no document is handed over.
pub proof fn lemma_html_refuses(p: ProjectView, reads: Seq<Seq<u8>>, bad: Seq<u8>)
    requires
        step_total(p) <= usize::MAX,
        reads.len() < step_total(p),
    ensures
        (forall|k: int| 0 <= k < reads.len() ==> embeddable(#[trigger] reads[k]))
            ==> match decoded_rgb8(bad) {
            Err(cause) => html_after_reads(p, reads.push(bad)).1 == (HtmlStepView {
                progress: None,
                action: HtmlActionView::Fail {
                    error: CompileErrorView::ImageDecode {
                        path: p.slides[slide_at_step(p, reads.len() as int)].image_path,
                        cause,
                    },
                },
            }) && html_after_reads(p, reads.push(bad)).0.phase == HtmlPhase::Closed,
            Ok(_) => true,
        },
{
    lemma_html_run(p, reads);
    assert(reads.push(bad).drop_last() =~= reads);
}

/// A compile that has handed over its document ends, once the document is
/// written, with the warnings of the project.
pub proof fn lemma_html_finish(p: ProjectView, reads: Seq<Seq<u8>>)
    requires
        step_total(p) <= usize::MAX,
        reads.len() == step_total(p),
    ensures
        (forall|k: int| 0 <= k < reads.len() ==> embeddable(#[trigger] reads[k])) ==> {
            &&& html_next(html_after_reads(p, reads).0, HtmlEventView::OutputWritten).1 == (
            HtmlStepView {
                progress: None,
                action: HtmlActionView::Finish { warnings: validation_warnings(p.slides) },
            })
            &&& html_next(html_after_reads(p, reads).0, HtmlEventView::OutputWritten).0.phase
                == HtmlPhase::Closed
        },
{
    lemma_html_run(p, reads);
}

/// The finished document holds one main section for each primary slide and
/// one modal overlay for each member of the secondary-render set, each with
/// the image that was read for it.
pub proof fn lemma_html_sections(p: ProjectView, images: Seq<Seq<char>>)
    requires
        images.len() == step_total(p),
    ensures
        main_sections(p, images).len() == primary_indices(p.slides).len(),
        modal_overlays(p, images).len() == modal_indices(p.slides).len(),
        forall|k: int|
            0 <= k < primary_indices(p.slides).len() ==> #[trigger] main_sections(p, images)[k]
                == main_section(
                p.slides,
                p.slides[primary_indices(p.slides)[k]],
                images[k],
                aspect_css(p.aspect_ratio),
            ),
        forall|k: int|
            0 <= k < modal_indices(p.slides).len() ==> #[trigger] modal_overlays(p, images)[k]
                == modal_overlay(
                p.slides,
                p.slides[modal_indices(p.slides)[k]],
                images[primary_count(p) + k],
                aspect_css(p.aspect_ratio),
            ),
{
}

/// True when the decoder reads `bytes` as an image with at least one pixel.
pub open spec fn printable(bytes: Seq<u8>) -> bool {
    decode_outcome(bytes) matches Ok(image) && image.drawable()
}

/// The image that decoding makes of `bytes`, where it makes one.
pub open spec fn page_image(bytes: Seq<u8>) -> RasterImageView {
    match decode_outcome(bytes) {
        Ok(image) => image,
        Err(_) => RasterImageView { width: 0, height: 0, rgb_pixels: Seq::empty() },
    }
}

/// The images that decoding makes of the stored images `reads`.
pub open spec fn page_images(reads: Seq<Seq<u8>>) -> Seq<RasterImageView> {
    Seq::new(reads.len(), |k: int| page_image(reads[k]))
}

/// The state of a PDF compile and its last answer after the driver has
/// delivered the images `reads`, one for each request.
pub open spec fn pdf_after_reads(p: ProjectView, reads: Seq<Seq<u8>>) -> (PdfState, PdfStepView)
    decreases reads.len(),
{
    if reads.len() == 0 {
        pdf_begin(p)
    } else {
        pdf_next(
            pdf_after_reads(p, reads.drop_last()).0,
            PdfEventView::ImageRead { bytes: reads.last() },
        )
    }
}

/// The state of a PDF compile and its last answer after all images are
/// delivered, the document is created and `placed` pages are reported as
/// placed.
pub open spec fn pdf_after_pages(p: ProjectView, reads: Seq<Seq<u8>>, placed: nat) -> (
    PdfState,
    PdfStepView,
)
    decreases placed,
{
    if placed == 0 {
        pdf_next(pdf_after_reads(p, reads).0, PdfEventView::DocumentCreated)
    } else {
        pdf_next(pdf_after_pages(p, reads, (placed - 1) as nat).0, PdfEventView::PagePlaced)
    }
}

/// While images that the decoder reads are delivered as asked, a PDF
/// compile asks for the image of each slide in page order, decodes it,
/// announces progress once per image, and, with the last image, asks for the
/// empty document.
pub proof fn lemma_pdf_loading(p: ProjectView, reads: Seq<Seq<u8>>)
    requires
        2 * page_total(p) <= usize::MAX,
        reads.len() <= page_total(p),
    ensures
        (forall|k: int| 0 <= k < reads.len() ==> printable(#[trigger] reads[k])) ==> {
            &&& pdf_after_reads(p, reads).0 == (PdfState {
                project: p,
                pages: page_images(reads),
                placed: 0,
                phase: if reads.len() < page_total(p) {
                    PdfPhase::Loading
                } else {
                    PdfPhase::Creating
                },
            })
            &&& pdf_after_reads(p, reads).1.action == (if reads.len() < page_total(p) {
                PdfActionView::ReadImage {
                    path: p.slides[page_order(p.slides)[reads.len() as int]].image_path,
                }
            } else {
                PdfActionView::CreateDocument {
                    title: p.source_file,
                    preset: preset_of(p.aspect_ratio),
                }
            })
            &&& pdf_after_reads(p, reads).1.progress == (if reads.len() == 0 {
                None
            } else {
                Some(
                    ExportProgress {
                        current: reads.len() as usize,
                        total: (2 * page_total(p)) as usize,
                    },
                )
            })
        },
    decreases reads.len(),
{
    if forall|k: int| 0 <= k < reads.len() ==> printable(#[trigger] reads[k]) {
        if reads.len() == 0 {
            assert(page_images(reads) =~= Seq::<RasterImageView>::empty());
        } else {
            let before = reads.drop_last();
            assert forall|k: int| 0 <= k < before.len() implies printable(
                #[trigger] before[k],
            ) by {
                assert(before[k] == reads[k]);
            }
            lemma_pdf_loading(p, before);
            assert(printable(reads[reads.len() - 1]));
            assert(page_images(reads) =~= page_images(before).push(page_image(reads.last())));
        }
    }
}

/// An image that the decoder does not read ends a PDF compile with the
/// path of that image and the decoder's cause, before any page is placed.
pub proof fn lemma_pdf_refuses(p: ProjectView, reads: Seq<Seq<u8>>, bad: Seq<u8>)
    requires
        2 * page_total(p) <= usize::MAX,
        reads.len() < page_total(p),
    ensures
        (forall|k: int| 0 <= k < reads.len() ==> printable(#[trigger] reads[k]))
            ==> match decode_outcome(bad) {
            Err(cause) => pdf_after_reads(p, reads.push(bad)).1 == (PdfStepView {
                progress: None,
                action: PdfActionView::Fail {
                    error: CompileErrorView::ImageDecode {
                        path: p.slides[page_order(p.slides)[reads.len() as int]].image_path,
                        cause,
                    },
                },
            }) && pdf_after_reads(p, reads.push(bad)).0.phase == PdfPhase::Closed,
            Ok(_) => true,
        },
{
    lemma_pdf_loading(p, reads);
    assert(reads.push(bad).drop_last() =~= reads);
}

/// Once all images are in and the document exists, a PDF compile places one
/// page for each slide: the `k`-th page holds the image decoded from the
/// `k`-th image read, and so the image of the `k`-th slide in page order.
/// Progress goes on from where loading left it, and after the last page the
/// compile asks for the serialized document.
pub proof fn lemma_pdf_placing(p: ProjectView, reads: Seq<Seq<u8>>, placed: nat)
    requires
        2 * page_total(p) <= usize::MAX,
        reads.len() == page_total(p),
        placed <= page_total(p),
    ensures
        (forall|k: int| 0 <= k < reads.len() ==> printable(#[trigger] reads[k])) ==> {
            &&& pdf_after_pages(p, reads, placed).0 == (PdfState {
                project: p,
                pages: page_images(reads),
                placed,
                phase: if placed < page_total(p) {
                    PdfPhase::Placing
                } else {
                    PdfPhase::Serializing
                },
            })
            &&& pdf_after_pages(p, reads, placed).1.action == (if placed < page_total(p) {
                PdfActionView::PlacePage { page: placement(p, page_images(reads), placed as int) }
            } else {
                PdfActionView::Serialize
            })
            &&& pdf_after_pages(p, reads, placed).1.progress == (if placed == 0 {
                None
            } else {
                Some(
                    ExportProgress {
                        current: (page_total(p) + placed) as usize,
                        total: (2 * page_total(p)) as usize,
                    },
                )
            })
        },
    decreases placed,
{
    if placed == 0 {
        lemma_pdf_loading(p, reads);
    } else {
        lemma_pdf_placing(p, reads, (placed - 1) as nat);
    }
}

/// After the last page, the serialized document is handed over for writing
/// as the driver delivered it, and the written document ends the compile
/// with the warnings of the project.
pub proof fn lemma_pdf_finish(p: ProjectView, reads: Seq<Seq<u8>>, bytes: Seq<u8>)
    requires
        2 * page_total(p) <= usize::MAX,
        reads.len() == page_total(p),
    ensures
        (forall|k: int| 0 <= k < reads.len() ==> printable(#[trigger] reads[k])) ==> ({
            let placed = pdf_after_pages(p, reads, page_total(p)).0;
            let serialized = pdf_next(placed, PdfEventView::Serialized { bytes });
            let written = pdf_next(serialized.0, PdfEventView::OutputWritten);
            &&& serialized.1 == (PdfStepView {
                progress: None,
                action: PdfActionView::WriteOutput { bytes },
            })
            &&& written.1 == (PdfStepView {
                progress: None,
                action: PdfActionView::Finish { warnings: validation_warnings(p.slides) },
            })
            &&& written.0.phase == PdfPhase::Closed
        }),
{
    lemma_pdf_placing(p, reads, page_total(p));
}

} // verus!
