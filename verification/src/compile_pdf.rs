//! The PDF compiler as a machine of steps. The compiler decides the order
//! of the pages, decodes the images, and fixes the size of the pages and the
//! scale of each image; its driver reads the images, builds the pages, and
//! writes the file.
//!
//! A compile runs through two phases. In the first, the image of every
//! slide is read and decoded, in page order. In the second, the document is
//! created, the pages are placed one by one, and the document is serialized
//! and written. Progress counts the steps of both phases: twice the number
//! of slides in all.

use vstd::prelude::*;
use vstd::string::*;
use crate::classify::{
    as_ints, lemma_indices_where, page_order, page_sequence, primary_at, primary_indices,
    secondary_at, secondary_indices,
};
use crate::codec::{decode, decode_outcome, RasterImage, RasterImageView};
use crate::error::{
    CompileError, CompileErrorView, CAUSE_BAD_SAMPLES, CAUSE_TOO_MANY, CAUSE_UNEXPECTED,
};
use crate::model::{ExportProgress, Project, ProjectView};
use crate::pdf::{
    fill_scale, page_height, page_preset, page_width, preset_of, PagePreset, Ratio,
    HUNDREDTHS_PER_INCH, NATURAL_DPI,
};
use crate::validate::{validate, validation_warnings, ValidationWarning, ValidationWarningView};

verus! {

/// Where a compile stands.
#[derive(Debug, Clone, Copy, PartialEq, Eq, Structural)]
pub enum PdfPhase {
    /// Images are still to be read and decoded.
    Loading,
    /// All images are decoded; the document is to be created.
    Creating,
    /// Pages are being placed.
    Placing,
    /// All pages are placed; the document is to be serialized.
    Serializing,
    /// The document is serialized and waits to be written.
    Writing,
    /// The compile has ended, with an artifact or with an error.
    Closed,
}

/// What the driver reports to the compiler.
#[derive(Debug)]
pub enum PdfEvent {
    /// The image that was asked for, as it is stored.
    ImageRead { bytes: Vec<u8> },
    /// The image that was asked for is missing or cannot be read.
    ImageUnreadable { cause: String },
    /// The empty document exists.
    DocumentCreated,
    /// The page that was asked for is placed.
    PagePlaced,
    /// The document, serialized.
    Serialized { bytes: Vec<u8> },
    /// Creating, placing or serializing failed.
    AssemblyFailed { cause: String },
    /// The document was written.
    OutputWritten,
    /// The document could not be written.
    OutputFailed { cause: String },
}

/// The view of a [`PdfEvent`].
pub enum PdfEventView {
    ImageRead { bytes: Seq<u8> },
    ImageUnreadable { cause: Seq<char> },
    DocumentCreated,
    PagePlaced,
    Serialized { bytes: Seq<u8> },
    AssemblyFailed { cause: Seq<char> },
    OutputWritten,
    OutputFailed { cause: Seq<char> },
}

impl View for PdfEvent {
    type V = PdfEventView;

    open spec fn view(&self) -> PdfEventView {
        match self {
            PdfEvent::ImageRead { bytes } => PdfEventView::ImageRead { bytes: bytes@ },
            PdfEvent::ImageUnreadable { cause } => PdfEventView::ImageUnreadable { cause: cause@ },
            PdfEvent::DocumentCreated => PdfEventView::DocumentCreated,
            PdfEvent::PagePlaced => PdfEventView::PagePlaced,
            PdfEvent::Serialized { bytes } => PdfEventView::Serialized { bytes: bytes@ },
            PdfEvent::AssemblyFailed { cause } => PdfEventView::AssemblyFailed { cause: cause@ },
            PdfEvent::OutputWritten => PdfEventView::OutputWritten,
            PdfEvent::OutputFailed { cause } => PdfEventView::OutputFailed { cause: cause@ },
        }
    }
}

/// One page to place: its number, counted from one, the image that fills
/// it, the size of the page, the distance of the image from the left and
/// the lower edge of the page in hundredths of a millimetre, and the
/// factors that stretch the image from its natural size to that of the
/// page.
#[derive(Debug)]
pub struct PagePlacement {
    pub number: usize,
    pub image: RasterImage,
    pub preset: PagePreset,
    pub offset_x: u32,
    pub offset_y: u32,
    pub scale_x: Ratio,
    pub scale_y: Ratio,
}

/// The view of a [`PagePlacement`].
pub struct PagePlacementView {
    pub number: usize,
    pub image: RasterImageView,
    pub preset: PagePreset,
    pub offset_x: u32,
    pub offset_y: u32,
    pub scale_x: Ratio,
    pub scale_y: Ratio,
}

impl View for PagePlacement {
    type V = PagePlacementView;

    open spec fn view(&self) -> PagePlacementView {
        PagePlacementView {
            number: self.number,
            image: self.image@,
            preset: self.preset,
            offset_x: self.offset_x,
            offset_y: self.offset_y,
            scale_x: self.scale_x,
            scale_y: self.scale_y,
        }
    }
}

/// What the compiler asks of its driver.
#[derive(Debug)]
pub enum PdfAction {
    /// Read the image at this path, relative to the project's directory.
    ReadImage { path: String },
    /// Create an empty document with this title, for pages of this size.
    CreateDocument { title: String, preset: PagePreset },
    /// Add this page at the end of the document.
    PlacePage { page: PagePlacement },
    /// Serialize the document.
    Serialize,
    /// Write these bytes, whole, to the output path.
    WriteOutput { bytes: Vec<u8> },
    /// The compile succeeded; these are its warnings.
    Finish { warnings: Vec<ValidationWarning> },
    /// The compile failed; nothing is to be written.
    Fail { error: CompileError },
}

/// The view of a [`PdfAction`].
pub enum PdfActionView {
    ReadImage { path: Seq<char> },
    CreateDocument { title: Seq<char>, preset: PagePreset },
    PlacePage { page: PagePlacementView },
    Serialize,
    WriteOutput { bytes: Seq<u8> },
    Finish { warnings: Seq<ValidationWarningView> },
    Fail { error: CompileErrorView },
}

impl View for PdfAction {
    type V = PdfActionView;

    open spec fn view(&self) -> PdfActionView {
        match self {
            PdfAction::ReadImage { path } => PdfActionView::ReadImage { path: path@ },
            PdfAction::CreateDocument { title, preset } => PdfActionView::CreateDocument {
                title: title@,
                preset: *preset,
            },
            PdfAction::PlacePage { page } => PdfActionView::PlacePage { page: page@ },
            PdfAction::Serialize => PdfActionView::Serialize,
            PdfAction::WriteOutput { bytes } => PdfActionView::WriteOutput { bytes: bytes@ },
            PdfAction::Finish { warnings } => PdfActionView::Finish {
                warnings: warnings.deep_view(),
            },
            PdfAction::Fail { error } => PdfActionView::Fail { error: error@ },
        }
    }
}

/// The answer to one event: the progress to announce, if any, and what to
/// do next.
#[derive(Debug)]
pub struct PdfStep {
    pub progress: Option<ExportProgress>,
    pub action: PdfAction,
}

/// The view of a [`PdfStep`].
pub struct PdfStepView {
    pub progress: Option<ExportProgress>,
    pub action: PdfActionView,
}

impl View for PdfStep {
    type V = PdfStepView;

    open spec fn view(&self) -> PdfStepView {
        PdfStepView { progress: self.progress, action: self.action@ }
    }
}

/// The state of a compile: the project, the images decoded so far in page
/// order, the number of pages placed, and the phase.
pub struct PdfState {
    pub project: ProjectView,
    pub pages: Seq<RasterImageView>,
    pub placed: nat,
    pub phase: PdfPhase,
}

/// The number of pages of the document of a project: one for each slide.
pub open spec fn page_total(p: ProjectView) -> nat {
    p.slides.len()
}

/// The factor that stretches `pixels` pixels over `extent` hundredths of a
/// millimetre.
pub open spec fn scale_of(extent: nat, pixels: nat) -> Ratio {
    Ratio {
        numerator: (extent * NATURAL_DPI) as u64,
        denominator: (HUNDREDTHS_PER_INCH * pixels) as u64,
    }
}

/// The placement of the `k`-th page, counted from zero: the image lies in
/// the lower left corner of the page and is stretched over all of it.
pub open spec fn placement(p: ProjectView, pages: Seq<RasterImageView>, k: int) -> PagePlacementView {
    let preset = preset_of(p.aspect_ratio);
    PagePlacementView {
        number: (k + 1) as usize,
        image: pages[k],
        preset,
        offset_x: 0,
        offset_y: 0,
        scale_x: scale_of(page_width(preset), pages[k].width as nat),
        scale_y: scale_of(page_height(preset), pages[k].height as nat),
    }
}

/// What a compile asks for while images are outstanding: the image of the
/// next slide in page order, or, when all are in, the empty document.
pub open spec fn load_request(s: PdfState) -> PdfActionView {
    if s.pages.len() < page_total(s.project) {
        PdfActionView::ReadImage {
            path: s.project.slides[page_order(s.project.slides)[s.pages.len() as int]].image_path,
        }
    } else {
        PdfActionView::CreateDocument {
            title: s.project.source_file,
            preset: preset_of(s.project.aspect_ratio),
        }
    }
}

/// What a compile asks for once the document exists: the next page, or,
/// when all are placed, the serialized document.
pub open spec fn place_request(s: PdfState) -> PdfActionView {
    if s.placed < page_total(s.project) {
        PdfActionView::PlacePage { page: placement(s.project, s.pages, s.placed as int) }
    } else {
        PdfActionView::Serialize
    }
}

/// The end of a compile in an error.
pub open spec fn pdf_failure(s: PdfState, error: CompileErrorView) -> (PdfState, PdfStepView) {
    (
        PdfState { phase: PdfPhase::Closed, ..s },
        PdfStepView { progress: None, action: PdfActionView::Fail { error } },
    )
}

/// The path of the image that a loading compile waits for.
pub open spec fn awaited_path(s: PdfState) -> Seq<char> {
    s.project.slides[page_order(s.project.slides)[s.pages.len() as int]].image_path
}

/// The start of a compile: nothing is decoded yet, and the image of the
/// first slide in page order is asked for. A project without slides goes
/// straight to the creation of the document. A project with more steps than
/// this machine can count fails at once.
pub open spec fn pdf_begin(p: ProjectView) -> (PdfState, PdfStepView) {
    let fresh = PdfState { project: p, pages: Seq::empty(), placed: 0, phase: PdfPhase::Loading };
    if 2 * page_total(p) > usize::MAX {
        pdf_failure(fresh, CompileErrorView::DocumentAssembly { cause: CAUSE_TOO_MANY@ })
    } else {
        let s = PdfState {
            phase: if page_total(p) == 0 {
                PdfPhase::Creating
            } else {
                PdfPhase::Loading
            },
            ..fresh
        };
        (s, PdfStepView { progress: None, action: load_request(s) })
    }
}

/// The state that follows `s` on the event `e`, and the answer to `e`.
///
/// While loading, an image is decoded; the decoded image joins the pages
/// and progress advances by one. An image that cannot be read, that the
/// decoder does not read as an image, or that has no pixels, ends the
/// compile with the path of that image and the cause. Once
/// the document exists the pages are placed in order, and progress advances
/// by one for each; then the document is serialized, and written. A failure
/// reported by the driver ends the compile, as does any event that was not
/// asked for.
pub open spec fn pdf_next(s: PdfState, e: PdfEventView) -> (PdfState, PdfStepView) {
    let total = page_total(s.project);
    match (s.phase, e) {
        (PdfPhase::Loading, PdfEventView::ImageRead { bytes }) => match decode_outcome(bytes) {
            Ok(image) => {
                if image.drawable() {
                    let pages = s.pages.push(image);
                    let next = PdfState {
                        pages,
                        phase: if pages.len() < total {
                            PdfPhase::Loading
                        } else {
                            PdfPhase::Creating
                        },
                        ..s
                    };
                    (
                        next,
                        PdfStepView {
                            progress: Some(
                                ExportProgress {
                                    current: pages.len() as usize,
                                    total: (2 * total) as usize,
                                },
                            ),
                            action: load_request(next),
                        },
                    )
                } else {
                    pdf_failure(
                        s,
                        CompileErrorView::ImageDecode {
                            path: awaited_path(s),
                            cause: CAUSE_BAD_SAMPLES@,
                        },
                    )
                }
            },
            Err(cause) => pdf_failure(
                s,
                CompileErrorView::ImageDecode { path: awaited_path(s), cause },
            ),
        },
        (PdfPhase::Loading, PdfEventView::ImageUnreadable { cause }) => pdf_failure(
            s,
            CompileErrorView::ImageRead { path: awaited_path(s), cause },
        ),
        (PdfPhase::Creating, PdfEventView::DocumentCreated) => {
            let next = PdfState {
                phase: if total == 0 {
                    PdfPhase::Serializing
                } else {
                    PdfPhase::Placing
                },
                ..s
            };
            (next, PdfStepView { progress: None, action: place_request(next) })
        },
        (PdfPhase::Placing, PdfEventView::PagePlaced) => {
            let placed = s.placed + 1;
            let next = PdfState {
                placed,
                phase: if placed < total {
                    PdfPhase::Placing
                } else {
                    PdfPhase::Serializing
                },
                ..s
            };
            (
                next,
                PdfStepView {
                    progress: Some(
                        ExportProgress {
                            current: (total + placed) as usize,
                            total: (2 * total) as usize,
                        },
                    ),
                    action: place_request(next),
                },
            )
        },
        (PdfPhase::Serializing, PdfEventView::Serialized { bytes }) => (
            PdfState { phase: PdfPhase::Writing, ..s },
            PdfStepView { progress: None, action: PdfActionView::WriteOutput { bytes } },
        ),
        (PdfPhase::Creating, PdfEventView::AssemblyFailed { cause }) => pdf_failure(
            s,
            CompileErrorView::DocumentAssembly { cause },
        ),
        (PdfPhase::Placing, PdfEventView::AssemblyFailed { cause }) => pdf_failure(
            s,
            CompileErrorView::DocumentAssembly { cause },
        ),
        (PdfPhase::Serializing, PdfEventView::AssemblyFailed { cause }) => pdf_failure(
            s,
            CompileErrorView::DocumentAssembly { cause },
        ),
        (PdfPhase::Writing, PdfEventView::OutputWritten) => (
            PdfState { phase: PdfPhase::Closed, ..s },
            PdfStepView {
                progress: None,
                action: PdfActionView::Finish { warnings: validation_warnings(s.project.slides) },
            },
        ),
        (PdfPhase::Writing, PdfEventView::OutputFailed { cause }) => pdf_failure(
            s,
            CompileErrorView::OutputWrite { cause },
        ),
        _ => pdf_failure(s, CompileErrorView::DocumentAssembly { cause: CAUSE_UNEXPECTED@ }),
    }
}

/// What holds of the state of every compile that has not ended: the steps
/// of both phases can be counted, no more images are decoded and no more
/// pages placed than the project has slides, every decoded image holds the
/// samples of its size and at least one pixel, and the phase tells how far
/// the compile has come.
pub open spec fn pdf_sound(s: PdfState) -> bool {
    let total = page_total(s.project);
    s.phase != PdfPhase::Closed ==> {
        &&& 2 * total <= usize::MAX
        &&& s.placed <= total
        &&& s.pages.len() <= total
        &&& forall|k: int| 0 <= k < s.pages.len() ==> (#[trigger] s.pages[k]).drawable()
        &&& s.phase == PdfPhase::Loading ==> s.pages.len() < total && s.placed == 0
        &&& s.phase == PdfPhase::Creating ==> s.pages.len() == total && s.placed == 0
        &&& s.phase == PdfPhase::Placing ==> s.pages.len() == total && s.placed < total
        &&& s.phase == PdfPhase::Serializing ==> s.pages.len() == total && s.placed == total
        &&& s.phase == PdfPhase::Writing ==> s.pages.len() == total && s.placed == total
    }
}

/// A compile of one project into a paginated document.
pub struct PdfCompiler {
    project: Project,
    order: Vec<usize>,
    total: usize,
    pending: Vec<RasterImage>,
    placed: usize,
    phase: PdfPhase,
    pages: Ghost<Seq<RasterImageView>>,
}

impl View for PdfCompiler {
    type V = PdfState;

    closed spec fn view(&self) -> PdfState {
        PdfState {
            project: self.project@,
            pages: self.pages@,
            placed: self.placed as nat,
            phase: self.phase,
        }
    }
}

impl PdfCompiler {
    #[verifier::type_invariant]
    spec fn consistent(&self) -> bool {
        let p = self.project@;
        self.phase != PdfPhase::Closed ==> {
            &&& as_ints(self.order@) == page_order(p.slides)
            &&& self.order@.len() == self.total
            &&& self.total == page_total(p)
            &&& 2 * self.total <= usize::MAX
            &&& self.placed <= self.total
            &&& self.pages@.len() <= self.total
            &&& forall|k: int| 0 <= k < self.pages@.len() ==> (#[trigger] self.pages@[k]).drawable()
            &&& self.phase == PdfPhase::Loading ==> self.pages@.len() < self.total && self.placed
                == 0 && self.pending.deep_view() == self.pages@
            &&& self.phase == PdfPhase::Creating ==> self.pages@.len() == self.total && self.placed
                == 0 && self.pending.deep_view() == self.pages@
            &&& self.phase == PdfPhase::Placing ==> self.pages@.len() == self.total && self.placed
                < self.total && self.pending.deep_view() == self.pages@.skip(self.placed + 1)
            &&& self.phase == PdfPhase::Serializing ==> self.pages@.len() == self.total
                && self.placed == self.total
            &&& self.phase == PdfPhase::Writing ==> self.pages@.len() == self.total && self.placed
                == self.total
        }
    }

    /// The project that is compiled.
    pub fn project(&self) -> (p: &Project)
        ensures
            p@ == self@.project,
    {
        &self.project
    }

    /// Where the compile stands.
    pub fn phase(&self) -> (phase: PdfPhase)
        ensures
            phase == self@.phase,
    {
        self.phase
    }

    fn closed(project: Project, placed: usize, pages: Ghost<Seq<RasterImageView>>) -> (c:
        PdfCompiler)
        ensures
            c@ == (PdfState {
                project: project@,
                pages: pages@,
                placed: placed as nat,
                phase: PdfPhase::Closed,
            }),
    {
        PdfCompiler {
            project,
            order: Vec::new(),
            total: 0,
            pending: Vec::new(),
            placed,
            phase: PdfPhase::Closed,
            pages,
        }
    }

    fn failure(self, error: CompileError) -> (r: (PdfCompiler, PdfStep))
        ensures
            (r.0@, r.1@) == pdf_failure(self@, error@),
    {
        let PdfCompiler { project, placed, pages, .. } = self;
        (
            PdfCompiler::closed(project, placed, pages),
            PdfStep { progress: None, action: PdfAction::Fail { error } },
        )
    }

    proof fn lemma_order_in_range(&self, k: int)
        requires
            self.consistent(),
            self.phase != PdfPhase::Closed,
            0 <= k < self.total,
        ensures
            0 <= page_order(self.project@.slides)[k] < self.project@.slides.len(),
            page_order(self.project@.slides)[k] == self.order@[k],
    {
        let slides = self.project@.slides;
        lemma_indices_where(slides.len(), primary_at(slides));
        lemma_indices_where(slides.len(), secondary_at(slides));
        assert(as_ints(self.order@).len() == self.order@.len());
        assert(as_ints(self.order@)[k] == self.order@[k]);
        let primary = primary_indices(slides);
        assert(page_order(slides).len() == primary.len() + secondary_indices(slides).len());
        if k < primary.len() {
            assert(page_order(slides)[k] == primary[k]);
        } else {
            assert(page_order(slides)[k] == secondary_indices(slides)[k - primary.len()]);
        }
    }

    /// The path of the image that a loading compile waits for.
    fn awaited(&self) -> (path: String)
        requires
            self@.phase == PdfPhase::Loading,
        ensures
            path@ == awaited_path(self@),
    {
        proof {
            use_type_invariant(self);
            self.lemma_order_in_range(self.pending.len() as int);
            assert(self.pending.deep_view().len() == self.pending@.len());
        }
        let at = self.order[self.pending.len()];
        assert(self@.project.slides[at as int] == self.project.slides[at as int]@);
        self.project.slides[at].image_path.clone()
    }

    /// Starts the compile of `project`.
    ///
    /// The answer asks for the image of the first slide in page order: the
    /// primary slides come first, then the secondary slides. For a project
    /// without slides it asks for the empty document.
    pub fn begin(project: Project) -> (r: (PdfCompiler, PdfStep))
        ensures
            (r.0@, r.1@) == pdf_begin(project@),
            pdf_sound(r.0@),
    {
        let r = PdfCompiler::start(project);
        r.0.confirm();
        r
    }

    /// Brings into a proof what holds of every compile that has not ended.
    /// It computes nothing.
    pub fn confirm(&self)
        ensures
            pdf_sound(self@),
    {
        proof {
            use_type_invariant(self);
        }
    }

    fn start(project: Project) -> (r: (PdfCompiler, PdfStep))
        ensures
            (r.0@, r.1@) == pdf_begin(project@),
    {
        let order = page_sequence(&project);
        let total = order.len();
        if total > usize::MAX / 2 {
            let error = CompileError::DocumentAssembly { cause: String::from_str(CAUSE_TOO_MANY) };
            let c = PdfCompiler::closed(project, 0, Ghost(Seq::empty()));
            return (c, PdfStep { progress: None, action: PdfAction::Fail { error } });
        }
        let pending: Vec<RasterImage> = Vec::new();
        proof {
            assert(pending.deep_view() == Seq::<RasterImageView>::empty());
            assert(project@.slides.len() == project.slides@.len());
        }
        if total == 0 {
            let title = project.source_file.clone();
            let preset = page_preset(project.aspect_ratio.as_str());
            let c = PdfCompiler {
                project,
                order,
                total,
                pending,
                placed: 0,
                phase: PdfPhase::Creating,
                pages: Ghost(Seq::empty()),
            };
            (c, PdfStep { progress: None, action: PdfAction::CreateDocument { title, preset } })
        } else {
            let c = PdfCompiler {
                project,
                order,
                total,
                pending,
                placed: 0,
                phase: PdfPhase::Loading,
                pages: Ghost(Seq::empty()),
            };
            let path = c.awaited();
            (c, PdfStep { progress: None, action: PdfAction::ReadImage { path } })
        }
    }

    fn take_image(self, bytes: Vec<u8>) -> (r: (PdfCompiler, PdfStep))
        requires
            self@.phase == PdfPhase::Loading,
        ensures
            (r.0@, r.1@) == pdf_next(self@, (PdfEventView::ImageRead { bytes: bytes@ })),
    {
        proof {
            use_type_invariant(&self);
        }
        let image = match decode(bytes.as_slice()) {
            Ok(image) => image,
            Err(e) => {
                let path = self.awaited();
                return self.failure(CompileError::ImageDecode { path, cause: e.cause });
            },
        };
        if !image.is_drawable() {
            let path = self.awaited();
            let cause = String::from_str(CAUSE_BAD_SAMPLES);
            return self.failure(CompileError::ImageDecode { path, cause });
        }
        let PdfCompiler { project, order, total, mut pending, placed, phase: _, pages } = self;
        let ghost decoded = pages@.push(image@);
        pending.push(image);
        proof {
            assert(pending.deep_view() == decoded);
        }
        let progress = Some(ExportProgress { current: pending.len(), total: 2 * total });
        if pending.len() < total {
            let c = PdfCompiler {
                project,
                order,
                total,
                pending,
                placed,
                phase: PdfPhase::Loading,
                pages: Ghost(decoded),
            };
            let path = c.awaited();
            (c, PdfStep { progress, action: PdfAction::ReadImage { path } })
        } else {
            let title = project.source_file.clone();
            let preset = page_preset(project.aspect_ratio.as_str());
            let c = PdfCompiler {
                project,
                order,
                total,
                pending,
                placed,
                phase: PdfPhase::Creating,
                pages: Ghost(decoded),
            };
            (c, PdfStep { progress, action: PdfAction::CreateDocument { title, preset } })
        }
    }

    /// Moves to the placing of the page `next`, or, when no page is left, to
    /// serializing.
    fn place_next(
        project: Project,
        order: Vec<usize>,
        total: usize,
        pending: Vec<RasterImage>,
        next: usize,
        pages: Ghost<Seq<RasterImageView>>,
        progress: Option<ExportProgress>,
    ) -> (r: (PdfCompiler, PdfStep))
        requires
            as_ints(order@) == page_order(project@.slides),
            order@.len() == total,
            total == page_total(project@),
            2 * total <= usize::MAX,
            next <= total,
            pages@.len() == total,
            forall|k: int| 0 <= k < pages@.len() ==> (#[trigger] pages@[k]).drawable(),
            pending.deep_view() == pages@.skip(next as int),
        ensures
            r.0@ == (PdfState {
                project: project@,
                pages: pages@,
                placed: next as nat,
                phase: if next < total {
                    PdfPhase::Placing
                } else {
                    PdfPhase::Serializing
                },
            }),
            r.1@ == (PdfStepView { progress, action: place_request(r.0@) }),
    {
        let mut pending = pending;
        if next < total {
            let ghost waiting = pending.deep_view();
            let ghost old_pending = pending@;
            assert(waiting.len() == pending@.len());
            let image = pending.remove(0);
            proof {
                assert(image@ == waiting[0]);
                assert(image@ == pages@[next as int]);
                assert(pending@ == old_pending.remove(0));
                assert forall|i: int| 0 <= i < pending@.len() implies pending.deep_view()[i]
                    == pages@.skip(next + 1)[i] by {
                    assert(pending@[i] == old_pending[i + 1]);
                    assert(waiting[i + 1] == old_pending[i + 1]@);
                    assert(waiting[i + 1] == pages@[next + 1 + i]);
                }
                assert(pending.deep_view() =~= pages@.skip(next + 1));
                assert(pages@[next as int].drawable());
            }
            let preset = page_preset(project.aspect_ratio.as_str());
            let scale_x = fill_scale(preset.width(), image.width).unwrap();
            let scale_y = fill_scale(preset.height(), image.height).unwrap();
            let page = PagePlacement {
                number: next + 1,
                image,
                preset,
                offset_x: 0,
                offset_y: 0,
                scale_x,
                scale_y,
            };
            assert(page@ == placement(project@, pages@, next as int));
            let c = PdfCompiler {
                project,
                order,
                total,
                pending,
                placed: next,
                phase: PdfPhase::Placing,
                pages,
            };
            (c, PdfStep { progress, action: PdfAction::PlacePage { page } })
        } else {
            let c = PdfCompiler {
                project,
                order,
                total,
                pending,
                placed: next,
                phase: PdfPhase::Serializing,
                pages,
            };
            (c, PdfStep { progress, action: PdfAction::Serialize })
        }
    }

    /// Takes the compile one step further on the event `event`.
    ///
    /// See [`pdf_next`] for the state that follows and the answer given.
    /// The state that follows is sound as every state of a compile is; see
    /// [`pdf_sound`].
    pub fn step(self, event: PdfEvent) -> (r: (PdfCompiler, PdfStep))
        ensures
            (r.0@, r.1@) == pdf_next(self@, event@),
            pdf_sound(r.0@),
    {
        let r = self.advance(event);
        r.0.confirm();
        r
    }

    fn advance(self, event: PdfEvent) -> (r: (PdfCompiler, PdfStep))
        ensures
            (r.0@, r.1@) == pdf_next(self@, event@),
    {
        proof {
            use_type_invariant(&self);
        }
        match self.phase {
            PdfPhase::Loading => match event {
                PdfEvent::ImageRead { bytes } => self.take_image(bytes),
                PdfEvent::ImageUnreadable { cause } => {
                    let path = self.awaited();
                    self.failure(CompileError::ImageRead { path, cause })
                },
                _ => self.failure(unexpected_event()),
            },
            PdfPhase::Creating => match event {
                PdfEvent::DocumentCreated => {
                    let PdfCompiler { project, order, total, pending, placed, phase: _, pages } = self;
                    assert(pages@.skip(0) =~= pages@);
                    PdfCompiler::place_next(project, order, total, pending, 0, pages, None)
                },
                PdfEvent::AssemblyFailed { cause } => self.failure(
                    CompileError::DocumentAssembly { cause },
                ),
                _ => self.failure(unexpected_event()),
            },
            PdfPhase::Placing => match event {
                PdfEvent::PagePlaced => {
                    let PdfCompiler { project, order, total, pending, placed, phase: _, pages } = self;
                    let placed = placed + 1;
                    let progress = Some(
                        ExportProgress { current: total + placed, total: 2 * total },
                    );
                    PdfCompiler::place_next(project, order, total, pending, placed, pages, progress)
                },
                PdfEvent::AssemblyFailed { cause } => self.failure(
                    CompileError::DocumentAssembly { cause },
                ),
                _ => self.failure(unexpected_event()),
            },
            PdfPhase::Serializing => match event {
                PdfEvent::Serialized { bytes } => {
                    let PdfCompiler { project, order, total, pending, placed, phase: _, pages } = self;
                    let c = PdfCompiler {
                        project,
                        order,
                        total,
                        pending,
                        placed,
                        phase: PdfPhase::Writing,
                        pages,
                    };
                    (c, PdfStep { progress: None, action: PdfAction::WriteOutput { bytes } })
                },
                PdfEvent::AssemblyFailed { cause } => self.failure(
                    CompileError::DocumentAssembly { cause },
                ),
                _ => self.failure(unexpected_event()),
            },
            PdfPhase::Writing => match event {
                PdfEvent::OutputWritten => {
                    let warnings = validate(&self.project);
                    let PdfCompiler { project, placed, pages, .. } = self;
                    (
                        PdfCompiler::closed(project, placed, pages),
                        PdfStep { progress: None, action: PdfAction::Finish { warnings } },
                    )
                },
                PdfEvent::OutputFailed { cause } => self.failure(
                    CompileError::OutputWrite { cause },
                ),
                _ => self.failure(unexpected_event()),
            },
            PdfPhase::Closed => self.failure(unexpected_event()),
        }
    }
}

fn unexpected_event() -> (error: CompileError)
    ensures
        error@ == (CompileErrorView::DocumentAssembly { cause: CAUSE_UNEXPECTED@ }),
{
    CompileError::DocumentAssembly { cause: String::from_str(CAUSE_UNEXPECTED) }
}

} // verus!
