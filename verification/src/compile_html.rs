//! The HTML compiler as a machine of steps. The compiler decides; its driver
//! reads the images, writes the file and reports back.
//!
//! A compile starts with [`HtmlCompiler::begin`] and goes on with
//! [`HtmlCompiler::step`], once for each event that the driver reports. Each
//! call answers with the progress to announce, if any, and with what to do
//! next: read the image of a slide, write the finished document, stop with
//! the warnings collected, or stop with an error.

use vstd::prelude::*;
use vstd::string::*;
use crate::classify::{
    as_ints, classify, lemma_indices_where, linked_primary_at, modal_indices, primary_at,
    primary_indices, secondary_at, Classification,
};
use crate::codec::{
    base64_standard, decode, decoded_rgb8, encodable, encode_for_embedding, is_base64_text,
};
use crate::document::{
    aspect_css, aspect_ratio_css, document_text, document_title, render_document, title_for,
};
use crate::error::{
    CompileError, CompileErrorView, CAUSE_TOO_LARGE, CAUSE_TOO_MANY, CAUSE_UNEXPECTED,
};
use crate::html::{main_section, modal_overlay, render_main_slide, render_sub_slide};
use crate::marks::{MAIN_MARK, MODAL_MARK, SCRIPT_MARK};
use crate::model::{confirm_well_formed, ExportProgress, Project, ProjectView};
use crate::scan::occurrences;
use crate::sections::{lemma_document_counts, skeleton_scripts};
use crate::text::concat_all;
use crate::validate::{validate, validation_warnings, ValidationWarning, ValidationWarningView};

verus! {

/// Where a compile stands.
#[derive(Debug, Clone, Copy, PartialEq, Eq, Structural)]
pub enum HtmlPhase {
    /// Images are still to be read.
    Loading,
    /// The document is assembled and waits to be written.
    Writing,
    /// The compile has ended, with an artifact or with an error.
    Closed,
}

/// What the driver reports to the compiler.
#[derive(Debug)]
pub enum HtmlEvent {
    /// The image that was asked for, as it is stored.
    ImageRead { bytes: Vec<u8> },
    /// The image that was asked for is missing or cannot be read.
    ImageUnreadable { cause: String },
    /// The document was written.
    OutputWritten,
    /// The document could not be written.
    OutputFailed { cause: String },
}

/// The view of an [`HtmlEvent`].
pub enum HtmlEventView {
    ImageRead { bytes: Seq<u8> },
    ImageUnreadable { cause: Seq<char> },
    OutputWritten,
    OutputFailed { cause: Seq<char> },
}

impl View for HtmlEvent {
    type V = HtmlEventView;

    open spec fn view(&self) -> HtmlEventView {
        match self {
            HtmlEvent::ImageRead { bytes } => HtmlEventView::ImageRead { bytes: bytes@ },
            HtmlEvent::ImageUnreadable { cause } => HtmlEventView::ImageUnreadable {
                cause: cause@,
            },
            HtmlEvent::OutputWritten => HtmlEventView::OutputWritten,
            HtmlEvent::OutputFailed { cause } => HtmlEventView::OutputFailed { cause: cause@ },
        }
    }
}

/// What the compiler asks of its driver.
#[derive(Debug)]
pub enum HtmlAction {
    /// Read the image at this path, relative to the project's directory.
    ReadImage { path: String },
    /// Write this document, whole, to the output path.
    WriteOutput { html: String },
    /// The compile succeeded; these are its warnings.
    Finish { warnings: Vec<ValidationWarning> },
    /// The compile failed; nothing is to be written.
    Fail { error: CompileError },
}

/// The view of an [`HtmlAction`].
pub enum HtmlActionView {
    ReadImage { path: Seq<char> },
    WriteOutput { html: Seq<char> },
    Finish { warnings: Seq<ValidationWarningView> },
    Fail { error: CompileErrorView },
}

impl View for HtmlAction {
    type V = HtmlActionView;

    open spec fn view(&self) -> HtmlActionView {
        match self {
            HtmlAction::ReadImage { path } => HtmlActionView::ReadImage { path: path@ },
            HtmlAction::WriteOutput { html } => HtmlActionView::WriteOutput { html: html@ },
            HtmlAction::Finish { warnings } => HtmlActionView::Finish {
                warnings: warnings.deep_view(),
            },
            HtmlAction::Fail { error } => HtmlActionView::Fail { error: error@ },
        }
    }
}

/// The answer to one event: the progress to announce, if any, and what to
/// do next.
#[derive(Debug)]
pub struct HtmlStep {
    pub progress: Option<ExportProgress>,
    pub action: HtmlAction,
}

/// The view of an [`HtmlStep`].
pub struct HtmlStepView {
    pub progress: Option<ExportProgress>,
    pub action: HtmlActionView,
}

impl View for HtmlStep {
    type V = HtmlStepView;

    open spec fn view(&self) -> HtmlStepView {
        HtmlStepView { progress: self.progress, action: self.action@ }
    }
}

/// The state of a compile: the project, the title of the document, the
/// images received so far in their transport encoding, and the phase.
pub struct HtmlState {
    pub project: ProjectView,
    pub title: Seq<char>,
    pub images: Seq<Seq<char>>,
    pub phase: HtmlPhase,
}

/// The number of primary slides of a project.
pub open spec fn primary_count(p: ProjectView) -> nat {
    primary_indices(p.slides).len()
}

/// The number of images that a compile reads: one for each primary slide
/// and one for each member of the secondary-render set.
pub open spec fn step_total(p: ProjectView) -> nat {
    primary_indices(p.slides).len() + modal_indices(p.slides).len()
}

/// The position of the slide whose image is the `k`-th to be read: the
/// primary slides come first, then the secondary-render set.
pub open spec fn slide_at_step(p: ProjectView, k: int) -> int {
    if k < primary_count(p) {
        primary_indices(p.slides)[k]
    } else {
        modal_indices(p.slides)[k - primary_count(p)]
    }
}

/// The main sections that the images received so far allow: the `k`-th
/// section shows the `k`-th primary slide with the `k`-th image.
pub open spec fn main_sections(p: ProjectView, images: Seq<Seq<char>>) -> Seq<Seq<char>> {
    let count = if images.len() < primary_count(p) {
        images.len()
    } else {
        primary_count(p)
    };
    Seq::new(
        count,
        |k: int|
            main_section(
                p.slides,
                p.slides[primary_indices(p.slides)[k]],
                images[k],
                aspect_css(p.aspect_ratio),
            ),
    )
}

/// The modal overlays that the images received so far allow: the `k`-th
/// overlay shows the `k`-th member of the secondary-render set with the
/// image that follows those of the primary slides at distance `k`.
pub open spec fn modal_overlays(p: ProjectView, images: Seq<Seq<char>>) -> Seq<Seq<char>> {
    let count = if images.len() < primary_count(p) {
        0
    } else {
        (images.len() - primary_count(p)) as nat
    };
    Seq::new(
        count,
        |k: int|
            modal_overlay(
                p.slides,
                p.slides[modal_indices(p.slides)[k]],
                images[primary_count(p) + k],
                aspect_css(p.aspect_ratio),
            ),
    )
}

/// The finished document of a project, given its title and the images of
/// its slides in reading order.
pub open spec fn html_output(p: ProjectView, title: Seq<char>, images: Seq<Seq<char>>) -> Seq<
    char,
> {
    document_text(
        title,
        aspect_css(p.aspect_ratio),
        concat_all(main_sections(p, images)),
        concat_all(modal_overlays(p, images)),
        primary_count(p),
        p.analytics_on(),
    )
}

/// What a compile asks for when it has received `s.images`: the next image,
/// or, when it has them all, the writing of the document.
pub open spec fn html_request(s: HtmlState) -> HtmlActionView {
    if s.images.len() < step_total(s.project) {
        HtmlActionView::ReadImage { path: html_awaited(s) }
    } else {
        HtmlActionView::WriteOutput { html: html_output(s.project, s.title, s.images) }
    }
}

/// The end of a compile in an error.
pub open spec fn html_failure(s: HtmlState, error: CompileErrorView) -> (HtmlState, HtmlStepView) {
    (
        HtmlState { phase: HtmlPhase::Closed, ..s },
        HtmlStepView { progress: None, action: HtmlActionView::Fail { error } },
    )
}

/// The path of the image that a loading compile waits for.
pub open spec fn html_awaited(s: HtmlState) -> Seq<char> {
    s.project.slides[slide_at_step(s.project, s.images.len() as int)].image_path
}

/// The start of a compile: the title is taken from the name of the source
/// file, nothing is received yet, and the first image is asked for. A
/// project without slides goes straight to writing. A project with more
/// steps than this machine can count fails at once.
pub open spec fn html_begin(p: ProjectView) -> (HtmlState, HtmlStepView) {
    let fresh = HtmlState {
        project: p,
        title: title_for(p.source_file),
        images: Seq::empty(),
        phase: HtmlPhase::Loading,
    };
    if step_total(p) > usize::MAX {
        html_failure(
            fresh,
            CompileErrorView::DocumentAssembly { cause: CAUSE_TOO_MANY@ },
        )
    } else {
        let s = HtmlState {
            phase: if step_total(p) == 0 {
                HtmlPhase::Writing
            } else {
                HtmlPhase::Loading
            },
            ..fresh
        };
        (s, HtmlStepView { progress: None, action: html_request(s) })
    }
}

/// The state that follows `s` on the event `e`, and the answer to `e`.
///
/// While loading, an image that the decoder reads is encoded as it is
/// stored and rendered into the section or the overlay of its slide;
/// progress advances by one, and the next image or the writing of the
/// document is asked for. An image that cannot be read, or that the decoder
/// does not read as an image, ends the compile with the path of that image
/// and the cause. While writing, the report of the
/// write ends the compile, in success with the warnings of the project or in
/// an error. Any other event ends the compile in an error.
pub open spec fn html_next(s: HtmlState, e: HtmlEventView) -> (HtmlState, HtmlStepView) {
    match (s.phase, e) {
        (HtmlPhase::Loading, HtmlEventView::ImageRead { bytes }) => {
            if let Err(cause) = decoded_rgb8(bytes) {
                html_failure(
                    s,
                    CompileErrorView::ImageDecode { path: html_awaited(s), cause },
                )
            } else if encodable(bytes.len()) {
                let images = s.images.push(base64_standard(bytes));
                let next = HtmlState {
                    images,
                    phase: if images.len() < step_total(s.project) {
                        HtmlPhase::Loading
                    } else {
                        HtmlPhase::Writing
                    },
                    ..s
                };
                (
                    next,
                    HtmlStepView {
                        progress: Some(
                            ExportProgress {
                                current: images.len() as usize,
                                total: step_total(s.project) as usize,
                            },
                        ),
                        action: html_request(next),
                    },
                )
            } else {
                html_failure(s, CompileErrorView::DocumentAssembly { cause: CAUSE_TOO_LARGE@ })
            }
        },
        (HtmlPhase::Loading, HtmlEventView::ImageUnreadable { cause }) => html_failure(
            s,
            CompileErrorView::ImageRead { path: html_awaited(s), cause },
        ),
        (HtmlPhase::Writing, HtmlEventView::OutputWritten) => (
            HtmlState { phase: HtmlPhase::Closed, ..s },
            HtmlStepView {
                progress: None,
                action: HtmlActionView::Finish { warnings: validation_warnings(s.project.slides) },
            },
        ),
        (HtmlPhase::Writing, HtmlEventView::OutputFailed { cause }) => html_failure(
            s,
            CompileErrorView::OutputWrite { cause },
        ),
        _ => html_failure(s, CompileErrorView::DocumentAssembly { cause: CAUSE_UNEXPECTED@ }),
    }
}

/// True when an answer that hands over a document hands over one in which
/// the opening of a main section stands once for each primary slide of `p`,
/// the opening of a modal overlay once for each member of its
/// secondary-render set, and the opening of a script only as often as the
/// skeleton has scripts.
pub open spec fn counts_hold(p: ProjectView, step: HtmlStepView) -> bool {
    step.action matches HtmlActionView::WriteOutput { html } ==> {
        &&& occurrences(html, MAIN_MARK@) == primary_indices(p.slides).len()
        &&& occurrences(html, MODAL_MARK@) == modal_indices(p.slides).len()
        &&& occurrences(html, SCRIPT_MARK@) == skeleton_scripts(p.analytics_on())
    }
}

/// What holds of the state of every compile that has not ended: the
/// project is well formed, the steps can be counted, no more images are in
/// than the plan has steps, each image is in its transport encoding, and the
/// compile is writing exactly when all images are in.
pub open spec fn html_sound(s: HtmlState) -> bool {
    s.phase != HtmlPhase::Closed ==> {
        &&& s.project.well_formed()
        &&& step_total(s.project) <= usize::MAX
        &&& s.images.len() <= step_total(s.project)
        &&& forall|k: int| 0 <= k < s.images.len() ==> is_base64_text(#[trigger] s.images[k])
        &&& (s.phase == HtmlPhase::Writing <==> s.images.len() == step_total(s.project))
    }
}

/// A compile of one project into an interactive document.
pub struct HtmlCompiler {
    project: Project,
    title: String,
    aspect: String,
    plan: Classification,
    cursor: usize,
    total: usize,
    main_html: String,
    sub_html: String,
    phase: HtmlPhase,
    images: Ghost<Seq<Seq<char>>>,
}

impl View for HtmlCompiler {
    type V = HtmlState;

    closed spec fn view(&self) -> HtmlState {
        HtmlState {
            project: self.project@,
            title: self.title@,
            images: self.images@,
            phase: self.phase,
        }
    }
}

impl HtmlCompiler {
    #[verifier::type_invariant]
    spec fn consistent(&self) -> bool {
        let p = self.project@;
        self.phase != HtmlPhase::Closed ==> {
            &&& as_ints(self.plan.primary@) == primary_indices(p.slides)
            &&& as_ints(self.plan.secondary_render@) == modal_indices(p.slides)
            &&& self.total == step_total(p)
            &&& p.well_formed()
            &&& forall|k: int| 0 <= k < self.images@.len() ==> is_base64_text(#[trigger] self.images@[k])
            &&& self.cursor == self.images@.len()
            &&& self.cursor <= self.total
            &&& (self.phase == HtmlPhase::Writing <==> self.cursor == self.total)
            &&& self.phase == HtmlPhase::Loading ==> {
                &&& self.aspect@ == aspect_css(p.aspect_ratio)
                &&& self.main_html@ == concat_all(main_sections(p, self.images@))
                &&& self.sub_html@ == concat_all(modal_overlays(p, self.images@))
            }
        }
    }

    /// The project that is compiled.
    pub fn project(&self) -> (p: &Project)
        ensures
            p@ == self@.project,
    {
        &self.project
    }

    /// Where the compile stands.
    pub fn phase(&self) -> (phase: HtmlPhase)
        ensures
            phase == self@.phase,
    {
        self.phase
    }

    fn closed(project: Project, title: String, images: Ghost<Seq<Seq<char>>>) -> (c: HtmlCompiler)
        ensures
            c@ == (HtmlState {
                project: project@,
                title: title@,
                images: images@,
                phase: HtmlPhase::Closed,
            }),
    {
        HtmlCompiler {
            project,
            title,
            aspect: String::new(),
            plan: Classification { primary: Vec::new(), secondary_render: Vec::new() },
            cursor: 0,
            total: 0,
            main_html: String::new(),
            sub_html: String::new(),
            phase: HtmlPhase::Closed,
            images,
        }
    }

    fn failure(self, error: CompileError) -> (r: (HtmlCompiler, HtmlStep))
        ensures
            (r.0@, r.1@) == html_failure(self@, error@),
    {
        let HtmlCompiler { project, title, images, .. } = self;
        (
            HtmlCompiler::closed(project, title, images),
            HtmlStep { progress: None, action: HtmlAction::Fail { error } },
        )
    }

    /// The path of the image that a loading compile waits for.
    fn awaited(&self) -> (path: String)
        requires
            self@.phase == HtmlPhase::Loading,
        ensures
            path@ == html_awaited(self@),
    {
        proof {
            use_type_invariant(self);
            self.lemma_step_in_range(self.cursor as int);
        }
        let at = self.slide_position(self.cursor);
        assert(self@.project.slides[at as int] == self.project.slides[at as int]@);
        self.project.slides[at].image_path.clone()
    }

    /// The request for the image that a loading compile needs next.
    fn request(&self) -> (action: HtmlAction)
        requires
            self@.phase == HtmlPhase::Loading,
        ensures
            action@ == html_request(self@),
    {
        proof {
            use_type_invariant(self);
        }
        HtmlAction::ReadImage { path: self.awaited() }
    }

    proof fn lemma_step_in_range(&self, k: int)
        requires
            self.consistent(),
            self.phase != HtmlPhase::Closed,
            0 <= k < self.total,
        ensures
            0 <= slide_at_step(self.project@, k) < self.project@.slides.len(),
            k < self.plan.primary@.len() ==> slide_at_step(self.project@, k)
                == self.plan.primary@[k],
            k >= self.plan.primary@.len() ==> slide_at_step(self.project@, k)
                == self.plan.secondary_render@[k - self.plan.primary@.len()],
            self.plan.primary@.len() == primary_count(self.project@),
    {
        let slides = self.project@.slides;
        lemma_indices_where(slides.len(), primary_at(slides));
        lemma_indices_where(slides.len(), secondary_at(slides));
        lemma_indices_where(slides.len(), linked_primary_at(slides));
        assert(as_ints(self.plan.primary@).len() == self.plan.primary@.len());
        assert(as_ints(self.plan.secondary_render@).len() == self.plan.secondary_render@.len());
        if k < self.plan.primary@.len() {
            assert(as_ints(self.plan.primary@)[k] == self.plan.primary@[k]);
        } else {
            let j = k - self.plan.primary@.len();
            assert(as_ints(self.plan.secondary_render@)[j] == self.plan.secondary_render@[j]);
        }
    }

    fn slide_position(&self, k: usize) -> (at: usize)
        requires
            self@.phase != HtmlPhase::Closed,
            k < self.total,
        ensures
            at == slide_at_step(self@.project, k as int),
            at < self.project.slides@.len(),
    {
        proof {
            use_type_invariant(self);
            self.lemma_step_in_range(k as int);
        }
        if k < self.plan.primary.len() {
            self.plan.primary[k]
        } else {
            self.plan.secondary_render[k - self.plan.primary.len()]
        }
    }

    /// Starts the compile of `project`.
    ///
    /// The title of the document is taken from the name of the project's
    /// source file. The answer asks for the image of the first primary
    /// slide, or, for a project without slides, for the writing of the
    /// document.
    pub fn begin(project: Project) -> (r: (HtmlCompiler, HtmlStep))
        ensures
            (r.0@, r.1@) == html_begin(project@),
            counts_hold(project@, r.1@),
            html_sound(r.0@),
    {
        let r = HtmlCompiler::start(project);
        r.0.confirm();
        r
    }

    /// Brings into a proof what holds of every compile that has not ended.
    /// It computes nothing.
    pub fn confirm(&self)
        ensures
            html_sound(self@),
    {
        proof {
            use_type_invariant(self);
        }
    }

    fn start(project: Project) -> (r: (HtmlCompiler, HtmlStep))
        ensures
            (r.0@, r.1@) == html_begin(project@),
            counts_hold(project@, r.1@),
    {
        confirm_well_formed(&project);
        let title = document_title(project.source_file.as_str());
        let plan = classify(&project);
        let ghost p = project@;
        let ghost fresh = HtmlState {
            project: p,
            title: title@,
            images: Seq::empty(),
            phase: HtmlPhase::Loading,
        };
        proof {
            assert(as_ints(plan.primary@).len() == plan.primary@.len());
            assert(as_ints(plan.secondary_render@).len() == plan.secondary_render@.len());
        }
        if plan.secondary_render.len() > usize::MAX - plan.primary.len() {
            let error = CompileError::DocumentAssembly { cause: String::from_str(CAUSE_TOO_MANY) };
            let c = HtmlCompiler::closed(project, title, Ghost(Seq::empty()));
            return (c, HtmlStep { progress: None, action: HtmlAction::Fail { error } });
        }
        let total = plan.primary.len() + plan.secondary_render.len();
        let aspect = aspect_ratio_css(project.aspect_ratio.as_str());
        if total == 0 {
            let html = render_document(
                title.as_str(),
                aspect.as_str(),
                "",
                "",
                0,
                analytics_enabled(&project),
            );
            proof {
                reveal_strlit("");
                assert(main_sections(p, Seq::empty()) == Seq::<Seq<char>>::empty());
                assert(modal_overlays(p, Seq::empty()) == Seq::<Seq<char>>::empty());
                assert(concat_all(Seq::<Seq<char>>::empty()) == ""@);
                lemma_document_counts(p, title@, Seq::empty());
            }
            let c = HtmlCompiler {
                project,
                title,
                aspect,
                plan,
                cursor: 0,
                total,
                main_html: String::new(),
                sub_html: String::new(),
                phase: HtmlPhase::Writing,
                images: Ghost(Seq::empty()),
            };
            (c, HtmlStep { progress: None, action: HtmlAction::WriteOutput { html } })
        } else {
            proof {
                assert(main_sections(p, Seq::empty()) == Seq::<Seq<char>>::empty());
                assert(modal_overlays(p, Seq::empty()) == Seq::<Seq<char>>::empty());
            }
            let c = HtmlCompiler {
                project,
                title,
                aspect,
                plan,
                cursor: 0,
                total,
                main_html: String::new(),
                sub_html: String::new(),
                phase: HtmlPhase::Loading,
                images: Ghost(Seq::empty()),
            };
            let action = c.request();
            (c, HtmlStep { progress: None, action })
        }
    }

    #[verifier::rlimit(30)]
    fn take_image(self, bytes: Vec<u8>) -> (r: (HtmlCompiler, HtmlStep))
        requires
            self@.phase == HtmlPhase::Loading,
        ensures
            (r.0@, r.1@) == html_next(self@, (HtmlEventView::ImageRead { bytes: bytes@ })),
            counts_hold(self@.project, r.1@),
    {
        proof {
            use_type_invariant(&self);
            self.lemma_step_in_range(self.cursor as int);
        }
        match decode(bytes.as_slice()) {
            Ok(_) => {},
            Err(e) => {
                let path = self.awaited();
                return self.failure(CompileError::ImageDecode { path, cause: e.cause });
            },
        }
        let text = match encode_for_embedding(bytes.as_slice()) {
            Some(text) => text,
            None => {
                let error = CompileError::DocumentAssembly {
                    cause: String::from_str(CAUSE_TOO_LARGE),
                };
                return self.failure(error);
            },
        };
        let at = self.slide_position(self.cursor);
        let HtmlCompiler {
            project,
            title,
            aspect,
            plan,
            cursor,
            total,
            main_html,
            sub_html,
            phase: _,
            images,
        } = self;
        let ghost p = project@;
        let ghost received = images@.push(text@);
        let (main_html, sub_html) = render_step(
            &project,
            aspect.as_str(),
            cursor < plan.primary.len(),
            at,
            text.as_str(),
            main_html,
            sub_html,
            images,
        );
        let cursor = cursor + 1;
        let progress = Some(ExportProgress { current: cursor, total });
        if cursor < total {
            let c = HtmlCompiler {
                project,
                title,
                aspect,
                plan,
                cursor,
                total,
                main_html,
                sub_html,
                phase: HtmlPhase::Loading,
                images: Ghost(received),
            };
            let action = c.request();
            (c, HtmlStep { progress, action })
        } else {
            let html = render_document(
                title.as_str(),
                aspect.as_str(),
                main_html.as_str(),
                sub_html.as_str(),
                plan.primary.len(),
                analytics_enabled(&project),
            );
            proof {
                lemma_document_counts(p, title@, received);
            }
            let c = HtmlCompiler {
                project,
                title,
                aspect,
                plan,
                cursor,
                total,
                main_html: String::new(),
                sub_html: String::new(),
                phase: HtmlPhase::Writing,
                images: Ghost(received),
            };
            (c, HtmlStep { progress, action: HtmlAction::WriteOutput { html } })
        }
    }

    /// Takes the compile one step further on the event `event`.
    ///
    /// See [`html_next`] for the state that follows and the answer given.
    /// In the document that is handed over for writing, the opening of a
    /// main section stands once for each primary slide, the opening of a
    /// modal overlay once for each member of the secondary-render set, and
    /// no script is opened but those of the skeleton.
    /// The state that follows is sound as every state of a compile is; see
    /// [`html_sound`].
    pub fn step(self, event: HtmlEvent) -> (r: (HtmlCompiler, HtmlStep))
        ensures
            (r.0@, r.1@) == html_next(self@, event@),
            counts_hold(self@.project, r.1@),
            html_sound(r.0@),
    {
        let r = self.advance(event);
        r.0.confirm();
        r
    }

    fn advance(self, event: HtmlEvent) -> (r: (HtmlCompiler, HtmlStep))
        ensures
            (r.0@, r.1@) == html_next(self@, event@),
            counts_hold(self@.project, r.1@),
    {
        proof {
            use_type_invariant(&self);
        }
        match self.phase {
            HtmlPhase::Loading => match event {
                HtmlEvent::ImageRead { bytes } => self.take_image(bytes),
                HtmlEvent::ImageUnreadable { cause } => {
                    let path = self.awaited();
                    self.failure(CompileError::ImageRead { path, cause })
                },
                _ => self.failure(unexpected_event()),
            },
            HtmlPhase::Writing => match event {
                HtmlEvent::OutputWritten => {
                    let warnings = validate(&self.project);
                    let HtmlCompiler { project, title, images, .. } = self;
                    (
                        HtmlCompiler::closed(project, title, images),
                        HtmlStep { progress: None, action: HtmlAction::Finish { warnings } },
                    )
                },
                HtmlEvent::OutputFailed { cause } => self.failure(
                    CompileError::OutputWrite { cause },
                ),
                _ => self.failure(unexpected_event()),
            },
            HtmlPhase::Closed => self.failure(unexpected_event()),
        }
    }
}

/// Renders the slide at position `at` with its image `text` and adds it to
/// the markup gathered so far: to the main sections while primary slides
/// are read, to the modal overlays afterwards.
fn render_step(
    project: &Project,
    aspect: &str,
    primary: bool,
    at: usize,
    text: &str,
    main_html: String,
    sub_html: String,
    images: Ghost<Seq<Seq<char>>>,
) -> (r: (String, String))
    requires
        at < project.slides@.len(),
        aspect@ == aspect_css(project@.aspect_ratio),
        images@.len() < step_total(project@),
        at == slide_at_step(project@, images@.len() as int),
        primary == (images@.len() < primary_count(project@)),
        main_html@ == concat_all(main_sections(project@, images@)),
        sub_html@ == concat_all(modal_overlays(project@, images@)),
    ensures
        r.0@ == concat_all(main_sections(project@, images@.push(text@))),
        r.1@ == concat_all(modal_overlays(project@, images@.push(text@))),
{
    let ghost p = project@;
    let ghost received = images@.push(text@);
    let mut main_html = main_html;
    let mut sub_html = sub_html;
    assert(p.slides[at as int] == project.slides[at as int]@);
    if primary {
        let section = render_main_slide(&project.slides[at], &project.slides, text, aspect);
        main_html.append(section.as_str());
        proof {
            assert(main_sections(p, received) =~= main_sections(p, images@).push(section@));
            assert(main_sections(p, received).drop_last() =~= main_sections(p, images@));
            assert(modal_overlays(p, received) =~= modal_overlays(p, images@));
        }
    } else {
        let overlay = render_sub_slide(&project.slides[at], &project.slides, text, aspect);
        sub_html.append(overlay.as_str());
        proof {
            assert(modal_overlays(p, received) =~= modal_overlays(p, images@).push(overlay@));
            assert(modal_overlays(p, received).drop_last() =~= modal_overlays(p, images@));
            assert(main_sections(p, received) =~= main_sections(p, images@));
        }
    }
    (main_html, sub_html)
}

fn unexpected_event() -> (error: CompileError)
    ensures
        error@ == (CompileErrorView::DocumentAssembly { cause: CAUSE_UNEXPECTED@ }),
{
    CompileError::DocumentAssembly { cause: String::from_str(CAUSE_UNEXPECTED) }
}

fn analytics_enabled(project: &Project) -> (on: bool)
    ensures
        on == project@.analytics_on(),
{
    match project.enable_analytics {
        Some(on) => on,
        None => false,
    }
}

} // verus!
