//! Validation of hotspot targets. A link to a slide that the project does
//! not have is tolerated: it renders as a dead link and is reported here.

use vstd::prelude::*;
use crate::classify::{is_dangling, slide_exists};
use crate::model::{Hotspot, HotspotView, Project, Slide, SlideView, LINK_URL};
use crate::text::text_equals;

verus! {

/// A hotspot whose target names no slide of the project.
#[derive(Debug, Clone)]
pub struct ValidationWarning {
    /// The slide that owns the hotspot.
    pub slide_id: String,
    /// The hotspot.
    pub hotspot_id: String,
    /// The id that the hotspot names and no slide carries.
    pub target_id: String,
}

/// The view of a [`ValidationWarning`].
pub struct ValidationWarningView {
    pub slide_id: Seq<char>,
    pub hotspot_id: Seq<char>,
    pub target_id: Seq<char>,
}

impl View for ValidationWarning {
    type V = ValidationWarningView;

    open spec fn view(&self) -> ValidationWarningView {
        ValidationWarningView {
            slide_id: self.slide_id@,
            hotspot_id: self.hotspot_id@,
            target_id: self.target_id@,
        }
    }
}

impl DeepView for ValidationWarning {
    type V = ValidationWarningView;

    open spec fn deep_view(&self) -> ValidationWarningView {
        self@
    }
}

/// The warning for a dangling hotspot `h` of `slide`.
pub open spec fn warning_for(slide: SlideView, h: HotspotView) -> ValidationWarningView {
    ValidationWarningView {
        slide_id: slide.id,
        hotspot_id: h.id,
        target_id: match h.target_id {
            Some(target) => target,
            None => Seq::empty(),
        },
    }
}

/// The warnings for the first `upto` hotspots of `slide`, in their order.
pub open spec fn slide_warnings(slides: Seq<SlideView>, slide: SlideView, upto: nat) -> Seq<
    ValidationWarningView,
>
    decreases upto,
{
    if upto == 0 {
        Seq::empty()
    } else {
        let before = slide_warnings(slides, slide, (upto - 1) as nat);
        let h = slide.hotspots[upto - 1];
        if is_dangling(slides, h) {
            before.push(warning_for(slide, h))
        } else {
            before
        }
    }
}

/// The warnings for the first `n` slides, in their order.
pub open spec fn warnings_upto(slides: Seq<SlideView>, n: nat) -> Seq<ValidationWarningView>
    decreases n,
{
    if n == 0 {
        Seq::empty()
    } else {
        warnings_upto(slides, (n - 1) as nat) + slide_warnings(
            slides,
            slides[n - 1],
            slides[n - 1].hotspots.len(),
        )
    }
}

/// The warnings of a project: one for each dangling hotspot, slide by slide
/// and hotspot by hotspot.
pub open spec fn validation_warnings(slides: Seq<SlideView>) -> Seq<ValidationWarningView> {
    warnings_upto(slides, slides.len())
}

fn hotspot_dangles(slides: &Vec<Slide>, h: &Hotspot) -> (dangling: bool)
    ensures
        dangling == is_dangling(slides.deep_view(), h@),
{
    if text_equals(h.link_type.as_str(), LINK_URL) {
        false
    } else {
        match &h.target_id {
            Some(target) => !slide_exists(slides, target.as_str()),
            None => false,
        }
    }
}

/// Collects the warnings of a project: one for each link to a slide whose
/// target names no slide of the project, in the order of the slides and of
/// their hotspots. A project without such links gives no warning.
pub fn validate(project: &Project) -> (warnings: Vec<ValidationWarning>)
    ensures
        warnings.deep_view() == validation_warnings(project@.slides),
{
    let slides = &project.slides;
    let ghost all = slides.deep_view();
    let mut warnings: Vec<ValidationWarning> = Vec::new();
    let mut s: usize = 0;
    while s < slides.len()
        invariant
            s <= slides.len(),
            all == slides.deep_view(),
            warnings.deep_view() == warnings_upto(all, s as nat),
        decreases slides.len() - s,
    {
        let slide = &slides[s];
        let ghost done = warnings.deep_view();
        assert(all[s as int] == slide@);
        let mut h: usize = 0;
        while h < slide.hotspots.len()
            invariant
                h <= slide.hotspots.len(),
                all == slides.deep_view(),
                all[s as int] == slide@,
                warnings.deep_view() == done + slide_warnings(all, slide@, h as nat),
            decreases slide.hotspots.len() - h,
        {
            let hotspot = &slide.hotspots[h];
            let ghost before = warnings.deep_view();
            assert(slide@.hotspots[h as int] == hotspot@);
            if hotspot_dangles(slides, hotspot) {
                match &hotspot.target_id {
                    Some(target) => {
                        let warning = ValidationWarning {
                            slide_id: slide.id.clone(),
                            hotspot_id: hotspot.id.clone(),
                            target_id: target.clone(),
                        };
                        assert(warning@ == warning_for(slide@, hotspot@));
                        warnings.push(warning);
                        assert(warnings.deep_view() == before.push(
                            warning_for(slide@, hotspot@),
                        ));
                    },
                    None => {},
                }
            }
            h = h + 1;
        }
        s = s + 1;
    }
    warnings
}

/// Decides whether a hotspot gives exactly the one of target and address
/// that its link kind calls for.
pub fn link_is_consistent(h: &Hotspot) -> (ok: bool)
    ensures
        ok == h@.link_consistent(),
{
    if text_equals(h.link_type.as_str(), LINK_URL) {
        h.url.is_some() && h.target_id.is_none()
    } else {
        h.target_id.is_some() && h.url.is_none()
    }
}

/// Decides whether no two slides of a project share an id.
pub fn ids_are_unique(project: &Project) -> (ok: bool)
    ensures
        ok == project@.ids_unique(),
{
    let slides = &project.slides;
    let ghost all = slides.deep_view();
    let mut j: usize = 0;
    while j < slides.len()
        invariant
            j <= slides.len(),
            all == slides.deep_view(),
            all == project@.slides,
            forall|a: int, b: int| 0 <= a < b < j ==> (#[trigger] all[a]).id != (#[trigger] all[b]).id,
        decreases slides.len() - j,
    {
        let mut i: usize = 0;
        while i < j
            invariant
                i <= j < slides.len(),
                all == slides.deep_view(),
                all == project@.slides,
                forall|a: int| 0 <= a < i ==> (#[trigger] all[a]).id != all[j as int].id,
            decreases j - i,
        {
            assert(all[i as int] == slides[i as int]@ && all[j as int] == slides[j as int]@);
            if text_equals(slides[i].id.as_str(), slides[j].id.as_str()) {
                assert(project@.slides[i as int].id == project@.slides[j as int].id);
                return false;
            }
            i = i + 1;
        }
        j = j + 1;
    }
    true
}

/// Every dangling hotspot of a project is reported.
pub proof fn lemma_dangling_is_reported(slides: Seq<SlideView>, s: int, h: int)
    requires
        0 <= s < slides.len(),
        0 <= h < slides[s].hotspots.len(),
        is_dangling(slides, slides[s].hotspots[h]),
    ensures
        validation_warnings(slides).contains(warning_for(slides[s], slides[s].hotspots[h])),
{
    lemma_slide_reports(slides, slides[s], slides[s].hotspots.len(), h);
    lemma_upto_keeps(slides, slides.len(), s);
}

/// Every reported warning belongs to a dangling hotspot of the project.
pub proof fn lemma_reported_is_dangling(slides: Seq<SlideView>, k: int)
    requires
        0 <= k < validation_warnings(slides).len(),
    ensures
        exists|s: int, h: int|
            0 <= s < slides.len() && 0 <= h < slides[s].hotspots.len() && is_dangling(
                slides,
                #[trigger] slides[s].hotspots[h],
            ) && validation_warnings(slides)[k] == warning_for(slides[s], slides[s].hotspots[h]),
{
    lemma_upto_source(slides, slides.len(), k);
}

proof fn lemma_slide_reports(slides: Seq<SlideView>, slide: SlideView, upto: nat, h: int)
    requires
        0 <= h < upto,
        is_dangling(slides, slide.hotspots[h]),
    ensures
        slide_warnings(slides, slide, upto).contains(warning_for(slide, slide.hotspots[h])),
    decreases upto,
{
    let all = slide_warnings(slides, slide, upto);
    if h == upto - 1 {
        assert(all[all.len() - 1] == warning_for(slide, slide.hotspots[h]));
    } else {
        lemma_slide_reports(slides, slide, (upto - 1) as nat, h);
        let before = slide_warnings(slides, slide, (upto - 1) as nat);
        let k = choose|k: int|
            0 <= k < before.len() && before[k] == warning_for(slide, slide.hotspots[h]);
        assert(all[k] == before[k]);
    }
}

proof fn lemma_upto_keeps(slides: Seq<SlideView>, n: nat, s: int)
    requires
        0 <= s < n <= slides.len(),
    ensures
        forall|w: ValidationWarningView|
            slide_warnings(slides, slides[s], slides[s].hotspots.len()).contains(w)
                ==> warnings_upto(slides, n).contains(w),
    decreases n,
{
    let all = warnings_upto(slides, n);
    let head = warnings_upto(slides, (n - 1) as nat);
    let tail = slide_warnings(slides, slides[n - 1], slides[n - 1].hotspots.len());
    assert forall|w: ValidationWarningView|
        slide_warnings(slides, slides[s], slides[s].hotspots.len()).contains(w) implies all.contains(
        w,
    ) by {
        if s == n - 1 {
            let k = choose|k: int| 0 <= k < tail.len() && tail[k] == w;
            assert(all[head.len() + k] == w);
        } else {
            lemma_upto_keeps(slides, (n - 1) as nat, s);
            assert(head.contains(w));
            let k = choose|k: int| 0 <= k < head.len() && head[k] == w;
            assert(all[k] == w);
        }
    }
}

proof fn lemma_slide_source(slides: Seq<SlideView>, slide: SlideView, upto: nat, k: int)
    requires
        upto <= slide.hotspots.len(),
        0 <= k < slide_warnings(slides, slide, upto).len(),
    ensures
        exists|h: int|
            0 <= h < upto && is_dangling(slides, #[trigger] slide.hotspots[h]) && slide_warnings(
                slides,
                slide,
                upto,
            )[k] == warning_for(slide, slide.hotspots[h]),
    decreases upto,
{
    let before = slide_warnings(slides, slide, (upto - 1) as nat);
    if k < before.len() {
        lemma_slide_source(slides, slide, (upto - 1) as nat, k);
        let h = choose|h: int|
            0 <= h < upto - 1 && is_dangling(slides, #[trigger] slide.hotspots[h]) && before[k]
                == warning_for(slide, slide.hotspots[h]);
        assert(is_dangling(slides, slide.hotspots[h]));
    } else {
        assert(is_dangling(slides, slide.hotspots[upto - 1]));
    }
}

proof fn lemma_upto_source(slides: Seq<SlideView>, n: nat, k: int)
    requires
        n <= slides.len(),
        0 <= k < warnings_upto(slides, n).len(),
    ensures
        exists|s: int, h: int|
            0 <= s < n && 0 <= h < slides[s].hotspots.len() && is_dangling(
                slides,
                #[trigger] slides[s].hotspots[h],
            ) && warnings_upto(slides, n)[k] == warning_for(slides[s], slides[s].hotspots[h]),
    decreases n,
{
    let head = warnings_upto(slides, (n - 1) as nat);
    if k < head.len() {
        lemma_upto_source(slides, (n - 1) as nat, k);
        let (s, h) = choose|s: int, h: int|
            0 <= s < n - 1 && 0 <= h < slides[s].hotspots.len() && is_dangling(
                slides,
                #[trigger] slides[s].hotspots[h],
            ) && head[k] == warning_for(slides[s], slides[s].hotspots[h]);
        assert(is_dangling(slides, slides[s].hotspots[h]));
    } else {
        let slide = slides[n - 1];
        lemma_slide_source(slides, slide, slide.hotspots.len(), k - head.len());
        let h = choose|h: int|
            0 <= h < slide.hotspots.len() && is_dangling(slides, #[trigger] slide.hotspots[h])
                && slide_warnings(slides, slide, slide.hotspots.len())[k - head.len()]
                == warning_for(slide, slide.hotspots[h]);
        assert(is_dangling(slides, slides[n - 1].hotspots[h]));
    }
}

} // verus!
