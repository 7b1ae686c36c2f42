//! The navigation classifier: which slides make up the primary sequence,
//! which are rendered as modal targets, and which hotspots point nowhere.

use vstd::prelude::*;
use crate::model::{Hotspot, HotspotView, Project, Slide, SlideView};
use crate::text::text_equals;

verus! {

/// The indices below `n` that `keep` accepts, in ascending order.
pub open spec fn indices_where(n: nat, keep: spec_fn(int) -> bool) -> Seq<int>
    decreases n,
{
    if n == 0 {
        Seq::empty()
    } else {
        let before = indices_where((n - 1) as nat, keep);
        if keep(n - 1) {
            before.push(n - 1)
        } else {
            before
        }
    }
}

/// A list of machine indices as mathematical integers.
pub open spec fn as_ints(v: Seq<usize>) -> Seq<int> {
    v.map_values(|x: usize| x as int)
}

/// Accepts the positions of the primary slides.
pub open spec fn primary_at(slides: Seq<SlideView>) -> spec_fn(int) -> bool {
    |i: int| slides[i].is_main
}

/// Accepts the positions of the secondary slides.
pub open spec fn secondary_at(slides: Seq<SlideView>) -> spec_fn(int) -> bool {
    |i: int| !slides[i].is_main
}

/// True when some hotspot of the project names `id` as its target.
pub open spec fn is_targeted(slides: Seq<SlideView>, id: Seq<char>) -> bool {
    exists|s: int, h: int|
        0 <= s < slides.len() && 0 <= h < slides[s].hotspots.len() && (
        #[trigger] slides[s].hotspots[h]).target_id == Some(id)
}

/// True for a primary slide that can also be entered as a drill-down view:
/// it owns a hotspot, or a hotspot somewhere targets it.
pub open spec fn is_linked_primary(slides: Seq<SlideView>, i: int) -> bool {
    slides[i].is_main && (slides[i].hotspots.len() > 0 || is_targeted(slides, slides[i].id))
}

/// Accepts the positions of the primary slides that are also modal targets.
pub open spec fn linked_primary_at(slides: Seq<SlideView>) -> spec_fn(int) -> bool {
    |i: int| is_linked_primary(slides, i)
}

/// The primary sequence: the positions of the slides marked as main, in the
/// order of the project.
pub open spec fn primary_indices(slides: Seq<SlideView>) -> Seq<int> {
    indices_where(slides.len(), primary_at(slides))
}

/// The positions of the slides not marked as main, in the order of the project.
pub open spec fn secondary_indices(slides: Seq<SlideView>) -> Seq<int> {
    indices_where(slides.len(), secondary_at(slides))
}

/// True when the slide at `i` belongs to the secondary-render set: it is not
/// primary, or it is a primary slide that owns or receives a link.
pub open spec fn in_render_set(slides: Seq<SlideView>, i: int) -> bool {
    !slides[i].is_main || is_linked_primary(slides, i)
}

/// The secondary-render set in the order in which its members are rendered:
/// every secondary slide, then every linked primary slide.
pub open spec fn modal_indices(slides: Seq<SlideView>) -> Seq<int> {
    secondary_indices(slides) + indices_where(slides.len(), linked_primary_at(slides))
}

/// The order in which a paginated export lays the slides out: every primary
/// slide, then every secondary slide.
pub open spec fn page_order(slides: Seq<SlideView>) -> Seq<int> {
    primary_indices(slides) + secondary_indices(slides)
}

/// True when a slide of the project carries the id `id`.
pub open spec fn has_slide(slides: Seq<SlideView>, id: Seq<char>) -> bool {
    exists|i: int| 0 <= i < slides.len() && (#[trigger] slides[i]).id == id
}

/// True when `h` is a link to a slide whose target names no slide of the
/// project.
pub open spec fn is_dangling(slides: Seq<SlideView>, h: HotspotView) -> bool {
    !h.is_url_link() && match h.target_id {
        Some(target) => !has_slide(slides, target),
        None => false,
    }
}

/// What `indices_where` holds: ascending positions below `n`, each accepted
/// by `keep`, and every accepted position among them.
pub proof fn lemma_indices_where(n: nat, keep: spec_fn(int) -> bool)
    ensures
        indices_where(n, keep).len() <= n,
        forall|k: int|
            0 <= k < indices_where(n, keep).len() ==> 0 <= (#[trigger] indices_where(n, keep)[k])
                < n && keep(indices_where(n, keep)[k]),
        forall|j: int, k: int|
            0 <= j < k < indices_where(n, keep).len() ==> (#[trigger] indices_where(n, keep)[j])
                < (#[trigger] indices_where(n, keep)[k]),
        forall|i: int| 0 <= i < n && keep(i) ==> indices_where(n, keep).contains(i),
    decreases n,
{
    if n > 0 {
        let before = indices_where((n - 1) as nat, keep);
        let all = indices_where(n, keep);
        lemma_indices_where((n - 1) as nat, keep);
        assert forall|i: int| 0 <= i < n && keep(i) implies all.contains(i) by {
            if i == n - 1 {
                assert(all[all.len() - 1] == i);
            } else {
                assert(before.contains(i));
                let k = choose|k: int| 0 <= k < before.len() && before[k] == i;
                assert(all[k] == i);
            }
        }
    }
}

/// A predicate and its negation split the positions below `n` between them.
pub proof fn lemma_indices_split(n: nat, keep: spec_fn(int) -> bool, rest: spec_fn(int) -> bool)
    requires
        forall|i: int| 0 <= i < n ==> (#[trigger] keep(i) <==> !rest(i)),
    ensures
        indices_where(n, keep).len() + indices_where(n, rest).len() == n,
    decreases n,
{
    if n > 0 {
        lemma_indices_split((n - 1) as nat, keep, rest);
    }
}

/// The primary positions of a project, in order.
pub fn primary_slides(slides: &Vec<Slide>) -> (out: Vec<usize>)
    ensures
        as_ints(out@) == primary_indices(slides.deep_view()),
{
    let ghost view = slides.deep_view();
    let mut out: Vec<usize> = Vec::new();
    let mut i: usize = 0;
    while i < slides.len()
        invariant
            i <= slides.len(),
            view == slides.deep_view(),
            as_ints(out@) == indices_where(i as nat, primary_at(view)),
        decreases slides.len() - i,
    {
        let ghost before = out@;
        if slides[i].is_main {
            out.push(i);
            assert(as_ints(out@) == as_ints(before).push(i as int));
        }
        i = i + 1;
    }
    out
}

/// The secondary positions of a project, in order.
pub fn secondary_slides(slides: &Vec<Slide>) -> (out: Vec<usize>)
    ensures
        as_ints(out@) == secondary_indices(slides.deep_view()),
{
    let ghost view = slides.deep_view();
    let mut out: Vec<usize> = Vec::new();
    let mut i: usize = 0;
    while i < slides.len()
        invariant
            i <= slides.len(),
            view == slides.deep_view(),
            as_ints(out@) == indices_where(i as nat, secondary_at(view)),
        decreases slides.len() - i,
    {
        let ghost before = out@;
        if !slides[i].is_main {
            out.push(i);
            assert(as_ints(out@) == as_ints(before).push(i as int));
        }
        i = i + 1;
    }
    out
}

fn targets(hotspots: &Vec<Hotspot>, id: &str) -> (found: bool)
    ensures
        found == exists|h: int|
            0 <= h < hotspots.len() && (#[trigger] hotspots.deep_view()[h]).target_id == Some(id@),
{
    let mut h: usize = 0;
    while h < hotspots.len()
        invariant
            h <= hotspots.len(),
            forall|k: int|
                0 <= k < h ==> (#[trigger] hotspots.deep_view()[k]).target_id != Some(id@),
        decreases hotspots.len() - h,
    {
        assert(hotspots.deep_view()[h as int] == hotspots[h as int]@);
        match &hotspots[h].target_id {
            Some(target) => {
                if text_equals(target.as_str(), id) {
                    return true;
                }
            },
            None => {},
        }
        h = h + 1;
    }
    false
}

/// Decides whether some hotspot of the project names `id` as its target.
pub fn is_target(slides: &Vec<Slide>, id: &str) -> (found: bool)
    ensures
        found == is_targeted(slides.deep_view(), id@),
{
    let ghost view = slides.deep_view();
    let mut s: usize = 0;
    while s < slides.len()
        invariant
            s <= slides.len(),
            view == slides.deep_view(),
            forall|k: int, h: int|
                0 <= k < s && 0 <= h < view[k].hotspots.len() ==> (
                #[trigger] view[k].hotspots[h]).target_id != Some(id@),
        decreases slides.len() - s,
    {
        assert(view[s as int] == slides[s as int]@);
        if targets(&slides[s].hotspots, id) {
            proof {
                let hotspots = slides[s as int].hotspots.deep_view();
                let h = choose|h: int|
                    0 <= h < hotspots.len() && (#[trigger] hotspots[h]).target_id == Some(id@);
                assert(view[s as int].hotspots[h].target_id == Some(id@));
            }
            return true;
        }
        s = s + 1;
    }
    false
}

/// Decides whether a slide of the project carries the id `id`.
pub fn slide_exists(slides: &Vec<Slide>, id: &str) -> (found: bool)
    ensures
        found == has_slide(slides.deep_view(), id@),
{
    let ghost view = slides.deep_view();
    let mut i: usize = 0;
    while i < slides.len()
        invariant
            i <= slides.len(),
            view == slides.deep_view(),
            forall|k: int| 0 <= k < i ==> (#[trigger] view[k]).id != id@,
        decreases slides.len() - i,
    {
        assert(view[i as int] == slides[i as int]@);
        if text_equals(slides[i].id.as_str(), id) {
            return true;
        }
        i = i + 1;
    }
    false
}

/// The primary positions that are also modal targets, in order.
fn linked_primary_slides(slides: &Vec<Slide>) -> (out: Vec<usize>)
    ensures
        as_ints(out@) == indices_where(slides.len() as nat, linked_primary_at(slides.deep_view())),
{
    let ghost view = slides.deep_view();
    let mut out: Vec<usize> = Vec::new();
    let mut i: usize = 0;
    while i < slides.len()
        invariant
            i <= slides.len(),
            view == slides.deep_view(),
            as_ints(out@) == indices_where(i as nat, linked_primary_at(view)),
        decreases slides.len() - i,
    {
        let ghost before = out@;
        assert(view[i as int] == slides[i as int]@);
        let slide = &slides[i];
        if slide.is_main && (slide.hotspots.len() > 0 || is_target(slides, slide.id.as_str())) {
            out.push(i);
            assert(as_ints(out@) == as_ints(before).push(i as int));
        }
        i = i + 1;
    }
    out
}

/// The two sets that navigation needs of a project.
#[derive(Debug, Clone)]
pub struct Classification {
    /// The primary sequence, as positions in the project.
    pub primary: Vec<usize>,
    /// The secondary-render set, in rendering order, as positions in the project.
    pub secondary_render: Vec<usize>,
}

/// Partitions the slides of a project for navigation.
///
/// `primary` holds every slide marked as main, in project order.
/// `secondary_render` holds every slide that must exist as a modal target:
/// the secondary slides in project order, followed by the primary slides
/// that own a hotspot or are the target of one. A primary slide without
/// hotspots that nothing targets appears in `primary` only.
pub fn classify(project: &Project) -> (sets: Classification)
    ensures
        as_ints(sets.primary@) == primary_indices(project@.slides),
        as_ints(sets.secondary_render@) == modal_indices(project@.slides),
{
    let primary = primary_slides(&project.slides);
    let mut secondary_render = secondary_slides(&project.slides);
    let ghost head = secondary_render@;
    let mut linked = linked_primary_slides(&project.slides);
    let ghost tail = linked@;
    secondary_render.append(&mut linked);
    assert(as_ints(secondary_render@) == as_ints(head) + as_ints(tail));
    Classification { primary, secondary_render }
}

/// The order of the pages of a paginated export: the primary positions, then
/// the secondary positions.
pub fn page_sequence(project: &Project) -> (order: Vec<usize>)
    ensures
        as_ints(order@) == page_order(project@.slides),
        order@.len() == project.slides@.len(),
{
    let mut order = primary_slides(&project.slides);
    let ghost head = order@;
    let mut rest = secondary_slides(&project.slides);
    let ghost tail = rest@;
    order.append(&mut rest);
    proof {
        assert(as_ints(order@) == as_ints(head) + as_ints(tail));
        let view = project@.slides;
        lemma_indices_split(view.len(), primary_at(view), secondary_at(view));
        assert(as_ints(order@).len() == order@.len());
    }
    order
}

/// The primary sequence holds exactly the slides marked as main, each once,
/// in the order of the project.
pub proof fn lemma_primary_sequence(slides: Seq<SlideView>)
    ensures
        forall|i: int|
            0 <= i < slides.len() ==> (primary_indices(slides).contains(i) <==> (
            #[trigger] slides[i]).is_main),
        forall|k: int|
            0 <= k < primary_indices(slides).len() ==> 0 <= (#[trigger] primary_indices(
                slides,
            )[k]) < slides.len(),
        forall|j: int, k: int|
            0 <= j < k < primary_indices(slides).len() ==> (#[trigger] primary_indices(slides)[j])
                < (#[trigger] primary_indices(slides)[k]),
{
    lemma_indices_where(slides.len(), primary_at(slides));
    let primary = primary_indices(slides);
    assert forall|i: int| 0 <= i < slides.len() && primary.contains(i) implies (
    #[trigger] slides[i]).is_main by {
        let k = choose|k: int| 0 <= k < primary.len() && primary[k] == i;
        assert(primary_at(slides)(primary[k]));
    }
    assert forall|i: int| 0 <= i < slides.len() && (#[trigger] slides[i]).is_main implies primary.contains(
        i,
    ) by {
        assert(primary_at(slides)(i));
    }
}

/// The secondary-render set holds exactly the slides that need a modal:
/// each slide that is not main, and each main slide that owns a hotspot or
/// is the target of one. No slide is in it twice.
pub proof fn lemma_render_set(slides: Seq<SlideView>)
    ensures
        forall|i: int|
            0 <= i < slides.len() ==> (modal_indices(slides).contains(i) <==> in_render_set(
                slides,
                i,
            )),
        forall|k: int|
            0 <= k < modal_indices(slides).len() ==> 0 <= (#[trigger] modal_indices(slides)[k])
                < slides.len(),
        forall|j: int, k: int|
            0 <= j < k < modal_indices(slides).len() ==> (#[trigger] modal_indices(slides)[j]) != (
            #[trigger] modal_indices(slides)[k]),
{
    let n = slides.len();
    let secondary = secondary_indices(slides);
    let linked = indices_where(n, linked_primary_at(slides));
    let modal = modal_indices(slides);
    lemma_indices_where(n, secondary_at(slides));
    lemma_indices_where(n, linked_primary_at(slides));
    assert forall|k: int| 0 <= k < modal.len() implies 0 <= (#[trigger] modal[k]) < n
        && in_render_set(slides, modal[k]) && (k < secondary.len() <==> !slides[modal[k]].is_main) by {
        if k < secondary.len() {
            assert(modal[k] == secondary[k]);
            assert(secondary_at(slides)(secondary[k]));
        } else {
            assert(modal[k] == linked[k - secondary.len()]);
            assert(linked_primary_at(slides)(linked[k - secondary.len()]));
        }
    }
    assert forall|i: int| 0 <= i < n && in_render_set(slides, i) implies modal.contains(i) by {
        if !slides[i].is_main {
            assert(secondary_at(slides)(i));
            assert(secondary.contains(i));
            let k = choose|k: int| 0 <= k < secondary.len() && secondary[k] == i;
            assert(modal[k] == i);
        } else {
            assert(linked_primary_at(slides)(i));
            assert(linked.contains(i));
            let k = choose|k: int| 0 <= k < linked.len() && linked[k] == i;
            assert(modal[secondary.len() + k] == i);
        }
    }
    assert forall|j: int, k: int| 0 <= j < k < modal.len() implies (#[trigger] modal[j]) != (
    #[trigger] modal[k]) by {
        if k < secondary.len() {
            assert(modal[j] == secondary[j] && modal[k] == secondary[k]);
        } else if j >= secondary.len() {
            assert(modal[j] == linked[j - secondary.len()]);
            assert(modal[k] == linked[k - secondary.len()]);
        }
    }
}

/// The page order holds every slide of the project exactly once: the slides
/// marked as main in project order, then the others in project order.
pub proof fn lemma_page_order(slides: Seq<SlideView>)
    ensures
        page_order(slides).len() == slides.len(),
        forall|i: int| 0 <= i < slides.len() ==> page_order(slides).contains(i),
        forall|k: int|
            0 <= k < page_order(slides).len() ==> 0 <= (#[trigger] page_order(slides)[k])
                < slides.len(),
        forall|j: int, k: int|
            0 <= j < k < page_order(slides).len() ==> (#[trigger] page_order(slides)[j]) != (
            #[trigger] page_order(slides)[k]),
        forall|k: int|
            0 <= k < page_order(slides).len() ==> (k < primary_indices(slides).len() <==> slides[(
            #[trigger] page_order(slides)[k])].is_main),
        forall|j: int, k: int|
            0 <= j < k < page_order(slides).len() && (k < primary_indices(slides).len() || j
                >= primary_indices(slides).len()) ==> (#[trigger] page_order(slides)[j]) < (
            #[trigger] page_order(slides)[k]),
{
    let n = slides.len();
    let primary = primary_indices(slides);
    let secondary = secondary_indices(slides);
    let order = page_order(slides);
    lemma_indices_where(n, primary_at(slides));
    lemma_indices_where(n, secondary_at(slides));
    lemma_indices_split(n, primary_at(slides), secondary_at(slides));
    assert forall|k: int| 0 <= k < order.len() implies 0 <= (#[trigger] order[k]) < n && (k
        < primary.len() <==> slides[order[k]].is_main) by {
        if k < primary.len() {
            assert(order[k] == primary[k]);
            assert(primary_at(slides)(primary[k]));
        } else {
            assert(order[k] == secondary[k - primary.len()]);
            assert(secondary_at(slides)(secondary[k - primary.len()]));
        }
    }
    assert forall|i: int| 0 <= i < n implies order.contains(i) by {
        if slides[i].is_main {
            assert(primary_at(slides)(i));
            assert(primary.contains(i));
            let k = choose|k: int| 0 <= k < primary.len() && primary[k] == i;
            assert(order[k] == i);
        } else {
            assert(secondary_at(slides)(i));
            assert(secondary.contains(i));
            let k = choose|k: int| 0 <= k < secondary.len() && secondary[k] == i;
            assert(order[primary.len() + k] == i);
        }
    }
    assert forall|j: int, k: int|
        0 <= j < k < order.len() && (k < primary.len() || j >= primary.len()) implies (
    #[trigger] order[j]) < (#[trigger] order[k]) by {
        if k < primary.len() {
            assert(order[j] == primary[j] && order[k] == primary[k]);
        } else {
            assert(order[j] == secondary[j - primary.len()]);
            assert(order[k] == secondary[k - primary.len()]);
        }
    }
    assert forall|j: int, k: int| 0 <= j < k < order.len() implies (#[trigger] order[j]) != (
    #[trigger] order[k]) by {
        if k < primary.len() || j >= primary.len() {
            assert(order[j] < order[k]);
        } else {
            assert(slides[order[j]].is_main && !slides[order[k]].is_main);
        }
    }
}

/// The number of positions below `n` that `keep` accepts.
pub open spec fn count_where(n: nat, keep: spec_fn(int) -> bool) -> nat
    decreases n,
{
    if n == 0 {
        0
    } else {
        count_where((n - 1) as nat, keep) + if keep(n - 1) {
            1nat
        } else {
            0nat
        }
    }
}

/// Accepts the positions of the slides in the secondary-render set.
pub open spec fn render_set_at(slides: Seq<SlideView>) -> spec_fn(int) -> bool {
    |i: int| in_render_set(slides, i)
}

proof fn lemma_indices_count(n: nat, keep: spec_fn(int) -> bool)
    ensures
        indices_where(n, keep).len() == count_where(n, keep),
    decreases n,
{
    if n > 0 {
        lemma_indices_count((n - 1) as nat, keep);
    }
}

proof fn lemma_count_union(
    n: nat,
    a: spec_fn(int) -> bool,
    b: spec_fn(int) -> bool,
    both: spec_fn(int) -> bool,
)
    requires
        forall|i: int| 0 <= i < n ==> !(#[trigger] a(i) && b(i)),
        forall|i: int| 0 <= i < n ==> (#[trigger] both(i) <==> a(i) || b(i)),
    ensures
        count_where(n, both) == count_where(n, a) + count_where(n, b),
    decreases n,
{
    if n > 0 {
        lemma_count_union((n - 1) as nat, a, b, both);
        assert(both(n - 1) <==> a(n - 1) || b(n - 1));
        assert(!(a(n - 1) && b(n - 1)));
    }
}

/// The primary sequence is as long as there are slides marked as main, and
/// the secondary-render set as large as there are slides that need a modal.
pub proof fn lemma_classification_counts(slides: Seq<SlideView>)
    ensures
        primary_indices(slides).len() == count_where(slides.len(), primary_at(slides)),
        modal_indices(slides).len() == count_where(slides.len(), render_set_at(slides)),
{
    let n = slides.len();
    lemma_indices_count(n, primary_at(slides));
    lemma_indices_count(n, secondary_at(slides));
    lemma_indices_count(n, linked_primary_at(slides));
    lemma_count_union(n, secondary_at(slides), linked_primary_at(slides), render_set_at(slides));
}

} // verus!
