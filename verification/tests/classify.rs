use slide_linker::classify::{
    classify, is_target, page_sequence, primary_slides, secondary_slides, slide_exists,
};
use slide_linker::model::{Hotspot, Project, Slide};
use slide_linker::number::Decimal;

fn dec(s: &str) -> Decimal {
    Decimal::parse(s).unwrap()
}

fn link(id: &str, target: &str) -> Hotspot {
    Hotspot {
        id: id.to_string(),
        x: dec("10"),
        y: dec("10"),
        w: dec("20"),
        h: dec("20"),
        link_type: "slide".to_string(),
        target_id: Some(target.to_string()),
        url: None,
        tooltip: None,
        style: None,
    }
}

fn slide(id: &str, is_main: bool, hotspots: Vec<Hotspot>) -> Slide {
    Slide {
        id: id.to_string(),
        index: 0,
        label: id.to_string(),
        is_main,
        image_path: format!("slides/{}.png", id),
        hotspots,
        text_overlays: Vec::new(),
    }
}

fn project(slides: Vec<Slide>) -> Project {
    Project {
        version: "1".to_string(),
        created_at: String::new(),
        updated_at: String::new(),
        source_file: "deck.pdf".to_string(),
        aspect_ratio: "16:9".to_string(),
        slides,
        enable_analytics: None,
    }
}

#[test]
fn empty_project_has_empty_sets() {
    let sets = classify(&project(Vec::new()));
    assert!(sets.primary.is_empty());
    assert!(sets.secondary_render.is_empty());
}

#[test]
fn plain_primary_slides_are_rendered_once() {
    let p = project(vec![slide("a", true, vec![]), slide("b", true, vec![])]);
    let sets = classify(&p);
    assert_eq!(sets.primary, vec![0, 1]);
    assert!(sets.secondary_render.is_empty());
}

#[test]
fn secondary_slides_always_get_a_modal() {
    let p = project(vec![
        slide("a", true, vec![]),
        slide("b", false, vec![]),
        slide("c", true, vec![]),
        slide("d", false, vec![]),
    ]);
    let sets = classify(&p);
    assert_eq!(sets.primary, vec![0, 2]);
    assert_eq!(sets.secondary_render, vec![1, 3]);
}

#[test]
fn two_primary_slides_with_one_link() {
    let p = project(vec![
        slide("slide-001", true, vec![link("h1", "slide-002")]),
        slide("slide-002", true, vec![]),
    ]);
    let sets = classify(&p);
    assert_eq!(sets.primary, vec![0, 1]);
    // slide-001 owns a hotspot, slide-002 is the target of one
    assert_eq!(sets.secondary_render, vec![0, 1]);
}

#[test]
fn secondary_slides_come_before_linked_primary_slides() {
    let p = project(vec![
        slide("m1", true, vec![link("h", "s1")]),
        slide("s1", false, vec![link("back", "m2")]),
        slide("m2", true, vec![]),
        slide("m3", true, vec![]),
        slide("s2", false, vec![]),
    ]);
    let sets = classify(&p);
    assert_eq!(sets.primary, vec![0, 2, 3]);
    assert_eq!(sets.secondary_render, vec![1, 4, 0, 2]);
}

#[test]
fn a_slide_that_targets_itself_is_linked() {
    let p = project(vec![slide("a", true, vec![link("h", "a")]), slide("b", true, vec![])]);
    assert_eq!(classify(&p).secondary_render, vec![0]);
}

#[test]
fn a_target_counts_whatever_the_link_type() {
    let mut h = link("h", "b");
    h.link_type = "url".to_string();
    h.url = Some("https://example.com".to_string());
    let p = project(vec![slide("a", false, vec![h]), slide("b", true, vec![])]);
    assert!(is_target(&p.slides, "b"));
    assert_eq!(classify(&p).secondary_render, vec![0, 1]);
}

#[test]
fn finds_targets_and_slides() {
    let p = project(vec![
        slide("a", true, vec![link("h", "b"), link("g", "zzz")]),
        slide("b", false, vec![]),
    ]);
    assert!(is_target(&p.slides, "b"));
    assert!(is_target(&p.slides, "zzz"));
    assert!(!is_target(&p.slides, "a"));
    assert!(!is_target(&p.slides, ""));
    assert!(slide_exists(&p.slides, "a"));
    assert!(slide_exists(&p.slides, "b"));
    assert!(!slide_exists(&p.slides, "zzz"));
    assert!(!slide_exists(&p.slides, "A"));
}

#[test]
fn page_order_is_primary_then_secondary() {
    let p = project(vec![
        slide("s0", false, vec![]),
        slide("m1", true, vec![]),
        slide("s2", false, vec![]),
        slide("m3", true, vec![]),
        slide("m4", true, vec![]),
    ]);
    assert_eq!(primary_slides(&p.slides), vec![1, 3, 4]);
    assert_eq!(secondary_slides(&p.slides), vec![0, 2]);
    let order = page_sequence(&p);
    assert_eq!(order, vec![1, 3, 4, 0, 2]);
    assert_eq!(order.len(), p.slides.len());
}

#[test]
fn page_order_holds_every_slide_once() {
    let flags = [true, false, false, true, false, true, true, false];
    let slides = flags.iter().enumerate().map(|(i, m)| slide(&format!("s{}", i), *m, vec![])).collect();
    let p = project(slides);
    let mut order = page_sequence(&p);
    order.sort();
    assert_eq!(order, (0..flags.len()).collect::<Vec<usize>>());
}
