use slide_linker::model::{Hotspot, Project, Slide};
use slide_linker::number::Decimal;
use slide_linker::validate::{ids_are_unique, link_is_consistent, validate};

fn dec(s: &str) -> Decimal {
    Decimal::parse(s).unwrap()
}

fn hotspot(id: &str, link_type: &str, target: Option<&str>, url: Option<&str>) -> Hotspot {
    Hotspot {
        id: id.to_string(),
        x: dec("1"),
        y: dec("2"),
        w: dec("3"),
        h: dec("4"),
        link_type: link_type.to_string(),
        target_id: target.map(|t| t.to_string()),
        url: url.map(|u| u.to_string()),
        tooltip: None,
        style: None,
    }
}

fn slide(id: &str, hotspots: Vec<Hotspot>) -> Slide {
    Slide {
        id: id.to_string(),
        index: 0,
        label: id.to_string(),
        is_main: true,
        image_path: format!("slides/{}.png", id),
        hotspots,
        text_overlays: Vec::new(),
    }
}

fn project(slides: Vec<Slide>) -> Project {
    Project {
        version: "1".to_string(),
        created_at: String::new(),
        updated_at: String::new(),
        source_file: "deck.pdf".to_string(),
        aspect_ratio: "16:9".to_string(),
        slides,
        enable_analytics: None,
    }
}

#[test]
fn dangling_target_is_reported() {
    let p = project(vec![
        slide("slide-001", vec![hotspot("h1", "slide", Some("slide-999"), None)]),
        slide("slide-002", vec![]),
    ]);
    let warnings = validate(&p);
    assert_eq!(warnings.len(), 1);
    assert_eq!(warnings[0].slide_id, "slide-001");
    assert_eq!(warnings[0].hotspot_id, "h1");
    assert_eq!(warnings[0].target_id, "slide-999");
}

#[test]
fn resolved_targets_give_no_warning() {
    let p = project(vec![
        slide("a", vec![hotspot("h1", "slide", Some("b"), None), hotspot("h2", "slide", Some("a"), None)]),
        slide("b", vec![hotspot("h3", "slide", Some("a"), None)]),
    ]);
    assert!(validate(&p).is_empty());
}

#[test]
fn links_to_addresses_and_links_without_target_give_no_warning() {
    let p = project(vec![slide(
        "a",
        vec![
            hotspot("h1", "url", None, Some("https://example.com")),
            hotspot("h2", "url", Some("nowhere"), Some("https://example.com")),
            hotspot("h3", "slide", None, None),
        ],
    )]);
    assert!(validate(&p).is_empty());
}

#[test]
fn warnings_follow_the_order_of_slides_and_hotspots() {
    let p = project(vec![
        slide(
            "a",
            vec![
                hotspot("a1", "slide", Some("x"), None),
                hotspot("a2", "slide", Some("b"), None),
                hotspot("a3", "slide", Some("y"), None),
            ],
        ),
        slide("b", vec![hotspot("b1", "", Some("z"), None)]),
    ]);
    let found: Vec<(String, String, String)> = validate(&p)
        .into_iter()
        .map(|w| (w.slide_id, w.hotspot_id, w.target_id))
        .collect();
    let expected: Vec<(String, String, String)> = [("a", "a1", "x"), ("a", "a3", "y"), ("b", "b1", "z")]
        .iter()
        .map(|(s, h, t)| (s.to_string(), h.to_string(), t.to_string()))
        .collect();
    assert_eq!(found, expected);
}

#[test]
fn unique_ids_are_told_from_shared_ones() {
    assert!(ids_are_unique(&project(vec![])));
    assert!(ids_are_unique(&project(vec![slide("a", vec![])])));
    assert!(ids_are_unique(&project(vec![slide("a", vec![]), slide("b", vec![]), slide("c", vec![])])));
    assert!(!ids_are_unique(&project(vec![slide("a", vec![]), slide("b", vec![]), slide("a", vec![])])));
    assert!(!ids_are_unique(&project(vec![slide("a", vec![]), slide("a", vec![])])));
    assert!(ids_are_unique(&project(vec![slide("a", vec![]), slide("A", vec![])])));
}

#[test]
fn a_link_gives_exactly_what_its_kind_calls_for() {
    assert!(link_is_consistent(&hotspot("h", "slide", Some("a"), None)));
    assert!(link_is_consistent(&hotspot("h", "url", None, Some("https://example.com"))));
    assert!(!link_is_consistent(&hotspot("h", "slide", None, None)));
    assert!(!link_is_consistent(&hotspot("h", "slide", Some("a"), Some("https://example.com"))));
    assert!(!link_is_consistent(&hotspot("h", "slide", None, Some("https://example.com"))));
    assert!(!link_is_consistent(&hotspot("h", "url", None, None)));
    assert!(!link_is_consistent(&hotspot("h", "url", Some("a"), Some("https://example.com"))));
    assert!(!link_is_consistent(&hotspot("h", "url", Some("a"), None)));
}
