use slide_linker::compile_html::{HtmlAction, HtmlCompiler, HtmlEvent, HtmlPhase, HtmlStep};
use slide_linker::error::CompileError;
use slide_linker::model::{ExportProgress, Hotspot, Project, Slide, TextOverlay};
use slide_linker::number::Decimal;
use slide_linker::validate::ValidationWarning;

fn dec(s: &str) -> Decimal {
    Decimal::parse(s).unwrap()
}

fn link(id: &str, target: &str) -> Hotspot {
    Hotspot {
        id: id.to_string(),
        x: dec("10"),
        y: dec("10"),
        w: dec("20"),
        h: dec("20"),
        link_type: "slide".to_string(),
        target_id: Some(target.to_string()),
        url: None,
        tooltip: None,
        style: None,
    }
}

fn slide(id: &str, is_main: bool, hotspots: Vec<Hotspot>) -> Slide {
    Slide {
        id: id.to_string(),
        index: 0,
        label: format!("Label of {}", id),
        is_main,
        image_path: format!("slides/{}.png", id),
        hotspots,
        text_overlays: Vec::new(),
    }
}

fn project(slides: Vec<Slide>) -> Project {
    Project {
        version: "1".to_string(),
        created_at: "2024-01-01".to_string(),
        updated_at: "2024-01-02".to_string(),
        source_file: "decks/talk.pdf".to_string(),
        aspect_ratio: "16:9".to_string(),
        slides,
        enable_analytics: None,
    }
}

/// The stored image of a slide: a small picture whose size depends on the
/// length of its path, so that different slides have different images.
fn png_for(path: &str) -> Vec<u8> {
    let img = image::RgbImage::from_pixel(path.len() as u32, 1, image::Rgb([10, 20, 30]));
    let mut out = std::io::Cursor::new(Vec::new());
    img.write_to(&mut out, image::ImageFormat::Png).unwrap();
    out.into_inner()
}

fn base64_of(bytes: &[u8]) -> String {
    slide_linker::codec::encode_for_embedding(bytes).unwrap()
}

struct Outcome {
    result: Result<(String, Vec<ValidationWarning>), CompileError>,
    progress: Vec<ExportProgress>,
    reads: Vec<String>,
}

/// Drives a compile to its end. A path in `missing` cannot be read; a path
/// that ends in `.txt` holds text instead of an image.
fn run(project: Project, missing: &[&str]) -> Outcome {
    let (mut compiler, mut step) = HtmlCompiler::begin(project);
    let mut progress = Vec::new();
    let mut reads = Vec::new();
    let mut written: Option<String> = None;
    loop {
        let HtmlStep { progress: announced, action } = step;
        if let Some(p) = announced {
            progress.push(p);
        }
        let event = match action {
            HtmlAction::ReadImage { path } => {
                reads.push(path.clone());
                if missing.contains(&path.as_str()) {
                    HtmlEvent::ImageUnreadable { cause: "not found".to_string() }
                } else if path.ends_with(".txt") {
                    HtmlEvent::ImageRead { bytes: b"this is no image".to_vec() }
                } else {
                    HtmlEvent::ImageRead { bytes: png_for(&path) }
                }
            }
            HtmlAction::WriteOutput { html } => {
                written = Some(html);
                HtmlEvent::OutputWritten
            }
            HtmlAction::Finish { warnings } => {
                assert_eq!(compiler.phase(), HtmlPhase::Closed);
                return Outcome { result: Ok((written.unwrap(), warnings)), progress, reads };
            }
            HtmlAction::Fail { error } => {
                assert_eq!(compiler.phase(), HtmlPhase::Closed);
                return Outcome { result: Err(error), progress, reads };
            }
        };
        let next = compiler.step(event);
        compiler = next.0;
        step = next.1;
    }
}

fn two_linked_slides() -> Project {
    project(vec![
        slide("slide-001", true, vec![link("h1", "slide-002")]),
        slide("slide-002", true, vec![]),
    ])
}

#[test]
fn two_primary_slides_one_link() {
    let out = run(two_linked_slides(), &[]);
    let (html, warnings) = out.result.unwrap();
    assert!(warnings.is_empty());
    assert_eq!(html.matches("<section class=\"main-slide\" id=\"slide-001\">").count(), 1);
    assert_eq!(html.matches("<section class=\"main-slide\" id=\"slide-002\">").count(), 1);
    assert_eq!(html.matches("<div class=\"modal-overlay\" id=\"modal-slide-002\">").count(), 1);
    assert_eq!(html.matches("<section class=\"main-slide\"").count(), 2);
    // slide-001 owns a hotspot, so it is a modal target as well
    assert_eq!(html.matches("<div class=\"modal-overlay\" id=\"modal-slide-001\">").count(), 1);
    assert_eq!(html.matches("<div class=\"modal-overlay\"").count(), 2);
    assert!(html.contains("onclick=\"openSlide('slide-002')\""));
}

#[test]
fn sections_and_modals_match_the_classification() {
    let p = project(vec![
        slide("m1", true, vec![link("h", "s1")]),
        slide("s1", false, vec![link("back", "m2")]),
        slide("m2", true, vec![]),
        slide("m3", true, vec![]),
        slide("s2", false, vec![]),
    ]);
    let out = run(p, &[]);
    let (html, _) = out.result.unwrap();
    assert_eq!(html.matches("<section class=\"main-slide\"").count(), 3);
    assert_eq!(html.matches("<div class=\"modal-overlay\"").count(), 4);
    let order: Vec<usize> = ["id=\"m1\"", "id=\"m2\"", "id=\"m3\"", "id=\"modal-s1\"", "id=\"modal-s2\"", "id=\"modal-m1\"", "id=\"modal-m2\""]
        .iter()
        .map(|marker| html.find(marker).unwrap())
        .collect();
    assert!(order.windows(2).all(|w| w[0] < w[1]));
    assert!(!html.contains("id=\"modal-m3\""));
    assert_eq!(html.matches("<button").count() - html.matches("<button class=\"back-btn\"").count(), 3);
}

#[test]
fn images_are_read_in_plan_order_and_embedded() {
    let out = run(two_linked_slides(), &[]);
    assert_eq!(
        out.reads,
        vec!["slides/slide-001.png", "slides/slide-002.png", "slides/slide-001.png", "slides/slide-002.png"]
    );
    let (html, _) = out.result.unwrap();
    // the stored bytes are embedded as they are
    let first = format!("src=\"data:image/png;base64,{}\"", base64_of(&png_for("slides/slide-001.png")));
    let second = format!("src=\"data:image/png;base64,{}\"", base64_of(&png_for("slides/slide-002.png")));
    assert_eq!(html.matches(&first).count(), 4);
    assert_eq!(first, second);
    assert_eq!(html.matches("src=\"data:image/png;base64,").count(), 4);
}

#[test]
fn each_slide_is_shown_with_its_own_image() {
    let p = project(vec![slide("a", true, vec![]), slide("long-name", false, vec![])]);
    let html = run(p, &[]).result.unwrap().0;
    let a = base64_of(&png_for("slides/a.png"));
    let b = base64_of(&png_for("slides/long-name.png"));
    assert_ne!(a, b);
    let section = html.find("<section class=\"main-slide\" id=\"a\">").unwrap();
    let modal = html.find("<div class=\"modal-overlay\" id=\"modal-long-name\">").unwrap();
    assert!(section < html.find(&a).unwrap() && html.find(&a).unwrap() < modal);
    assert!(modal < html.find(&b).unwrap());
    assert_eq!(html.matches(&a).count(), 1);
    assert_eq!(html.matches(&b).count(), 1);
}

#[test]
fn corrupt_image_aborts_with_its_path() {
    let mut broken = slide("slide-002", true, vec![]);
    broken.image_path = "slides/slide-002.txt".to_string();
    let p = project(vec![slide("slide-001", true, vec![]), broken, slide("slide-003", true, vec![])]);
    let out = run(p, &[]);
    match out.result {
        Err(CompileError::ImageDecode { path, cause }) => {
            assert_eq!(path, "slides/slide-002.txt");
            assert!(!cause.is_empty());
        }
        other => panic!("unexpected result: {:?}", other.map(|r| r.0.len())),
    }
    assert_eq!(out.progress, vec![ExportProgress { current: 1, total: 3 }]);
    assert_eq!(out.reads, vec!["slides/slide-001.png", "slides/slide-002.txt"]);
}

#[test]
fn truncated_image_aborts_the_compile() {
    let (compiler, _) = HtmlCompiler::begin(project(vec![slide("a", true, vec![])]));
    let bytes = png_for("slides/a.png");
    let (compiler, step) = compiler.step(HtmlEvent::ImageRead { bytes: bytes[..bytes.len() / 2].to_vec() });
    assert_eq!(compiler.phase(), HtmlPhase::Closed);
    assert!(step.progress.is_none());
    assert!(matches!(
        step.action,
        HtmlAction::Fail { error: CompileError::ImageDecode { .. } }
    ));
}

#[test]
fn one_progress_event_per_slide_processed() {
    let out = run(two_linked_slides(), &[]);
    let expected: Vec<ExportProgress> =
        (1..=4).map(|current| ExportProgress { current, total: 4 }).collect();
    assert_eq!(out.progress, expected);
}

#[test]
fn title_ratio_and_labels_are_placed() {
    let out = run(two_linked_slides(), &[]);
    let (html, _) = out.result.unwrap();
    assert!(html.contains("<title>talk</title>"));
    assert!(html.contains("aspect-ratio:16/9;"));
    assert!(html.contains("alt=\"Label of slide-001\""));
}

#[test]
fn empty_project_writes_an_empty_document() {
    let out = run(project(vec![]), &[]);
    let (html, warnings) = out.result.unwrap();
    assert!(warnings.is_empty());
    assert!(out.progress.is_empty());
    assert!(out.reads.is_empty());
    assert!(html.contains("<main id=\"slides\">\n</main>"));
    assert_eq!(html.matches("<section").count(), 0);
    assert_eq!(html.matches("<div class=\"modal-overlay\"").count(), 0);
}

#[test]
fn dangling_target_compiles_with_a_warning() {
    let p = project(vec![
        slide("slide-001", true, vec![link("h1", "slide-999")]),
        slide("slide-002", true, vec![]),
    ]);
    let out = run(p, &[]);
    let (html, warnings) = out.result.unwrap();
    assert_eq!(warnings.len(), 1);
    assert_eq!(warnings[0].target_id, "slide-999");
    assert_eq!(warnings[0].slide_id, "slide-001");
    assert_eq!(warnings[0].hotspot_id, "h1");
    assert!(html.contains("onclick=\"void(0)\""));
    assert!(!html.contains("openSlide('slide-999')"));
}

#[test]
fn unreadable_image_aborts_with_its_path() {
    let out = run(two_linked_slides(), &["slides/slide-002.png"]);
    match out.result {
        Err(CompileError::ImageRead { path, cause }) => {
            assert_eq!(path, "slides/slide-002.png");
            assert_eq!(cause, "not found");
        }
        other => panic!("unexpected result: {:?}", other.map(|r| r.0.len())),
    }
    assert_eq!(out.progress, vec![ExportProgress { current: 1, total: 4 }]);
    assert_eq!(out.reads.len(), 2);
}

#[test]
fn write_failure_is_surfaced() {
    let (compiler, step) = HtmlCompiler::begin(project(vec![]));
    assert!(matches!(step.action, HtmlAction::WriteOutput { .. }));
    assert_eq!(compiler.phase(), HtmlPhase::Writing);
    let (compiler, step) = compiler.step(HtmlEvent::OutputFailed { cause: "disk full".to_string() });
    assert_eq!(compiler.phase(), HtmlPhase::Closed);
    match step.action {
        HtmlAction::Fail { error: CompileError::OutputWrite { cause } } => assert_eq!(cause, "disk full"),
        other => panic!("unexpected action: {:?}", other),
    }
}

#[test]
fn events_that_were_not_asked_for_end_the_compile() {
    let (compiler, _) = HtmlCompiler::begin(two_linked_slides());
    assert_eq!(compiler.phase(), HtmlPhase::Loading);
    let (compiler, step) = compiler.step(HtmlEvent::OutputWritten);
    assert_eq!(compiler.phase(), HtmlPhase::Closed);
    assert!(step.progress.is_none());
    match step.action {
        HtmlAction::Fail { error: CompileError::DocumentAssembly { cause } } => {
            assert_eq!(cause, "unexpected event for the current step")
        }
        other => panic!("unexpected action: {:?}", other),
    }
    // a closed compile stays closed
    let (compiler, step) = compiler.step(HtmlEvent::ImageRead { bytes: vec![1, 2, 3] });
    assert_eq!(compiler.phase(), HtmlPhase::Closed);
    assert!(matches!(step.action, HtmlAction::Fail { .. }));

    let (compiler, _) = HtmlCompiler::begin(project(vec![]));
    let (_, step) = compiler.step(HtmlEvent::ImageRead { bytes: vec![] });
    assert!(matches!(step.action, HtmlAction::Fail { error: CompileError::DocumentAssembly { .. } }));
}

#[test]
fn compiling_twice_gives_identical_documents() {
    let build = || {
        let mut p = two_linked_slides();
        p.enable_analytics = Some(true);
        p.slides[0].text_overlays.push(TextOverlay {
            id: "t".to_string(),
            x: dec("1"),
            y: dec("2"),
            w: dec("3"),
            h: dec("4"),
            text: "note".to_string(),
            font_size: dec("12"),
            font_weight: "normal".to_string(),
            color: "#fff".to_string(),
            background_color: "#000".to_string(),
            text_align: "left".to_string(),
            border_radius: dec("0"),
        });
        p
    };
    let a = run(build(), &[]).result.unwrap().0;
    let b = run(build(), &[]).result.unwrap().0;
    assert_eq!(a, b);
    assert!(a.contains("sl_analytics"));
}

#[test]
fn analytics_are_off_unless_enabled() {
    for flag in [None, Some(false)] {
        let mut p = two_linked_slides();
        p.enable_analytics = flag;
        let html = run(p, &[]).result.unwrap().0;
        assert!(!html.contains("sl_analytics"));
    }
}

#[test]
fn script_in_labels_and_texts_comes_out_escaped() {
    let attack = "<script>alert(1)</script>";
    let mut s = slide("slide-001", true, vec![link("h1", "slide-001")]);
    s.label = attack.to_string();
    s.hotspots[0].tooltip = Some(attack.to_string());
    s.text_overlays.push(TextOverlay {
        id: "t".to_string(),
        x: dec("1"),
        y: dec("2"),
        w: dec("3"),
        h: dec("4"),
        text: attack.to_string(),
        font_size: dec("12"),
        font_weight: "normal".to_string(),
        color: "#fff".to_string(),
        background_color: "#000".to_string(),
        text_align: "left".to_string(),
        border_radius: dec("0"),
    });
    let clean = run(project(vec![slide("slide-001", true, vec![link("h1", "slide-001")])]), &[])
        .result
        .unwrap()
        .0;
    let html = run(project(vec![s]), &[]).result.unwrap().0;
    // main section and modal: label, tooltip and overlay text each
    assert_eq!(html.matches("&lt;script&gt;alert(1)&lt;/script&gt;").count(), 6);
    assert!(!html.contains(attack));
    assert_eq!(html.matches("<script>").count(), clean.matches("<script>").count());
}

#[test]
fn project_is_kept_as_given() {
    let (compiler, _) = HtmlCompiler::begin(two_linked_slides());
    assert_eq!(compiler.project().slides.len(), 2);
    assert_eq!(compiler.project().source_file, "decks/talk.pdf");
}

#[test]
fn marks_count_sections_whatever_the_texts_hold() {
    let hostile = "<section class=\"main-slide\" id=\"x\"><div class=\"modal-overlay\"><script>";
    let mut a = slide("a<b", true, vec![link("h1", "s")]);
    a.label = hostile.to_string();
    a.hotspots[0].tooltip = Some(hostile.to_string());
    a.hotspots[0].id = hostile.to_string();
    let mut s = slide("s", false, vec![]);
    s.label = hostile.to_string();
    let mut p = project(vec![a, s, slide("c", true, vec![])]);
    p.source_file = format!("{}.pdf", hostile);
    p.aspect_ratio = hostile.to_string();
    p.enable_analytics = Some(true);
    let html = run(p, &[]).result.unwrap().0;
    assert_eq!(html.matches("<section class=\"main-slide\"").count(), 2);
    assert_eq!(html.matches("<div class=\"modal-overlay\"").count(), 2);
    assert_eq!(html.matches("<script").count(), 2);
}
