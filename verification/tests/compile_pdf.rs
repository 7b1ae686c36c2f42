
use slide_linker::compile_pdf::{PagePlacement, PdfAction, PdfCompiler, PdfEvent, PdfPhase, PdfStep};
use slide_linker::error::CompileError;
use slide_linker::model::{ExportProgress, Hotspot, Project, Slide};
use slide_linker::number::Decimal;
use slide_linker::pdf::{PagePreset, Ratio};
use slide_linker::validate::ValidationWarning;

fn slide(id: &str, is_main: bool) -> Slide {
    Slide {
        id: id.to_string(),
        index: 0,
        label: id.to_string(),
        is_main,
        image_path: format!("slides/{}.png", id),
        hotspots: Vec::new(),
        text_overlays: Vec::new(),
    }
}

fn project(slides: Vec<Slide>, aspect_ratio: &str) -> Project {
    Project {
        version: "1".to_string(),
        created_at: String::new(),
        updated_at: String::new(),
        source_file: "talk.pdf".to_string(),
        aspect_ratio: aspect_ratio.to_string(),
        slides,
        enable_analytics: None,
    }
}

fn png_bytes(width: u32, height: u32) -> Vec<u8> {
    let img = image::RgbImage::from_pixel(width, height, image::Rgb([200, 100, 50]));
    let mut out = std::io::Cursor::new(Vec::new());
    img.write_to(&mut out, image::ImageFormat::Png).unwrap();
    out.into_inner()
}

struct Outcome {
    result: Result<(Vec<u8>, Vec<ValidationWarning>), CompileError>,
    progress: Vec<ExportProgress>,
    reads: Vec<String>,
    created: Vec<(String, PagePreset)>,
    pages: Vec<PagePlacement>,
}

/// Drives a compile to its end. The image of the `k`-th slide read is
/// `k + 1` pixels wide and two pixels high; the serialized document is one
/// byte per page.
fn run(project: Project, missing: &[&str], corrupt: &[&str]) -> Outcome {
    let (mut compiler, mut step) = PdfCompiler::begin(project);
    let mut out = Outcome {
        result: Err(CompileError::DocumentAssembly { cause: "not finished".to_string() }),
        progress: Vec::new(),
        reads: Vec::new(),
        created: Vec::new(),
        pages: Vec::new(),
    };
    let mut written: Option<Vec<u8>> = None;
    loop {
        let PdfStep { progress, action } = step;
        if let Some(p) = progress {
            out.progress.push(p);
        }
        let event = match action {
            PdfAction::ReadImage { path } => {
                out.reads.push(path.clone());
                if missing.contains(&path.as_str()) {
                    PdfEvent::ImageUnreadable { cause: "not found".to_string() }
                } else if corrupt.contains(&path.as_str()) {
                    PdfEvent::ImageRead { bytes: b"garbage".to_vec() }
                } else {
                    PdfEvent::ImageRead { bytes: png_bytes(out.reads.len() as u32, 2) }
                }
            }
            PdfAction::CreateDocument { title, preset } => {
                out.created.push((title, preset));
                PdfEvent::DocumentCreated
            }
            PdfAction::PlacePage { page } => {
                out.pages.push(page);
                PdfEvent::PagePlaced
            }
            PdfAction::Serialize => PdfEvent::Serialized { bytes: vec![7u8; out.pages.len()] },
            PdfAction::WriteOutput { bytes } => {
                written = Some(bytes);
                PdfEvent::OutputWritten
            }
            PdfAction::Finish { warnings } => {
                assert_eq!(compiler.phase(), PdfPhase::Closed);
                out.result = Ok((written.unwrap(), warnings));
                return out;
            }
            PdfAction::Fail { error } => {
                assert_eq!(compiler.phase(), PdfPhase::Closed);
                out.result = Err(error);
                return out;
            }
        };
        let next = compiler.step(event);
        compiler = next.0;
        step = next.1;
    }
}

fn mixed() -> Vec<Slide> {
    vec![slide("s0", false), slide("m1", true), slide("s2", false), slide("m3", true), slide("m4", true)]
}

#[test]
fn one_page_per_slide_primary_first() {
    let out = run(project(mixed(), "16:9"), &[], &[]);
    assert_eq!(
        out.reads,
        vec!["slides/m1.png", "slides/m3.png", "slides/m4.png", "slides/s0.png", "slides/s2.png"]
    );
    assert_eq!(out.pages.len(), 5);
    // the k-th page shows the k-th image read
    for (k, page) in out.pages.iter().enumerate() {
        assert_eq!(page.number, k + 1);
        assert_eq!(page.image.width, (k + 1) as u32);
        assert_eq!(page.image.height, 2);
        assert_eq!(page.image.rgb_pixels.len(), (k + 1) * 2 * 3);
        assert_eq!(&page.image.rgb_pixels[0..3], &[200, 100, 50]);
    }
    let (bytes, warnings) = out.result.unwrap();
    assert_eq!(bytes, vec![7u8; 5]);
    assert!(warnings.is_empty());
}

#[test]
fn two_primary_slides_give_two_pages() {
    let out = run(project(vec![slide("slide-001", true), slide("slide-002", true)], "16:9"), &[], &[]);
    assert_eq!(out.pages.len(), 2);
    assert_eq!(out.reads, vec!["slides/slide-001.png", "slides/slide-002.png"]);
}

#[test]
fn progress_counts_both_phases() {
    let out = run(project(mixed(), "16:9"), &[], &[]);
    let expected: Vec<ExportProgress> =
        (1..=10).map(|current| ExportProgress { current, total: 10 }).collect();
    assert_eq!(out.progress, expected);
}

#[test]
fn document_is_created_once_after_all_images_are_in() {
    let out = run(project(mixed(), "16:9"), &[], &[]);
    assert_eq!(out.created, vec![("talk.pdf".to_string(), PagePreset::Widescreen)]);
}

#[test]
fn aspect_ratio_selects_the_page() {
    let out = run(project(mixed(), "4:3"), &[], &[]);
    assert_eq!(out.created[0].1, PagePreset::Standard);
    assert!(out.pages.iter().all(|p| p.preset == PagePreset::Standard));
    for ratio in ["16:9", "", "3:2"] {
        let out = run(project(mixed(), ratio), &[], &[]);
        assert_eq!(out.created[0].1, PagePreset::Widescreen);
        assert!(out.pages.iter().all(|p| p.preset == PagePreset::Widescreen));
    }
}

#[test]
fn each_image_is_scaled_to_fill_its_page() {
    let out = run(project(mixed(), "4:3"), &[], &[]);
    for page in &out.pages {
        assert_eq!(
            page.scale_x,
            Ratio { numerator: 29700 * 300, denominator: 2540 * page.image.width as u64 }
        );
        assert_eq!(page.scale_y, Ratio { numerator: 22275 * 300, denominator: 2540 * 2 });
        assert_eq!((page.offset_x, page.offset_y), (0, 0));
    }
}

#[test]
fn empty_project_gives_a_document_without_pages() {
    let out = run(project(vec![], "16:9"), &[], &[]);
    assert!(out.reads.is_empty());
    assert!(out.pages.is_empty());
    assert!(out.progress.is_empty());
    assert_eq!(out.created.len(), 1);
    assert_eq!(out.result.unwrap().0, Vec::<u8>::new());
}

#[test]
fn unreadable_image_aborts_before_assembly() {
    let out = run(project(mixed(), "16:9"), &["slides/m4.png"], &[]);
    match out.result {
        Err(CompileError::ImageRead { path, cause }) => {
            assert_eq!(path, "slides/m4.png");
            assert_eq!(cause, "not found");
        }
        other => panic!("unexpected result: {:?}", other.map(|r| r.0)),
    }
    assert!(out.created.is_empty());
    assert!(out.pages.is_empty());
    assert_eq!(out.progress.len(), 2);
}

#[test]
fn corrupt_image_aborts_before_assembly() {
    let out = run(project(mixed(), "16:9"), &[], &["slides/m1.png"]);
    match out.result {
        Err(CompileError::ImageDecode { path, cause }) => {
            assert_eq!(path, "slides/m1.png");
            assert!(!cause.is_empty());
        }
        other => panic!("unexpected result: {:?}", other.map(|r| r.0)),
    }
    assert!(out.created.is_empty());
    assert!(out.progress.is_empty());
}

#[test]
fn truncated_image_is_refused() {
    let (compiler, step) = PdfCompiler::begin(project(vec![slide("a", true)], "16:9"));
    assert!(matches!(step.action, PdfAction::ReadImage { .. }));
    let bytes = png_bytes(4, 4);
    let (compiler, step) = compiler.step(PdfEvent::ImageRead { bytes: bytes[..bytes.len() / 2].to_vec() });
    assert_eq!(compiler.phase(), PdfPhase::Closed);
    assert!(step.progress.is_none());
    match step.action {
        PdfAction::Fail { error: CompileError::ImageDecode { path, cause } } => {
            assert_eq!(path, "slides/a.png");
            assert!(!cause.is_empty());
        }
        other => panic!("unexpected action: {:?}", other),
    }
}

#[test]
fn same_image_bytes_give_the_same_page() {
    let bytes = png_bytes(3, 2);
    let mut pages = Vec::new();
    for _ in 0..2 {
        let (compiler, _) = PdfCompiler::begin(project(vec![slide("a", true)], "16:9"));
        let (compiler, _) = compiler.step(PdfEvent::ImageRead { bytes: bytes.clone() });
        let (_, step) = compiler.step(PdfEvent::DocumentCreated);
        match step.action {
            PdfAction::PlacePage { page } => pages.push(page),
            other => panic!("unexpected action: {:?}", other),
        }
    }
    assert_eq!(pages[0].image.width, 3);
    assert_eq!(pages[0].image.height, 2);
    assert_eq!(pages[0].image.rgb_pixels, pages[1].image.rgb_pixels);
    assert_eq!(pages[0].image.rgb_pixels.len(), 18);
}

#[test]
fn assembly_failure_is_terminal() {
    let (compiler, _) = PdfCompiler::begin(project(vec![], "16:9"));
    assert_eq!(compiler.phase(), PdfPhase::Creating);
    let (compiler, step) = compiler.step(PdfEvent::DocumentCreated);
    assert_eq!(compiler.phase(), PdfPhase::Serializing);
    assert!(matches!(step.action, PdfAction::Serialize));
    let (compiler, step) = compiler.step(PdfEvent::AssemblyFailed { cause: "bad object".to_string() });
    assert_eq!(compiler.phase(), PdfPhase::Closed);
    match step.action {
        PdfAction::Fail { error: CompileError::DocumentAssembly { cause } } => assert_eq!(cause, "bad object"),
        other => panic!("unexpected action: {:?}", other),
    }
}

#[test]
fn pdf_write_failure_is_surfaced() {
    let (compiler, _) = PdfCompiler::begin(project(vec![], "16:9"));
    let (compiler, _) = compiler.step(PdfEvent::DocumentCreated);
    let (compiler, step) = compiler.step(PdfEvent::Serialized { bytes: vec![1, 2, 3] });
    assert_eq!(compiler.phase(), PdfPhase::Writing);
    match step.action {
        PdfAction::WriteOutput { bytes } => assert_eq!(bytes, vec![1, 2, 3]),
        other => panic!("unexpected action: {:?}", other),
    }
    let (_, step) = compiler.step(PdfEvent::OutputFailed { cause: "disk full".to_string() });
    match step.action {
        PdfAction::Fail { error: CompileError::OutputWrite { cause } } => assert_eq!(cause, "disk full"),
        other => panic!("unexpected action: {:?}", other),
    }
}

#[test]
fn pdf_events_that_were_not_asked_for_end_the_compile() {
    let (compiler, _) = PdfCompiler::begin(project(mixed(), "16:9"));
    let (compiler, step) = compiler.step(PdfEvent::PagePlaced);
    assert_eq!(compiler.phase(), PdfPhase::Closed);
    match step.action {
        PdfAction::Fail { error: CompileError::DocumentAssembly { cause } } => {
            assert_eq!(cause, "unexpected event for the current step")
        }
        other => panic!("unexpected action: {:?}", other),
    }
    let (_, step) = compiler.step(PdfEvent::DocumentCreated);
    assert!(matches!(step.action, PdfAction::Fail { .. }));
}

#[test]
fn dangling_target_is_reported_with_the_result() {
    let mut s = slide("slide-001", true);
    s.hotspots.push(Hotspot {
        id: "h1".to_string(),
        x: Decimal::parse("1").unwrap(),
        y: Decimal::parse("1").unwrap(),
        w: Decimal::parse("1").unwrap(),
        h: Decimal::parse("1").unwrap(),
        link_type: "slide".to_string(),
        target_id: Some("slide-999".to_string()),
        url: None,
        tooltip: None,
        style: None,
    });
    let out = run(project(vec![s], "16:9"), &[], &[]);
    let (_, warnings) = out.result.unwrap();
    assert_eq!(warnings.len(), 1);
    assert_eq!(warnings[0].target_id, "slide-999");
}

#[test]
fn pdf_compiling_twice_gives_the_same_plan() {
    let a = run(project(mixed(), "4:3"), &[], &[]);
    let b = run(project(mixed(), "4:3"), &[], &[]);
    assert_eq!(a.reads, b.reads);
    assert_eq!(a.progress, b.progress);
    assert_eq!(a.pages.len(), b.pages.len());
    for (x, y) in a.pages.iter().zip(b.pages.iter()) {
        assert_eq!(x.number, y.number);
        assert_eq!(x.image.rgb_pixels, y.image.rgb_pixels);
        assert_eq!(x.scale_x, y.scale_x);
        assert_eq!(x.scale_y, y.scale_y);
    }
}
