use slide_linker::ingest::{
    image_file_name, is_office_document, is_slide_image, progress_finished, progress_office,
    progress_page, progress_started, slide_info,
};

#[test]
fn first_slide_is_number_one() {
    let info = slide_info(0);
    assert_eq!(info.id, "slide-001");
    assert_eq!(info.index, 0);
    assert_eq!(info.label, "Slide 1");
    assert_eq!(info.image_path, "slides/slide-001.png");
    assert_eq!(image_file_name(0), "slide-001.png");
}

#[test]
fn numbers_are_three_digits_wide_at_least() {
    assert_eq!(slide_info(8).id, "slide-009");
    assert_eq!(slide_info(9).id, "slide-010");
    assert_eq!(slide_info(98).id, "slide-099");
    assert_eq!(slide_info(99).id, "slide-100");
    assert_eq!(slide_info(999).id, "slide-1000");
    assert_eq!(slide_info(999).label, "Slide 1000");
    assert_eq!(slide_info(999).image_path, "slides/slide-1000.png");
    assert_eq!(slide_info(41).index, 41);
}

#[test]
fn names_match_the_usual_formatting() {
    for index in [0usize, 5, 10, 99, 100, 123, 4095] {
        let info = slide_info(index);
        assert_eq!(info.id, format!("slide-{:03}", index + 1));
        assert_eq!(info.label, format!("Slide {}", index + 1));
        assert_eq!(info.image_path, format!("slides/slide-{:03}.png", index + 1));
    }
}

#[test]
fn presentations_are_told_by_their_ending() {
    for path in ["deck.pptx", "deck.ppt", "DECK.PPTX", "Deck.Ppt", "a/b/c.pPtX", ".pptx", ".ppt", "x.pdf.ppt"] {
        assert!(is_office_document(path), "{}", path);
    }
    for path in ["deck.pdf", "deck.pptx.pdf", "pptx", "ppt", "deck.ppt ", "deck.pptm", "", "deck.ｐｐｔ", "deck_pptx"] {
        assert!(!is_office_document(path), "{}", path);
    }
}

#[test]
fn office_check_agrees_with_lowercasing() {
    for path in ["A.PPTX", "a.PpT", "İ.pptx", "ΣΑΣ.PPT", "deck.PPTΧ", "K.ppt", "x.PDF", "STRASSE.ẞ"] {
        let lower = path.to_lowercase();
        let expected = lower.ends_with(".pptx") || lower.ends_with(".ppt");
        assert_eq!(is_office_document(path), expected, "{}", path);
    }
}

#[test]
fn slide_images_end_in_png() {
    for name in ["slide-001.png", "a.png", "..png", "x.tar.png", "戻る.png"] {
        assert!(is_slide_image(name), "{}", name);
    }
    for name in [".png", "png", "", "a.PNG", "a.png ", "a.jpg", "a.png.bak", "apng"] {
        assert!(!is_slide_image(name), "{}", name);
    }
}

#[test]
fn slide_image_check_agrees_with_the_extension() {
    for name in ["slide-001.png", ".png", "..png", "a.PNG", "a.b.png", "png", "a.png.", "a..png"] {
        let expected = std::path::Path::new(name).extension().and_then(|e| e.to_str()) == Some("png");
        assert_eq!(is_slide_image(name), expected, "{}", name);
    }
}

#[test]
fn progress_messages() {
    let p = progress_office();
    assert_eq!((p.current, p.total), (0, 0));
    assert_eq!(p.message, "PPTX を PDF に変換中 (LibreOffice)...");
    let p = progress_started(12);
    assert_eq!((p.current, p.total), (0, 12));
    assert_eq!(p.message, "スライド画像に変換中...");
    let p = progress_page(3, 12);
    assert_eq!((p.current, p.total), (3, 12));
    assert_eq!(p.message, "変換中... (3/12)");
    let p = progress_finished(12);
    assert_eq!((p.current, p.total), (12, 12));
    assert_eq!(p.message, "変換完了");
}
