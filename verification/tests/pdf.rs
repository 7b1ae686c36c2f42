use slide_linker::pdf::{fill_scale, page_preset, PagePreset, Ratio};

#[test]
fn four_to_three_selects_the_standard_page() {
    assert_eq!(page_preset("4:3"), PagePreset::Standard);
}

#[test]
fn any_other_ratio_selects_the_widescreen_page() {
    for ratio in ["16:9", "16:10", "", "4:3 ", " 4:3", "4/3", "3:4", "4:30", "wide"] {
        assert_eq!(page_preset(ratio), PagePreset::Widescreen, "{:?}", ratio);
    }
}

#[test]
fn presets_have_their_sizes() {
    // 297 mm by 222.75 mm, and 340 mm by 191.25 mm, in hundredths
    assert_eq!(PagePreset::Standard.width(), 29700);
    assert_eq!(PagePreset::Standard.height(), 22275);
    assert_eq!(PagePreset::Widescreen.width(), 34000);
    assert_eq!(PagePreset::Widescreen.height(), 19125);
}

#[test]
fn presets_have_the_ratio_they_are_named_for() {
    assert_eq!(PagePreset::Standard.width() * 3, PagePreset::Standard.height() * 4);
    assert_eq!(PagePreset::Widescreen.width() * 9, PagePreset::Widescreen.height() * 16);
}

#[test]
fn fill_scale_is_extent_times_dpi_over_pixels() {
    assert_eq!(
        fill_scale(34000, 1920),
        Some(Ratio { numerator: 34000 * 300, denominator: 2540 * 1920 })
    );
    assert_eq!(
        fill_scale(22275, 1),
        Some(Ratio { numerator: 6682500, denominator: 2540 })
    );
    assert_eq!(
        fill_scale(u32::MAX, u32::MAX),
        Some(Ratio { numerator: 4294967295 * 300, denominator: 2540 * 4294967295 })
    );
}

#[test]
fn fill_scale_stretches_the_natural_size_to_the_extent() {
    // an image of 1920 pixels spans 1920 / 300 inches, that is 1920 * 25.4 / 300 mm
    let r = fill_scale(34000, 1920).unwrap();
    let natural_mm = 1920.0 * 25.4 / 300.0;
    let scaled = natural_mm * (r.numerator as f64) / (r.denominator as f64);
    assert!((scaled - 340.0).abs() < 1e-9);
}

#[test]
fn no_scale_for_an_image_without_pixels() {
    assert_eq!(fill_scale(34000, 0), None);
}
