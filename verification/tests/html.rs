use slide_linker::html::{render_hotspots, render_main_slide, render_sub_slide, render_text_overlays};
use slide_linker::model::{Hotspot, HotspotStyle, Slide, TextOverlay};
use slide_linker::number::Decimal;

fn dec(s: &str) -> Decimal {
    Decimal::parse(s).unwrap()
}

fn hotspot(id: &str, link_type: &str, target: Option<&str>, url: Option<&str>) -> Hotspot {
    Hotspot {
        id: id.to_string(),
        x: dec("10"),
        y: dec("20.5"),
        w: dec("30"),
        h: dec("5"),
        link_type: link_type.to_string(),
        target_id: target.map(|t| t.to_string()),
        url: url.map(|u| u.to_string()),
        tooltip: None,
        style: None,
    }
}

fn slide(id: &str, label: &str, hotspots: Vec<Hotspot>, text_overlays: Vec<TextOverlay>) -> Slide {
    Slide {
        id: id.to_string(),
        index: 0,
        label: label.to_string(),
        is_main: true,
        image_path: format!("slides/{}.png", id),
        hotspots,
        text_overlays,
    }
}

fn overlay(text: &str) -> TextOverlay {
    TextOverlay {
        id: "t1".to_string(),
        x: dec("1"),
        y: dec("2"),
        w: dec("3"),
        h: dec("4"),
        text: text.to_string(),
        font_size: dec("16"),
        font_weight: "bold".to_string(),
        color: "#ffffff".to_string(),
        background_color: "rgba(0,0,0,0.5)".to_string(),
        text_align: "center".to_string(),
        border_radius: dec("4.5"),
    }
}

fn two_slides() -> Vec<Slide> {
    vec![slide("slide-001", "One", vec![], vec![]), slide("slide-002", "Two", vec![], vec![])]
}

#[test]
fn no_hotspots_render_as_nothing() {
    assert_eq!(render_hotspots(&vec![], &two_slides()), "");
}

#[test]
fn url_hotspot_without_style_opens_the_literal_url() {
    let h = hotspot("h1", "url", None, Some("https://example.com/a?b=1"));
    assert_eq!(
        render_hotspots(&vec![h], &two_slides()),
        "      <div class=\"hotspot\" data-type=\"url\" style=\"left:10%;top:20.5%;width:30%;height:5%;\" onclick=\"openUrl('https://example.com/a?b=1')\"></div>"
    );
}

#[test]
fn slide_hotspot_addresses_the_modal_of_its_target() {
    let h = hotspot("h1", "slide", Some("slide-002"), None);
    assert_eq!(
        render_hotspots(&vec![h], &two_slides()),
        "      <div class=\"hotspot\" style=\"left:10%;top:20.5%;width:30%;height:5%;\" onclick=\"openSlide('slide-002')\"></div>"
    );
}

#[test]
fn dangling_hotspot_is_inert() {
    let h = hotspot("h1", "slide", Some("slide-999"), None);
    let out = render_hotspots(&vec![h], &two_slides());
    assert_eq!(
        out,
        "      <div class=\"hotspot\" style=\"left:10%;top:20.5%;width:30%;height:5%;\" onclick=\"void(0)\"></div>"
    );
    assert!(!out.contains("slide-999"));
}

#[test]
fn slide_hotspot_without_target_asks_for_the_empty_id() {
    let h = hotspot("h1", "slide", None, None);
    assert!(render_hotspots(&vec![h], &two_slides()).contains("onclick=\"openSlide('')\""));
}

#[test]
fn url_hotspot_without_url_opens_a_hash() {
    let h = hotspot("h1", "url", None, None);
    assert!(render_hotspots(&vec![h], &two_slides()).contains("onclick=\"openUrl('#')\""));
}

#[test]
fn unknown_link_type_is_a_slide_link() {
    let h = hotspot("h1", "other", Some("slide-001"), Some("https://example.com"));
    let out = render_hotspots(&vec![h], &two_slides());
    assert!(out.contains("onclick=\"openSlide('slide-001')\""));
    assert!(!out.contains("data-type"));
}

#[test]
fn tooltip_url_and_target_are_escaped() {
    let mut h = hotspot("h1", "url", None, Some("https://example.com/?a=1&b='x'"));
    h.tooltip = Some("<script>alert(1)</script>".to_string());
    let out = render_hotspots(&vec![h], &two_slides());
    assert!(out.contains(" title=\"&lt;script&gt;alert(1)&lt;/script&gt;\""));
    assert!(out.contains("openUrl('https://example.com/?a=1&amp;b=&#39;x&#39;')"));
    assert!(!out.contains("<script>"));
}

#[test]
fn styled_hotspot_inlines_its_look() {
    let mut h = hotspot("h1", "slide", Some("slide-002"), None);
    h.style = Some(HotspotStyle {
        color: "#ff8000".to_string(),
        opacity: dec("0.3"),
        border_radius: dec("12"),
        icon: Some("★".to_string()),
    });
    assert_eq!(
        render_hotspots(&vec![h], &two_slides()),
        "      <div class=\"hotspot\" style=\"left:10%;top:20.5%;width:30%;height:5%;border-color:#ff8000;background:rgba(255,128,0,0.3);border-radius:12%;\" onclick=\"openSlide('slide-002')\"><span class=\"hotspot-icon\">★</span></div>"
    );
}

#[test]
fn empty_icon_and_missing_icon_render_no_icon() {
    for icon in [None, Some(String::new())] {
        let mut h = hotspot("h1", "slide", Some("slide-002"), None);
        h.style = Some(HotspotStyle {
            color: "#000000".to_string(),
            opacity: dec("1"),
            border_radius: dec("0"),
            icon,
        });
        let out = render_hotspots(&vec![h], &two_slides());
        assert!(!out.contains("hotspot-icon"));
        assert!(out.ends_with("\"></div>"));
    }
}

#[test]
fn icon_is_escaped() {
    let mut h = hotspot("h1", "slide", Some("slide-002"), None);
    h.style = Some(HotspotStyle {
        color: "#000000".to_string(),
        opacity: dec("1"),
        border_radius: dec("0"),
        icon: Some("<b>".to_string()),
    });
    assert!(render_hotspots(&vec![h], &two_slides())
        .contains("<span class=\"hotspot-icon\">&lt;b&gt;</span>"));
}

#[test]
fn hotspots_are_joined_by_newlines() {
    let hs = vec![
        hotspot("h1", "slide", Some("slide-001"), None),
        hotspot("h2", "slide", Some("slide-002"), None),
        hotspot("h3", "url", None, Some("x")),
    ];
    let out = render_hotspots(&hs, &two_slides());
    let lines: Vec<&str> = out.split('\n').collect();
    assert_eq!(lines.len(), 3);
    assert!(lines[0].contains("openSlide('slide-001')"));
    assert!(lines[1].contains("openSlide('slide-002')"));
    assert!(lines[2].contains("openUrl('x')"));
    assert!(!out.ends_with('\n'));
}

#[test]
fn text_overlay_renders_its_style_and_text() {
    assert_eq!(
        render_text_overlays(&vec![overlay("Hello")]),
        "      <div class=\"text-overlay\" style=\"left:1%;top:2%;width:3%;height:4%;font-size:16px;font-weight:bold;color:#ffffff;background:rgba(0,0,0,0.5);text-align:center;border-radius:4.5px;\">Hello</div>"
    );
}

#[test]
fn text_overlay_text_is_escaped() {
    let out = render_text_overlays(&vec![overlay("<script>alert(1)</script>")]);
    assert!(out.ends_with(">&lt;script&gt;alert(1)&lt;/script&gt;</div>"));
    assert!(!out.contains("<script>"));
}

#[test]
fn text_overlay_style_values_are_escaped() {
    let mut o = overlay("x");
    o.font_weight = "\"><i>".to_string();
    o.color = "a'b".to_string();
    let out = render_text_overlays(&vec![o]);
    assert!(out.contains("font-weight:&quot;&gt;&lt;i&gt;;"));
    assert!(out.contains("color:a&#39;b;"));
}

#[test]
fn text_overlays_are_joined_by_newlines() {
    assert_eq!(render_text_overlays(&vec![]), "");
    let out = render_text_overlays(&vec![overlay("a"), overlay("b")]);
    assert_eq!(out.split('\n').count(), 2);
}

#[test]
fn main_slide_is_a_section_with_the_id_of_the_slide() {
    let slides = two_slides();
    let s = slide(
        "slide-001",
        "First <slide>",
        vec![hotspot("h1", "slide", Some("slide-002"), None)],
        vec![overlay("note")],
    );
    let out = render_main_slide(&s, &slides, "QUJD", "16/9");
    let expected = "  <section class=\"main-slide\" id=\"slide-001\">\n    <div class=\"slide-container\" style=\"position:relative;width:100%;aspect-ratio:16/9;\">\n      <img src=\"data:image/png;base64,QUJD\" alt=\"First &lt;slide&gt;\" />\n      <div class=\"hotspot-layer\">      <div class=\"hotspot\" style=\"left:10%;top:20.5%;width:30%;height:5%;\" onclick=\"openSlide('slide-002')\"></div></div>\n            <div class=\"text-overlay\" style=\"left:1%;top:2%;width:3%;height:4%;font-size:16px;font-weight:bold;color:#ffffff;background:rgba(0,0,0,0.5);text-align:center;border-radius:4.5px;\">note</div>\n    </div>\n  </section>\n";
    assert_eq!(out, expected);
}

#[test]
fn sub_slide_is_a_modal_with_a_back_control() {
    let slides = two_slides();
    let s = slide("slide-002", "Two", vec![], vec![]);
    let out = render_sub_slide(&s, &slides, "QUJD", "4/3");
    let expected = "  <div class=\"modal-overlay\" id=\"modal-slide-002\">\n    <button class=\"back-btn\" onclick=\"event.stopPropagation();goBack()\">&#8592; 戻る</button>\n    <div class=\"modal-content\" onclick=\"event.stopPropagation()\" style=\"position:relative;aspect-ratio:4/3;\">\n      <img src=\"data:image/png;base64,QUJD\" alt=\"Two\" />\n      <div class=\"hotspot-layer\"></div>\n      \n    </div>\n  </div>\n";
    assert_eq!(out, expected);
}

#[test]
fn slide_id_and_label_are_escaped() {
    let slides = two_slides();
    let s = slide("a\"b", "<script>alert(1)</script>", vec![], vec![]);
    let main = render_main_slide(&s, &slides, "", "16/9");
    assert!(main.starts_with("  <section class=\"main-slide\" id=\"a&quot;b\">"));
    assert!(main.contains("alt=\"&lt;script&gt;alert(1)&lt;/script&gt;\""));
    assert!(!main.contains("<script>"));
    let modal = render_sub_slide(&s, &slides, "", "16/9");
    assert!(modal.starts_with("  <div class=\"modal-overlay\" id=\"modal-a&quot;b\">"));
    assert!(!modal.contains("<script>"));
}
