use slide_linker::document::{
    aspect_ratio_css, document_title, render_document, render_dot_nav, title_from_stem,
    ANALYTICS_SCRIPT, DEFAULT_TITLE,
};

#[test]
fn colon_becomes_slash() {
    assert_eq!(aspect_ratio_css("16:9"), "16/9");
    assert_eq!(aspect_ratio_css("4:3"), "4/3");
    assert_eq!(aspect_ratio_css("1:2:3"), "1/2/3");
    assert_eq!(aspect_ratio_css("wide"), "wide");
    assert_eq!(aspect_ratio_css(""), "");
}

#[test]
fn dot_nav_has_one_control_per_primary_slide() {
    assert_eq!(render_dot_nav(0), "");
    assert_eq!(render_dot_nav(1), "<button class=\"active\"></button>");
    assert_eq!(
        render_dot_nav(3),
        "<button class=\"active\"></button>\n    <button></button>\n    <button></button>"
    );
    assert_eq!(render_dot_nav(7).matches("<button").count(), 7);
    assert_eq!(render_dot_nav(7).matches("class=\"active\"").count(), 1);
}

#[test]
fn title_is_the_stem_or_the_default() {
    assert_eq!(title_from_stem(Some("deck".to_string())), "deck");
    assert_eq!(title_from_stem(None), DEFAULT_TITLE);
    assert_eq!(title_from_stem(None), "Slide Linker Presentation");
}

#[test]
fn title_comes_from_the_name_of_the_source_file() {
    assert_eq!(document_title("talk.pdf"), "talk");
    assert_eq!(document_title("dir/Quarterly Report.pptx"), "Quarterly Report");
    assert_eq!(document_title("archive.tar.gz"), "archive.tar");
    assert_eq!(document_title(""), DEFAULT_TITLE);
}

#[test]
fn document_holds_its_parts_in_order() {
    let html = render_document("My <deck>", "16/9", "[MAIN]", "[SUB]", 2, false);
    assert!(html.starts_with("<!DOCTYPE html>\n<html lang=\"ja\">"));
    assert!(html.ends_with("</body>\n</html>\n"));
    assert!(html.contains("<title>My &lt;deck&gt;</title>"));
    assert!(html.contains("aspect-ratio: 16/9; }"));
    let main = html.find("[MAIN]").unwrap();
    let sub = html.find("[SUB]").unwrap();
    let dots = html.find("<nav class=\"dot-nav\">").unwrap();
    let script = html.find("<script>").unwrap();
    assert!(main < sub && sub < dots && dots < script);
    assert!(html.contains("<main id=\"slides\">\n[MAIN]</main>"));
    assert!(html.contains("<div id=\"modals\">\n[SUB]</div>"));
    assert!(html.contains(
        "<nav class=\"dot-nav\">\n    <button class=\"active\"></button>\n    <button></button>\n</nav>"
    ));
    assert!(!html.contains("sl_analytics"));
}

#[test]
fn analytics_script_is_inlined_on_request() {
    let html = render_document("t", "16/9", "", "", 0, true);
    assert!(html.contains(ANALYTICS_SCRIPT));
    assert!(html.contains("var KEY = 'sl_analytics';"));
    assert!(html.contains("threshold: 0.5"));
    assert!(html.contains("'type,id,extra,time\\n'"));
    assert_eq!(html.matches("<script>").count(), 2);
}

#[test]
fn title_and_ratio_are_escaped() {
    let html = render_document("<script>alert(1)</script>", "\"><script>", "", "", 0, false);
    assert!(html.contains("<title>&lt;script&gt;alert(1)&lt;/script&gt;</title>"));
    assert!(html.contains("aspect-ratio: &quot;&gt;&lt;script&gt;; }"));
    assert_eq!(html.matches("<script>").count(), 1);
}

#[test]
fn same_parts_give_the_same_document() {
    let a = render_document("t", "4/3", "m", "s", 3, true);
    let b = render_document("t", "4/3", "m", "s", 3, true);
    assert_eq!(a, b);
}

#[test]
fn title_is_the_default_or_stands_in_the_path() {
    for path in ["talk.pdf", "a/b/c.d.e", "/x/.hidden", "C:\\decks\\talk.pptx", "..", "", "dir/", "戻る.pdf", "a.", "..."] {
        let title = document_title(path);
        assert!(title == DEFAULT_TITLE || path.contains(&title), "{:?} -> {:?}", path, title);
    }
}
