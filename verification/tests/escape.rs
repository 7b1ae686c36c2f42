use slide_linker::escape::html_escape;

#[test]
fn escapes_the_five_reserved_characters() {
    assert_eq!(html_escape("&"), "&amp;");
    assert_eq!(html_escape("<"), "&lt;");
    assert_eq!(html_escape(">"), "&gt;");
    assert_eq!(html_escape("\""), "&quot;");
    assert_eq!(html_escape("'"), "&#39;");
}

#[test]
fn leaves_other_text_as_it_is() {
    assert_eq!(html_escape(""), "");
    assert_eq!(html_escape("Slide 1"), "Slide 1");
    assert_eq!(html_escape("戻る #1; ok"), "戻る #1; ok");
}

#[test]
fn script_tag_comes_out_escaped() {
    let out = html_escape("<script>alert(1)</script>");
    assert_eq!(out, "&lt;script&gt;alert(1)&lt;/script&gt;");
    assert!(!out.contains("<script>"));
    assert!(!out.contains('<'));
    assert!(!out.contains('>'));
}

#[test]
fn escapes_every_occurrence_once() {
    assert_eq!(html_escape("a&b&c"), "a&amp;b&amp;c");
    assert_eq!(html_escape("&lt;"), "&amp;lt;");
    assert_eq!(
        html_escape("\"it's\" <b> & co"),
        "&quot;it&#39;s&quot; &lt;b&gt; &amp; co"
    );
}

#[test]
fn matches_replacement_in_sequence() {
    let samples = ["", "plain", "<<>>", "&&&", "a'b\"c", "x<y & y>z", "&amp;&lt;"];
    for s in samples {
        let expected = s
            .replace('&', "&amp;")
            .replace('<', "&lt;")
            .replace('>', "&gt;")
            .replace('"', "&quot;")
            .replace('\'', "&#39;");
        assert_eq!(html_escape(s), expected);
    }
}
