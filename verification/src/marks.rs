//! The marks by which a document is examined, and what a scan of each
//! fixed piece of markup shows of them.
//!
//! Each scan reads a piece character by character, so each proof names the
//! text of its piece once more; a proof whose text differs from the piece
//! does not verify.

use vstd::prelude::*;
use crate::document::{
    ANALYTICS_SCRIPT, DOC_BODY, DOC_DOTS, DOC_END, DOC_HEAD, DOC_MODALS, DOC_SCRIPT, DOC_STYLE,
    DOT_ACTIVE, DOT_BREAK, DOT_PLAIN, NO_SCRIPT,
};
use crate::html::{
    ATTR_DATA_URL, ATTR_ONCLICK, ATTR_TITLE, CALL_END, CALL_NOTHING, CALL_OPEN_SLIDE,
    CALL_OPEN_URL, COMMA, DIV_CLOSE, HOTSPOT_OPEN, ICON_CLOSE, ICON_OPEN, IMAGE_ALT, IMAGE_OPEN,
    LAYER_CLOSE, LAYER_OPEN, MAIN_CLOSE, MAIN_FRAME, MAIN_OPEN, MODAL_CLOSE, MODAL_FRAME,
    MODAL_OPEN, NEWLINE, NOTHING, NO_ADDRESS, OVERLAY_OPEN, OVERLAY_TEXT, QUOTE, STYLE_ALIGN,
    STYLE_BACKGROUND, STYLE_BORDER_COLOR, STYLE_BOX_END, STYLE_COLOR, STYLE_FILL,
    STYLE_FONT_SIZE, STYLE_FONT_WEIGHT, STYLE_HEIGHT, STYLE_LEFT, STYLE_OVERLAY_RADIUS,
    STYLE_RADIUS, STYLE_TOP, STYLE_WIDTH, TAG_END,
};
use crate::scan::{breaks_off, clean, lemma_clean_tally, lemma_single, tally};

verus! {

/// The opening of a section of the primary sequence.
pub const MAIN_MARK: &'static str = "<section class=\"main-slide\"";

/// The opening of a modal overlay.
pub const MODAL_MARK: &'static str = "<div class=\"modal-overlay\"";

/// The opening of a script.
pub const SCRIPT_MARK: &'static str = "<script";

/// True for the three marks.
pub open spec fn is_mark(mark: Seq<char>) -> bool {
    mark == MAIN_MARK@ || mark == MODAL_MARK@ || mark == SCRIPT_MARK@
}

/// How often a mark stands in a script of the skeleton: the opening of a
/// script once, the other marks never.
pub open spec fn script_count(mark: Seq<char>) -> nat {
    if mark == SCRIPT_MARK@ {
        1
    } else {
        0
    }
}

/// Each mark begins with the character that opens a tag, and the marks
/// differ from one another.
pub proof fn lemma_marks_open_tags(mark: Seq<char>)
    requires
        is_mark(mark),
    ensures
        mark.len() > 0,
        mark[0] == '<',
        MAIN_MARK@ != MODAL_MARK@,
        MAIN_MARK@ != SCRIPT_MARK@,
        MODAL_MARK@ != SCRIPT_MARK@,
{
    reveal_strlit("<section class=\"main-slide\"");
    reveal_strlit("<div class=\"modal-overlay\"");
    reveal_strlit("<script");
    assert(MAIN_MARK@[1] != MODAL_MARK@[1]);
    assert(MAIN_MARK@.len() != SCRIPT_MARK@.len());
    assert(MODAL_MARK@.len() != SCRIPT_MARK@.len());
}

/// True when `open` is two spaces and a tag that is cut off inside the
/// value of its id, and `frame` goes on with the end of that value and of
/// the tag: `open` holds one `<`, its third character, and `frame` begins
/// with `">`.
pub open spec fn opens_tag(open: Seq<char>, frame: Seq<char>) -> bool {
    &&& open.len() > 2
    &&& open[2] == '<'
    &&& forall|i: int| 0 <= i < open.len() && i != 2 ==> #[trigger] open[i] != '<'
    &&& frame.len() >= 2
    &&& frame[0] == '"'
    &&& frame[1] == '>'
}

/// The opening and the frame of a main section open a tag, and the tag
/// begins with the mark of main sections.
pub proof fn lemma_main_opens_tag()
    ensures
        opens_tag(MAIN_OPEN@, MAIN_FRAME@),
        MAIN_MARK@.len() <= MAIN_OPEN@.len() - 2,
        MAIN_OPEN@.subrange(2, 2 + MAIN_MARK@.len() as int) == MAIN_MARK@,
{
    reveal_strlit("<section class=\"main-slide\"");
    reveal_strlit("<div class=\"modal-overlay\"");
    reveal_strlit("  <section class=\"main-slide\" id=\"");
    reveal_strlit("\">\n    <div class=\"slide-container\" style=\"position:relative;width:100%;aspect-ratio:");
    assert(MAIN_OPEN@.subrange(2, 2 + MAIN_MARK@.len() as int) =~= MAIN_MARK@);
}

/// The opening and the frame of a modal overlay open a tag, and the tag
/// begins with the mark of modal overlays.
pub proof fn lemma_modal_opens_tag()
    ensures
        opens_tag(MODAL_OPEN@, MODAL_FRAME@),
        MODAL_MARK@.len() <= MODAL_OPEN@.len() - 2,
        MODAL_OPEN@.subrange(2, 2 + MODAL_MARK@.len() as int) == MODAL_MARK@,
{
    reveal_strlit("<section class=\"main-slide\"");
    reveal_strlit("<div class=\"modal-overlay\"");
    reveal_strlit("  <div class=\"modal-overlay\" id=\"modal-");
    reveal_strlit("\">\n    <button class=\"back-btn\" onclick=\"event.stopPropagation();goBack()\">&#8592; 戻る</button>\n    <div class=\"modal-content\" onclick=\"event.stopPropagation()\" style=\"position:relative;aspect-ratio:");
    assert(MODAL_OPEN@.subrange(2, 2 + MODAL_MARK@.len() as int) =~= MODAL_MARK@);
}

/// The opening of a main section holds the mark of main sections once, and
/// nothing of the other marks.
pub proof fn lemma_scan_main_open()
    ensures
        tally(MAIN_OPEN@, MAIN_MARK@, 1),
        clean(MAIN_OPEN@, MODAL_MARK@),
        clean(MAIN_OPEN@, SCRIPT_MARK@),
{
    reveal_strlit("<section class=\"main-slide\"");
    reveal_strlit("<div class=\"modal-overlay\"");
    reveal_strlit("<script");
    reveal_strlit("  <section class=\"main-slide\" id=\"");
    reveal_with_fuel(breaks_off, 20);
    assert(MAIN_OPEN@.subrange(2, 2 + MAIN_MARK@.len() as int) =~= MAIN_MARK@);
    lemma_single(MAIN_OPEN@, MAIN_MARK@, 2);
}

/// The opening of a modal overlay holds the mark of modal overlays once,
/// and nothing of the other marks.
pub proof fn lemma_scan_modal_open()
    ensures
        tally(MODAL_OPEN@, MODAL_MARK@, 1),
        clean(MODAL_OPEN@, MAIN_MARK@),
        clean(MODAL_OPEN@, SCRIPT_MARK@),
{
    reveal_strlit("<section class=\"main-slide\"");
    reveal_strlit("<div class=\"modal-overlay\"");
    reveal_strlit("<script");
    reveal_strlit("  <div class=\"modal-overlay\" id=\"modal-");
    reveal_with_fuel(breaks_off, 20);
    assert(MODAL_OPEN@.subrange(2, 2 + MODAL_MARK@.len() as int) =~= MODAL_MARK@);
    lemma_single(MODAL_OPEN@, MODAL_MARK@, 2);
}

/// The fixed pieces of a hotspot hold none of the marks.
pub proof fn lemma_scan_hotspot_pieces(mark: Seq<char>)
    requires
        is_mark(mark),
    ensures
        clean(NOTHING@, mark),
        clean(NEWLINE@, mark),
        clean(QUOTE@, mark),
        clean(COMMA@, mark),
        clean(HOTSPOT_OPEN@, mark),
        clean(ATTR_DATA_URL@, mark),
        clean(ATTR_TITLE@, mark),
        clean(STYLE_LEFT@, mark),
        clean(STYLE_TOP@, mark),
        clean(STYLE_WIDTH@, mark),
        clean(STYLE_HEIGHT@, mark),
        clean(STYLE_BOX_END@, mark),
        clean(ATTR_ONCLICK@, mark),
        clean(TAG_END@, mark),
        clean(DIV_CLOSE@, mark),
{
    reveal_strlit("<section class=\"main-slide\"");
    reveal_strlit("<div class=\"modal-overlay\"");
    reveal_strlit("<script");
    reveal_strlit("");
    reveal_strlit("\n");
    reveal_strlit("\"");
    reveal_strlit(",");
    reveal_strlit("      <div class=\"hotspot\"");
    reveal_strlit(" data-type=\"url\"");
    reveal_strlit(" title=\"");
    reveal_strlit(" style=\"left:");
    reveal_strlit("%;top:");
    reveal_strlit("%;width:");
    reveal_strlit("%;height:");
    reveal_strlit("%;");
    reveal_strlit("\" onclick=\"");
    reveal_strlit("\">");
    reveal_strlit("</div>");
    reveal_with_fuel(breaks_off, 20);
}

/// The fixed pieces of an action, a style and an icon hold none of the marks.
pub proof fn lemma_scan_action_pieces(mark: Seq<char>)
    requires
        is_mark(mark),
    ensures
        clean(CALL_OPEN_URL@, mark),
        clean(CALL_OPEN_SLIDE@, mark),
        clean(CALL_END@, mark),
        clean(CALL_NOTHING@, mark),
        clean(NO_ADDRESS@, mark),
        clean(STYLE_BORDER_COLOR@, mark),
        clean(STYLE_BACKGROUND@, mark),
        clean(STYLE_RADIUS@, mark),
        clean(ICON_OPEN@, mark),
        clean(ICON_CLOSE@, mark),
{
    reveal_strlit("<section class=\"main-slide\"");
    reveal_strlit("<div class=\"modal-overlay\"");
    reveal_strlit("<script");
    reveal_strlit("openUrl('");
    reveal_strlit("openSlide('");
    reveal_strlit("')");
    reveal_strlit("void(0)");
    reveal_strlit("#");
    reveal_strlit("border-color:");
    reveal_strlit(";background:rgba(");
    reveal_strlit(");border-radius:");
    reveal_strlit("<span class=\"hotspot-icon\">");
    reveal_strlit("</span>");
    reveal_with_fuel(breaks_off, 20);
}

/// The fixed pieces of a text overlay hold none of the marks.
pub proof fn lemma_scan_overlay_pieces(mark: Seq<char>)
    requires
        is_mark(mark),
    ensures
        clean(OVERLAY_OPEN@, mark),
        clean(STYLE_FONT_SIZE@, mark),
        clean(STYLE_FONT_WEIGHT@, mark),
        clean(STYLE_COLOR@, mark),
        clean(STYLE_FILL@, mark),
        clean(STYLE_ALIGN@, mark),
        clean(STYLE_OVERLAY_RADIUS@, mark),
        clean(OVERLAY_TEXT@, mark),
{
    reveal_strlit("<section class=\"main-slide\"");
    reveal_strlit("<div class=\"modal-overlay\"");
    reveal_strlit("<script");
    reveal_strlit("      <div class=\"text-overlay\" style=\"left:");
    reveal_strlit("%;font-size:");
    reveal_strlit("px;font-weight:");
    reveal_strlit(";color:");
    reveal_strlit(";background:");
    reveal_strlit(";text-align:");
    reveal_strlit(";border-radius:");
    reveal_strlit("px;\">");
    reveal_with_fuel(breaks_off, 20);
}

/// The fixed pieces around the body of a slide, but for the two openings, hold none of the marks.
pub proof fn lemma_scan_frame_pieces(mark: Seq<char>)
    requires
        is_mark(mark),
    ensures
        clean(MAIN_FRAME@, mark),
        clean(MAIN_CLOSE@, mark),
        clean(MODAL_FRAME@, mark),
        clean(MODAL_CLOSE@, mark),
        clean(IMAGE_OPEN@, mark),
        clean(IMAGE_ALT@, mark),
        clean(LAYER_OPEN@, mark),
        clean(LAYER_CLOSE@, mark),
{
    reveal_strlit("<section class=\"main-slide\"");
    reveal_strlit("<div class=\"modal-overlay\"");
    reveal_strlit("<script");
    reveal_strlit("\">\n    <div class=\"slide-container\" style=\"position:relative;width:100%;aspect-ratio:");
    reveal_strlit("\n    </div>\n  </section>\n");
    reveal_strlit("\">\n    <button class=\"back-btn\" onclick=\"event.stopPropagation();goBack()\">&#8592; 戻る</button>\n    <div class=\"modal-content\" onclick=\"event.stopPropagation()\" style=\"position:relative;aspect-ratio:");
    reveal_strlit("\n    </div>\n  </div>\n");
    reveal_strlit(";\">\n      <img src=\"data:image/png;base64,");
    reveal_strlit("\" alt=\"");
    reveal_strlit("\" />\n      <div class=\"hotspot-layer\">");
    reveal_strlit("</div>\n      ");
    reveal_with_fuel(breaks_off, 20);
}

/// The short pieces of the skeleton hold none of the marks.
pub proof fn lemma_scan_skeleton_pieces(mark: Seq<char>)
    requires
        is_mark(mark),
    ensures
        clean(DOC_HEAD@, mark),
        clean(DOC_MODALS@, mark),
        clean(DOC_DOTS@, mark),
        clean(DOC_END@, mark),
        clean(DOT_ACTIVE@, mark),
        clean(DOT_PLAIN@, mark),
        clean(DOT_BREAK@, mark),
        clean(NO_SCRIPT@, mark),
{
    reveal_strlit("<section class=\"main-slide\"");
    reveal_strlit("<div class=\"modal-overlay\"");
    reveal_strlit("<script");
    reveal_strlit(r#"<!DOCTYPE html>
<html lang="ja">
<head>
<meta charset="UTF-8">
<meta name="viewport" content="width=device-width, initial-scale=1.0">
<title>"#);
    reveal_strlit(r#"</main>
<div id="modals">
"#);
    reveal_strlit(r#"</div>
<nav class="dot-nav">
    "#);
    reveal_strlit(r#"
</body>
</html>
"#);
    reveal_strlit("<button class=\"active\"></button>");
    reveal_strlit("<button></button>");
    reveal_strlit("\n    ");
    reveal_strlit("");
    reveal_with_fuel(breaks_off, 20);
}

/// The style sheet of the skeleton holds none of the marks.
pub proof fn lemma_scan_doc_style(mark: Seq<char>)
    requires
        is_mark(mark),
    ensures
        clean(DOC_STYLE@, mark),
{
    reveal_strlit("<section class=\"main-slide\"");
    reveal_strlit("<div class=\"modal-overlay\"");
    reveal_strlit("<script");
    reveal_strlit(r#"</title>
<style>
* { box-sizing: border-box; margin: 0; padding: 0; }
html { scroll-behavior: smooth; }
body { background: #111; color: #eee; font-family: sans-serif; }
.main-slide { max-width: 1280px; margin: 0 auto 24px auto; padding: 0 12px; }
.slide-container img, .modal-content img { display: block; width: 100%; height: 100%; }
.hotspot-layer { position: absolute; top: 0; left: 0; width: 100%; height: 100%; }
.hotspot { position: absolute; border: 2px solid rgb(99,200,255); background: rgba(99,200,255,0.15); border-radius: 4px; cursor: pointer; display: flex; align-items: center; justify-content: center; }
.hotspot-icon { pointer-events: none; }
.text-overlay { position: absolute; display: flex; align-items: center; overflow: hidden; white-space: pre-wrap; padding: 2px 6px; }
.modal-overlay { display: none; position: fixed; top: 0; left: 0; width: 100%; height: 100%; background: rgba(0,0,0,0.85); align-items: center; justify-content: center; z-index: 10; }
.modal-overlay.open { display: flex; }
.modal-content { width: min(92vw, 1280px); max-height: 92vh; aspect-ratio: "#);
    reveal_with_fuel(breaks_off, 20);
}

/// The end of the style sheet and the opening of the body hold none of the marks.
pub proof fn lemma_scan_doc_body(mark: Seq<char>)
    requires
        is_mark(mark),
    ensures
        clean(DOC_BODY@, mark),
{
    reveal_strlit("<section class=\"main-slide\"");
    reveal_strlit("<div class=\"modal-overlay\"");
    reveal_strlit("<script");
    reveal_strlit(r#"; }
.back-btn { position: fixed; top: 12px; left: 12px; z-index: 11; padding: 6px 14px; border: 0; border-radius: 4px; cursor: pointer; }
.dot-nav { position: fixed; right: 12px; top: 50%; transform: translateY(-50%); display: flex; flex-direction: column; gap: 8px; z-index: 5; }
.dot-nav button { width: 10px; height: 10px; border-radius: 50%; border: 0; background: #666; cursor: pointer; }
.dot-nav button.active { background: #fff; }
.analytics-download-btn { position: fixed; right: 12px; bottom: 12px; z-index: 12; padding: 6px 14px; border: 0; border-radius: 4px; cursor: pointer; }
</style>
</head>
<body>
<main id="slides">
"#);
    reveal_with_fuel(breaks_off, 20);
}

/// The navigation script of the skeleton opens one script and holds nothing of the other marks.
pub proof fn lemma_scan_doc_script(mark: Seq<char>)
    requires
        is_mark(mark),
    ensures
        tally(DOC_SCRIPT@, mark, script_count(mark)),
        mark != SCRIPT_MARK@ ==> clean(DOC_SCRIPT@, mark),
{
    reveal_strlit("<section class=\"main-slide\"");
    reveal_strlit("<div class=\"modal-overlay\"");
    reveal_strlit("<script");
    reveal_strlit(r#"
</nav>
<script>
var navStack = [];
function modalOf(id) { return document.getElementById('modal-' + id); }
function openSlide(id) {
  var next = modalOf(id);
  if (!next) { return; }
  if (navStack.length > 0) { modalOf(navStack[navStack.length - 1]).classList.remove('open'); }
  navStack.push(id);
  next.classList.add('open');
}
function goBack() {
  if (navStack.length === 0) { return; }
  modalOf(navStack.pop()).classList.remove('open');
  if (navStack.length > 0) { modalOf(navStack[navStack.length - 1]).classList.add('open'); }
}
function openUrl(url) { window.open(url, '_blank', 'noopener'); }
(function() {
  var sections = document.querySelectorAll('.main-slide');
  var dots = document.querySelectorAll('.dot-nav button');
  dots.forEach(function(dot, i) {
    dot.onclick = function() { if (sections[i]) { sections[i].scrollIntoView(); } };
  });
  var seen = new IntersectionObserver(function(entries) {
    entries.forEach(function(e) {
      if (!e.isIntersecting) { return; }
      sections.forEach(function(section, i) {
        if (dots[i]) { dots[i].classList.toggle('active', section === e.target); }
      });
    });
  }, { threshold: 0.5 });
  sections.forEach(function(section) { seen.observe(section); });
  document.querySelectorAll('.modal-overlay').forEach(function(overlay) {
    overlay.onclick = function() { goBack(); };
  });
})();
</script>
"#);
    reveal_with_fuel(breaks_off, 20);
    if mark == SCRIPT_MARK@ {
        assert(DOC_SCRIPT@.subrange(8, 8 + SCRIPT_MARK@.len() as int) =~= SCRIPT_MARK@);
        lemma_single(DOC_SCRIPT@, SCRIPT_MARK@, 8);
    } else {
        lemma_clean_tally(DOC_SCRIPT@, mark);
    }
}

/// The analytics script opens one script and holds nothing of the other marks.
pub proof fn lemma_scan_analytics_script(mark: Seq<char>)
    requires
        is_mark(mark),
    ensures
        tally(ANALYTICS_SCRIPT@, mark, script_count(mark)),
        mark != SCRIPT_MARK@ ==> clean(ANALYTICS_SCRIPT@, mark),
{
    reveal_strlit("<section class=\"main-slide\"");
    reveal_strlit("<div class=\"modal-overlay\"");
    reveal_strlit("<script");
    reveal_strlit(r#"<script>
(function() {
  var KEY = 'sl_analytics';
  var events = JSON.parse(localStorage.getItem(KEY) || '[]');

  function track(type, id, extra) {
    events.push({
      type: type,
      id: id || '',
      extra: extra || '',
      time: new Date().toISOString()
    });
    try { localStorage.setItem(KEY, JSON.stringify(events)); } catch(e) {}
  }

  var viewObs = new IntersectionObserver(function(entries) {
    entries.forEach(function(e) {
      if (e.isIntersecting) {
        var id = e.target.id || e.target.closest('[id]').id;
        track('view', id);
      }
    });
  }, { threshold: 0.5 });
  document.querySelectorAll('.main-slide,.modal-overlay').forEach(function(el) {
    viewObs.observe(el);
  });

  var origOpen = window.openSlide;
  window.openSlide = function(id) { track('click', id); origOpen(id); };
  var origUrl = window.openUrl;
  window.openUrl = function(url) { track('url_click', '', url); origUrl(url); };

  var btn = document.createElement('button');
  btn.textContent = '\u2193 CSV';
  btn.className = 'analytics-download-btn';
  btn.title = '\u5206\u6790\u30c7\u30fc\u30bf\u3092CSV\u3067\u30c0\u30a6\u30f3\u30ed\u30fc\u30c9';
  btn.onclick = function() {
    var csv = 'type,id,extra,time\n';
    events.forEach(function(e) {
      csv += [e.type,e.id,e.extra,e.time].join(',') + '\n';
    });
    var a = document.createElement('a');
    a.href = URL.createObjectURL(new Blob([csv], {type:'text/csv'}));
    a.download = 'analytics.csv';
    a.click();
  };
  document.body.appendChild(btn);
})();
</script>"#);
    reveal_with_fuel(breaks_off, 20);
    if mark == SCRIPT_MARK@ {
        assert(ANALYTICS_SCRIPT@.subrange(0, 0 + SCRIPT_MARK@.len() as int) =~= SCRIPT_MARK@);
        lemma_single(ANALYTICS_SCRIPT@, SCRIPT_MARK@, 0);
    } else {
        lemma_clean_tally(ANALYTICS_SCRIPT@, mark);
    }
}

} // verus!
