//! The fixed skeleton of the interactive document and the values placed
//! into it: title, aspect ratio, primary sections, modal overlays, the dot
//! navigation and the optional analytics script.

use vstd::prelude::*;
use vstd::std_specs::iter::IteratorSpec;
use vstd::string::*;
use crate::escape::{escaped, html_escape};
use crate::text::{joined, push_char};

verus! {

/// The title of a document whose source file has no name to take it from.
pub const DEFAULT_TITLE: &'static str = "Slide Linker Presentation";

// The skeleton, cut at the places where values are placed into it.

pub const DOC_HEAD: &'static str = r#"<!DOCTYPE html>
<html lang="ja">
<head>
<meta charset="UTF-8">
<meta name="viewport" content="width=device-width, initial-scale=1.0">
<title>"#;

pub const DOC_STYLE: &'static str = r#"</title>
<style>
* { box-sizing: border-box; margin: 0; padding: 0; }
html { scroll-behavior: smooth; }
body { background: #111; color: #eee; font-family: sans-serif; }
.main-slide { max-width: 1280px; margin: 0 auto 24px auto; padding: 0 12px; }
.slide-container img, .modal-content img { display: block; width: 100%; height: 100%; }
.hotspot-layer { position: absolute; top: 0; left: 0; width: 100%; height: 100%; }
.hotspot { position: absolute; border: 2px solid rgb(99,200,255); background: rgba(99,200,255,0.15); border-radius: 4px; cursor: pointer; display: flex; align-items: center; justify-content: center; }
.hotspot-icon { pointer-events: none; }
.text-overlay { position: absolute; display: flex; align-items: center; overflow: hidden; white-space: pre-wrap; padding: 2px 6px; }
.modal-overlay { display: none; position: fixed; top: 0; left: 0; width: 100%; height: 100%; background: rgba(0,0,0,0.85); align-items: center; justify-content: center; z-index: 10; }
.modal-overlay.open { display: flex; }
.modal-content { width: min(92vw, 1280px); max-height: 92vh; aspect-ratio: "#;

pub const DOC_BODY: &'static str = r#"; }
.back-btn { position: fixed; top: 12px; left: 12px; z-index: 11; padding: 6px 14px; border: 0; border-radius: 4px; cursor: pointer; }
.dot-nav { position: fixed; right: 12px; top: 50%; transform: translateY(-50%); display: flex; flex-direction: column; gap: 8px; z-index: 5; }
.dot-nav button { width: 10px; height: 10px; border-radius: 50%; border: 0; background: #666; cursor: pointer; }
.dot-nav button.active { background: #fff; }
.analytics-download-btn { position: fixed; right: 12px; bottom: 12px; z-index: 12; padding: 6px 14px; border: 0; border-radius: 4px; cursor: pointer; }
</style>
</head>
<body>
<main id="slides">
"#;

pub const DOC_MODALS: &'static str = r#"</main>
<div id="modals">
"#;

pub const DOC_DOTS: &'static str = r#"</div>
<nav class="dot-nav">
    "#;

pub const DOC_SCRIPT: &'static str = r#"
</nav>
<script>
var navStack = [];
function modalOf(id) { return document.getElementById('modal-' + id); }
function openSlide(id) {
  var next = modalOf(id);
  if (!next) { return; }
  if (navStack.length > 0) { modalOf(navStack[navStack.length - 1]).classList.remove('open'); }
  navStack.push(id);
  next.classList.add('open');
}
function goBack() {
  if (navStack.length === 0) { return; }
  modalOf(navStack.pop()).classList.remove('open');
  if (navStack.length > 0) { modalOf(navStack[navStack.length - 1]).classList.add('open'); }
}
function openUrl(url) { window.open(url, '_blank', 'noopener'); }
(function() {
  var sections = document.querySelectorAll('.main-slide');
  var dots = document.querySelectorAll('.dot-nav button');
  dots.forEach(function(dot, i) {
    dot.onclick = function() { if (sections[i]) { sections[i].scrollIntoView(); } };
  });
  var seen = new IntersectionObserver(function(entries) {
    entries.forEach(function(e) {
      if (!e.isIntersecting) { return; }
      sections.forEach(function(section, i) {
        if (dots[i]) { dots[i].classList.toggle('active', section === e.target); }
      });
    });
  }, { threshold: 0.5 });
  sections.forEach(function(section) { seen.observe(section); });
  document.querySelectorAll('.modal-overlay').forEach(function(overlay) {
    overlay.onclick = function() { goBack(); };
  });
})();
</script>
"#;

pub const DOC_END: &'static str = r#"
</body>
</html>
"#;

/// The script that records views and clicks in the reader's browser and
/// offers the record for download as delimited text.
pub const ANALYTICS_SCRIPT: &'static str = r#"<script>
(function() {
  var KEY = 'sl_analytics';
  var events = JSON.parse(localStorage.getItem(KEY) || '[]');

  function track(type, id, extra) {
    events.push({
      type: type,
      id: id || '',
      extra: extra || '',
      time: new Date().toISOString()
    });
    try { localStorage.setItem(KEY, JSON.stringify(events)); } catch(e) {}
  }

  var viewObs = new IntersectionObserver(function(entries) {
    entries.forEach(function(e) {
      if (e.isIntersecting) {
        var id = e.target.id || e.target.closest('[id]').id;
        track('view', id);
      }
    });
  }, { threshold: 0.5 });
  document.querySelectorAll('.main-slide,.modal-overlay').forEach(function(el) {
    viewObs.observe(el);
  });

  var origOpen = window.openSlide;
  window.openSlide = function(id) { track('click', id); origOpen(id); };
  var origUrl = window.openUrl;
  window.openUrl = function(url) { track('url_click', '', url); origUrl(url); };

  var btn = document.createElement('button');
  btn.textContent = '\u2193 CSV';
  btn.className = 'analytics-download-btn';
  btn.title = '\u5206\u6790\u30c7\u30fc\u30bf\u3092CSV\u3067\u30c0\u30a6\u30f3\u30ed\u30fc\u30c9';
  btn.onclick = function() {
    var csv = 'type,id,extra,time\n';
    events.forEach(function(e) {
      csv += [e.type,e.id,e.extra,e.time].join(',') + '\n';
    });
    var a = document.createElement('a');
    a.href = URL.createObjectURL(new Blob([csv], {type:'text/csv'}));
    a.download = 'analytics.csv';
    a.click();
  };
  document.body.appendChild(btn);
})();
</script>"#;

pub const DOT_ACTIVE: &'static str = "<button class=\"active\"></button>";

pub const DOT_PLAIN: &'static str = "<button></button>";

pub const DOT_BREAK: &'static str = "\n    ";

pub const NO_SCRIPT: &'static str = "";

/// A ratio such as `16:9` as a style value: each colon becomes a slash.
pub open spec fn aspect_css(ratio: Seq<char>) -> Seq<char> {
    ratio.map_values(
        |c: char|
            if c == ':' {
                '/'
            } else {
                c
            },
    )
}

/// The control of the `i`-th primary slide in the dot navigation. The
/// first control is marked active.
pub open spec fn dot_text(i: int) -> Seq<char> {
    if i == 0 {
        DOT_ACTIVE@
    } else {
        DOT_PLAIN@
    }
}

/// The controls of the dot navigation, one for each of `count` primary slides.
pub open spec fn dot_parts(count: nat) -> Seq<Seq<char>> {
    Seq::new(count, |i: int| dot_text(i))
}

/// The dot navigation of a document with `count` primary slides.
pub open spec fn dot_nav(count: nat) -> Seq<char> {
    joined(dot_parts(count), DOT_BREAK@)
}

/// The analytics block: the script when analytics are on, nothing otherwise.
pub open spec fn analytics_text(enabled: bool) -> Seq<char> {
    if enabled {
        ANALYTICS_SCRIPT@
    } else {
        NO_SCRIPT@
    }
}

/// The title of a document: the stem of the source file's name, or the
/// default title where the name has none.
pub open spec fn title_of(stem: Option<Seq<char>>) -> Seq<char> {
    match stem {
        Some(s) => s,
        None => DEFAULT_TITLE@,
    }
}

/// The complete document: the skeleton with the title and the aspect ratio
/// escaped into it, the markup of the primary sections and of the modal
/// overlays, one navigation control per primary slide, and the analytics
/// block.
pub open spec fn document_text(
    title: Seq<char>,
    aspect: Seq<char>,
    main_html: Seq<char>,
    sub_html: Seq<char>,
    primary_count: nat,
    analytics: bool,
) -> Seq<char> {
    DOC_HEAD@ + escaped(title) + DOC_STYLE@ + escaped(aspect) + DOC_BODY@ + main_html
        + DOC_MODALS@ + sub_html + DOC_DOTS@ + dot_nav(primary_count) + DOC_SCRIPT@
        + analytics_text(analytics) + DOC_END@
}

/// Writes an aspect ratio as a style value: `16:9` becomes `16/9`.
pub fn aspect_ratio_css(ratio: &str) -> (out: String)
    ensures
        out@ == aspect_css(ratio@),
{
    broadcast use axiom_spec_iter;

    let mut out = String::new();
    let mut it = ratio.chars();
    let ghost mut done: int = 0;
    loop
        invariant
            0 <= done <= ratio@.len(),
            it.remaining() == ratio@.skip(done),
            out@ == aspect_css(ratio@.take(done)),
        ensures
            out@ == aspect_css(ratio@),
        decreases ratio@.len() - done,
    {
        broadcast use next_postcondition;

        match it.next() {
            Some(c) => {
                proof {
                    assert(ratio@.skip(done).drop_first() == ratio@.skip(done + 1));
                    assert(c == ratio@[done]);
                }
                if c == ':' {
                    push_char(&mut out, '/');
                } else {
                    push_char(&mut out, c);
                }
                proof {
                    assert(out@ == aspect_css(ratio@.take(done + 1)));
                    done = done + 1;
                }
            },
            None => {
                assert(ratio@.take(done) == ratio@);
                break ;
            },
        }
    }
    out
}

/// Renders the dot navigation for `count` primary slides.
pub fn render_dot_nav(count: usize) -> (out: String)
    ensures
        out@ == dot_nav(count as nat),
{
    let mut out = String::new();
    let mut i: usize = 0;
    while i < count
        invariant
            i <= count,
            out@ == dot_nav(i as nat),
        decreases count - i,
    {
        proof {
            assert(dot_parts((i + 1) as nat) == dot_parts(i as nat).push(dot_text(i as int)));
            assert(dot_parts((i + 1) as nat).drop_last() == dot_parts(i as nat));
            reveal_with_fuel(joined, 2);
        }
        if i > 0 {
            out.append(DOT_BREAK);
            out.append(DOT_PLAIN);
        } else {
            out.append(DOT_ACTIVE);
        }
        i = i + 1;
    }
    out
}

/// Chooses the title of a document from the stem of its source file's name.
pub fn title_from_stem(stem: Option<String>) -> (title: String)
    ensures
        title@ == title_of(stem.deep_view()),
{
    match stem {
        Some(s) => s,
        None => String::from_str(DEFAULT_TITLE),
    }
}

/// The stem of the name of the file that a path names, by the rules for
/// paths of the platform that the program is built for; `None` where the
/// path names no file.
pub uninterp spec fn file_stem_of(path: Seq<char>) -> Option<Seq<char>>;

/// The title of the document of a project with the given source file: the
/// stem of the name of that file, or the default title where it has none.
pub open spec fn title_for(source_file: Seq<char>) -> Seq<char> {
    title_of(file_stem_of(source_file))
}

/// Takes the stem of a file name from a path: the last component of the
/// path without its extension.
///
/// Trusted: calls `Path::file_stem` of the standard library and turns the
/// result into a `String`. The result depends on the path alone, by rules
/// that are fixed for the platform, so the contract names it. The stem is
/// documented as the file name or the portion of it before the final dot,
/// and the file name as the final component of the path; so the contract
/// also claims that a stem stands in the path as it is.
#[verifier::external_body]
fn file_stem(path: &str) -> (stem: Option<String>)
    ensures
        stem.deep_view() == file_stem_of(path@),
        stem matches Some(s) ==> is_part_of(s@, path@),
{
    match std::path::Path::new(path).file_stem() {
        Some(stem) => Some(stem.to_string_lossy().into_owned()),
        None => None,
    }
}

/// The title of the document of a project: the stem of the name of its
/// source file, or the default title where that name has no stem.
///
/// Which part of the path is the stem is decided by the platform's rules
/// for paths. Whatever they decide, the title is the default title or it
/// is taken from the path, character for character.
pub fn document_title(source_file: &str) -> (title: String)
    ensures
        title@ == title_for(source_file@),
        title@ == DEFAULT_TITLE@ || is_part_of(title@, source_file@),
{
    title_from_stem(file_stem(source_file))
}

/// True when `part` stands in `whole`, character for character, at some
/// position.
pub open spec fn is_part_of(part: Seq<char>, whole: Seq<char>) -> bool {
    exists|at: int|
        0 <= at && at + part.len() <= whole.len() && #[trigger] whole.subrange(
            at,
            at + part.len(),
        ) == part
}

/// Assembles the complete document from its parts.
///
/// `title` and `aspect` are escaped here; `main_html` and `sub_html` are
/// markup and are placed as they are.
pub fn render_document(
    title: &str,
    aspect: &str,
    main_html: &str,
    sub_html: &str,
    primary_count: usize,
    analytics: bool,
) -> (out: String)
    ensures
        out@ == document_text(
            title@,
            aspect@,
            main_html@,
            sub_html@,
            primary_count as nat,
            analytics,
        ),
{
    let mut out = String::new();
    proof {
        assert(out@ + DOC_HEAD@ == DOC_HEAD@);
    }
    out.append(DOC_HEAD);
    out.append(html_escape(title).as_str());
    out.append(DOC_STYLE);
    out.append(html_escape(aspect).as_str());
    out.append(DOC_BODY);
    out.append(main_html);
    out.append(DOC_MODALS);
    out.append(sub_html);
    out.append(DOC_DOTS);
    out.append(render_dot_nav(primary_count).as_str());
    out.append(DOC_SCRIPT);
    if analytics {
        out.append(ANALYTICS_SCRIPT);
    } else {
        out.append(NO_SCRIPT);
    }
    out.append(DOC_END);
    out
}

} // verus!
