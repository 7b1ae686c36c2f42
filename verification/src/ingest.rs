//! What the ingestion of a source document decides: the records of the
//! slides it creates, the names of their image files, the progress it
//! announces, and which files it takes for what.

use vstd::prelude::*;
use vstd::string::*;
use crate::number::{nat_text, nat_text_pad3, push_nat, push_nat_pad3};

verus! {

pub const SLIDE_ID: &'static str = "slide-";

pub const SLIDE_LABEL: &'static str = "Slide ";

pub const SLIDE_DIR: &'static str = "slides/";

pub const IMAGE_SUFFIX: &'static str = ".png";

pub const SUFFIX_PPTX: &'static str = ".pptx";

pub const SUFFIX_PPT: &'static str = ".ppt";

pub const SAID_OFFICE: &'static str = "PPTX を PDF に変換中 (LibreOffice)...";

pub const SAID_STARTED: &'static str = "スライド画像に変換中...";

pub const SAID_PAGE: &'static str = "変換中... (";

pub const SAID_OF: &'static str = "/";

pub const SAID_PAGE_END: &'static str = ")";

pub const SAID_FINISHED: &'static str = "変換完了";

/// The record of a slide as the ingestion creates it.
#[derive(Debug, Clone)]
pub struct SlideInfo {
    pub id: String,
    pub index: usize,
    pub label: String,
    pub image_path: String,
}

/// The view of a [`SlideInfo`].
pub struct SlideInfoView {
    pub id: Seq<char>,
    pub index: nat,
    pub label: Seq<char>,
    pub image_path: Seq<char>,
}

impl View for SlideInfo {
    type V = SlideInfoView;

    open spec fn view(&self) -> SlideInfoView {
        SlideInfoView {
            id: self.id@,
            index: self.index as nat,
            label: self.label@,
            image_path: self.image_path@,
        }
    }
}

/// Progress of a conversion, with a message for the reader.
#[derive(Debug, Clone)]
pub struct ConvertProgress {
    pub current: usize,
    pub total: usize,
    pub message: String,
}

/// The view of a [`ConvertProgress`].
pub struct ConvertProgressView {
    pub current: nat,
    pub total: nat,
    pub message: Seq<char>,
}

impl View for ConvertProgress {
    type V = ConvertProgressView;

    open spec fn view(&self) -> ConvertProgressView {
        ConvertProgressView {
            current: self.current as nat,
            total: self.total as nat,
            message: self.message@,
        }
    }
}

/// The id of the slide at position `index`: `slide-` and the position
/// counted from one, at least three digits wide.
pub open spec fn slide_id_text(index: nat) -> Seq<char> {
    SLIDE_ID@ + nat_text_pad3(index + 1)
}

/// The name of the image file of the slide at position `index`.
pub open spec fn image_name_text(index: nat) -> Seq<char> {
    slide_id_text(index) + IMAGE_SUFFIX@
}

/// The record of the slide at position `index`.
pub open spec fn slide_record(index: nat) -> SlideInfoView {
    SlideInfoView {
        id: slide_id_text(index),
        index,
        label: SLIDE_LABEL@ + nat_text(index + 1),
        image_path: SLIDE_DIR@ + image_name_text(index),
    }
}

/// The name of the image file of the slide at position `index`, such as
/// `slide-001.png` for the first slide.
pub fn image_file_name(index: usize) -> (name: String)
    requires
        index < usize::MAX,
    ensures
        name@ == image_name_text(index as nat),
{
    let mut name = String::new();
    proof {
        assert(name@ + SLIDE_ID@ =~= SLIDE_ID@);
    }
    name.append(SLIDE_ID);
    push_nat_pad3(&mut name, index as u64 + 1);
    name.append(IMAGE_SUFFIX);
    name
}

/// The record of the slide at position `index`: its id, its label and the
/// path of its image inside the project.
pub fn slide_info(index: usize) -> (info: SlideInfo)
    requires
        index < usize::MAX,
    ensures
        info@ == slide_record(index as nat),
{
    let mut id = String::new();
    let mut label = String::new();
    let mut image_path = String::new();
    proof {
        assert(id@ + SLIDE_ID@ =~= SLIDE_ID@);
        assert(label@ + SLIDE_LABEL@ =~= SLIDE_LABEL@);
        assert(image_path@ + SLIDE_DIR@ =~= SLIDE_DIR@);
    }
    id.append(SLIDE_ID);
    push_nat_pad3(&mut id, index as u64 + 1);
    label.append(SLIDE_LABEL);
    push_nat(&mut label, index as u64 + 1);
    image_path.append(SLIDE_DIR);
    image_path.append(image_file_name(index).as_str());
    SlideInfo { id, index, label, image_path }
}

/// The progress announced while an office document is turned into a PDF.
pub open spec fn said_office() -> ConvertProgressView {
    ConvertProgressView { current: 0, total: 0, message: SAID_OFFICE@ }
}

/// The progress announced when the rendering of `total` pages begins.
pub open spec fn said_started(total: nat) -> ConvertProgressView {
    ConvertProgressView { current: 0, total, message: SAID_STARTED@ }
}

/// The progress announced when `done` of `total` pages are rendered.
pub open spec fn said_page(done: nat, total: nat) -> ConvertProgressView {
    ConvertProgressView {
        current: done,
        total,
        message: SAID_PAGE@ + nat_text(done) + SAID_OF@ + nat_text(total) + SAID_PAGE_END@,
    }
}

/// The progress announced when all `total` pages are rendered.
pub open spec fn said_finished(total: nat) -> ConvertProgressView {
    ConvertProgressView { current: total, total, message: SAID_FINISHED@ }
}

/// The progress to announce while an office document is turned into a PDF.
pub fn progress_office() -> (p: ConvertProgress)
    ensures
        p@ == said_office(),
{
    ConvertProgress { current: 0, total: 0, message: String::from_str(SAID_OFFICE) }
}

/// The progress to announce when the rendering of `total` pages begins.
pub fn progress_started(total: usize) -> (p: ConvertProgress)
    ensures
        p@ == said_started(total as nat),
{
    ConvertProgress { current: 0, total, message: String::from_str(SAID_STARTED) }
}

/// The progress to announce when `done` of `total` pages are rendered.
pub fn progress_page(done: usize, total: usize) -> (p: ConvertProgress)
    ensures
        p@ == said_page(done as nat, total as nat),
{
    let mut message = String::new();
    proof {
        assert(message@ + SAID_PAGE@ =~= SAID_PAGE@);
    }
    message.append(SAID_PAGE);
    push_nat(&mut message, done as u64);
    message.append(SAID_OF);
    push_nat(&mut message, total as u64);
    message.append(SAID_PAGE_END);
    ConvertProgress { current: done, total, message }
}

/// The progress to announce when all `total` pages are rendered.
pub fn progress_finished(total: usize) -> (p: ConvertProgress)
    ensures
        p@ == said_finished(total as nat),
{
    ConvertProgress { current: total, total, message: String::from_str(SAID_FINISHED) }
}

/// A letter of the basic Latin alphabet in lower case; any other character
/// as it is.
pub open spec fn lowered(c: char) -> char {
    if 'A' <= c && c <= 'Z' {
        ((c as u8) + 32) as char
    } else {
        c
    }
}

/// True when `s` ends with `suffix`, capital letters of the basic Latin
/// alphabet in `s` counting as their small forms.
pub open spec fn ends_with_lowered(s: Seq<char>, suffix: Seq<char>) -> bool {
    suffix.len() <= s.len() && forall|i: int|
        0 <= i < suffix.len() ==> lowered(#[trigger] s[s.len() - suffix.len() + i]) == suffix[i]
}

/// True when `s` ends with `suffix`, character for character.
pub open spec fn ends_with(s: Seq<char>, suffix: Seq<char>) -> bool {
    suffix.len() <= s.len() && s.skip(s.len() - suffix.len()) == suffix
}

/// True for the path of a presentation that has to be turned into a PDF
/// before its pages can be rendered: one that ends in `.pptx` or `.ppt`,
/// in small or capital letters.
pub open spec fn is_office_path(path: Seq<char>) -> bool {
    ends_with_lowered(path, SUFFIX_PPTX@) || ends_with_lowered(path, SUFFIX_PPT@)
}

/// True for the name of a slide image: a name that ends in `.png` and has
/// at least one character before that.
pub open spec fn is_image_name(name: Seq<char>) -> bool {
    name.len() > IMAGE_SUFFIX@.len() && ends_with(name, IMAGE_SUFFIX@)
}

fn lower(c: char) -> (l: char)
    ensures
        l == lowered(c),
{
    if 'A' <= c && c <= 'Z' {
        ((c as u8) + 32) as char
    } else {
        c
    }
}

fn has_suffix(s: &str, suffix: &str, fold: bool) -> (yes: bool)
    ensures
        fold ==> yes == ends_with_lowered(s@, suffix@),
        !fold ==> yes == ends_with(s@, suffix@),
{
    let len = s.unicode_len();
    let n = suffix.unicode_len();
    if n > len {
        return false;
    }
    let start = len - n;
    let mut i: usize = 0;
    while i < n
        invariant
            i <= n,
            n == suffix@.len(),
            len == s@.len(),
            start == len - n,
            fold ==> forall|k: int|
                0 <= k < i ==> lowered(#[trigger] s@[s@.len() - suffix@.len() + k]) == suffix@[k],
            !fold ==> forall|k: int| 0 <= k < i ==> s@.skip(start as int)[k] == suffix@[k],
        decreases n - i,
    {
        let c = s.get_char(start + i);
        let d = suffix.get_char(i);
        let c = if fold {
            lower(c)
        } else {
            c
        };
        if c != d {
            proof {
                if fold {
                    assert(lowered(s@[s@.len() - suffix@.len() + i]) != suffix@[i as int]);
                } else {
                    assert(s@.skip(start as int)[i as int] != suffix@[i as int]);
                }
            }
            return false;
        }
        i = i + 1;
    }
    proof {
        if !fold {
            assert(s@.skip(start as int) =~= suffix@);
        }
    }
    true
}

/// Decides whether a source path names a presentation that has to be
/// turned into a PDF first.
pub fn is_office_document(path: &str) -> (yes: bool)
    ensures
        yes == is_office_path(path@),
{
    has_suffix(path, SUFFIX_PPTX, true) || has_suffix(path, SUFFIX_PPT, true)
}

/// Decides whether a file name is that of a slide image.
pub fn is_slide_image(name: &str) -> (yes: bool)
    ensures
        yes == is_image_name(name@),
{
    name.unicode_len() > IMAGE_SUFFIX.unicode_len() && has_suffix(name, IMAGE_SUFFIX, false)
}

} // verus!
