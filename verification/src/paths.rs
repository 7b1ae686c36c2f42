//! Paths as lists of components, and the rule that keeps a relative path
//! inside a base directory.

use vstd::prelude::*;
use vstd::string::*;
use crate::text::text_equals;

verus! {

/// One component of a path.
#[derive(Debug, Clone)]
pub enum PathPart {
    /// A drive or volume prefix, as on Windows.
    Prefix(String),
    /// The root directory.
    RootDir,
    /// The current directory, `.`.
    CurDir,
    /// The parent directory, `..`.
    ParentDir,
    /// A directory or file name.
    Normal(String),
}

/// The view of a [`PathPart`].
pub enum PathPartView {
    Prefix(Seq<char>),
    RootDir,
    CurDir,
    ParentDir,
    Normal(Seq<char>),
}

impl View for PathPart {
    type V = PathPartView;

    open spec fn view(&self) -> PathPartView {
        match self {
            PathPart::Prefix(name) => PathPartView::Prefix(name@),
            PathPart::RootDir => PathPartView::RootDir,
            PathPart::CurDir => PathPartView::CurDir,
            PathPart::ParentDir => PathPartView::ParentDir,
            PathPart::Normal(name) => PathPartView::Normal(name@),
        }
    }
}

impl DeepView for PathPart {
    type V = PathPartView;

    open spec fn deep_view(&self) -> PathPartView {
        self@
    }
}

/// A relative path left its base directory.
#[derive(Debug, Clone, Copy, PartialEq, Eq, Structural)]
pub struct PathTraversal;

/// How the message of a refused path begins.
pub const SAID_TRAVERSAL: &'static str = "Path traversal detected: ";

/// The message for a refused path: that a traversal was detected, and the
/// path as it was given.
pub open spec fn traversal_text(relative: Seq<char>) -> Seq<char> {
    SAID_TRAVERSAL@ + relative
}

impl PathTraversal {
    /// Describes the refusal of the path `relative` for the caller.
    pub fn message(&self, relative: &str) -> (text: String)
        ensures
            text@ == traversal_text(relative@),
    {
        let mut text = String::new();
        proof {
            assert(text@ + SAID_TRAVERSAL@ =~= SAID_TRAVERSAL@);
        }
        text.append(SAID_TRAVERSAL);
        text.append(relative);
        text
    }
}

/// The path `relative` taken from the directory `base`. A path with a
/// prefix stands for itself; a path with a root keeps only the prefix of the
/// base; any other path follows the base.
pub open spec fn joined_parts(base: Seq<PathPartView>, relative: Seq<PathPartView>) -> Seq<
    PathPartView,
> {
    if relative.len() > 0 && relative[0] is Prefix {
        relative
    } else if relative.len() > 0 && relative[0] is RootDir {
        if base.len() > 0 && base[0] is Prefix {
            seq![base[0]] + relative
        } else {
            relative
        }
    } else {
        base + relative
    }
}

/// A path with its `.` components dropped and each `..` resolved against
/// the name before it. `None` when a `..` has no name before it to leave.
pub open spec fn normalized(parts: Seq<PathPartView>) -> Option<Seq<PathPartView>>
    decreases parts.len(),
{
    if parts.len() == 0 {
        Some(Seq::empty())
    } else {
        match normalized(parts.drop_last()) {
            None => None,
            Some(before) => match parts.last() {
                PathPartView::ParentDir => if before.len() > 0 && before.last() is Normal {
                    Some(before.drop_last())
                } else {
                    None
                },
                PathPartView::CurDir => Some(before),
                part => Some(before.push(part)),
            },
        }
    }
}

/// True when `path` begins with the components of `base`.
pub open spec fn starts_with(path: Seq<PathPartView>, base: Seq<PathPartView>) -> bool {
    base.len() <= path.len() && path.take(base.len() as int) == base
}

/// The path that `relative` names inside `base`, where it stays inside.
pub open spec fn path_within(base: Seq<PathPartView>, relative: Seq<PathPartView>) -> Option<
    Seq<PathPartView>,
> {
    match normalized(joined_parts(base, relative)) {
        Some(path) => if starts_with(path, base) {
            Some(path)
        } else {
            None
        },
        None => None,
    }
}

fn same_part(a: &PathPart, b: &PathPart) -> (same: bool)
    ensures
        same == (a@ == b@),
{
    match (a, b) {
        (PathPart::Prefix(x), PathPart::Prefix(y)) => text_equals(x.as_str(), y.as_str()),
        (PathPart::RootDir, PathPart::RootDir) => true,
        (PathPart::CurDir, PathPart::CurDir) => true,
        (PathPart::ParentDir, PathPart::ParentDir) => true,
        (PathPart::Normal(x), PathPart::Normal(y)) => text_equals(x.as_str(), y.as_str()),
        _ => false,
    }
}

fn begins_with(path: &Vec<PathPart>, base: &Vec<PathPart>) -> (ok: bool)
    ensures
        ok == starts_with(path.deep_view(), base.deep_view()),
{
    if base.len() > path.len() {
        return false;
    }
    let ghost p = path.deep_view();
    let ghost b = base.deep_view();
    let mut i: usize = 0;
    while i < base.len()
        invariant
            i <= base.len() <= path.len(),
            p == path.deep_view(),
            b == base.deep_view(),
            p.take(i as int) =~= b.take(i as int),
        decreases base.len() - i,
    {
        assert(p[i as int] == path[i as int]@ && b[i as int] == base[i as int]@);
        if !same_part(&path[i], &base[i]) {
            assert(p.take(b.len() as int)[i as int] != b[i as int]);
            return false;
        }
        assert(p.take(i + 1) =~= p.take(i as int).push(p[i as int]));
        assert(b.take(i + 1) =~= b.take(i as int).push(b[i as int]));
        i = i + 1;
    }
    assert(b.take(i as int) =~= b);
    true
}

/// Appends the normal form of `parts` to `out`, which holds the normal form
/// of `head`, the path that came before.
fn normalize_onto(out: Vec<PathPart>, parts: &Vec<PathPart>, head: Ghost<Seq<PathPartView>>) -> (r:
    Option<Vec<PathPart>>)
    requires
        normalized(head@) == Some(out.deep_view()),
    ensures
        match r {
            Some(done) => normalized(head@ + parts.deep_view()) == Some(done.deep_view()),
            None => normalized(head@ + parts.deep_view()) is None,
        },
{
    let ghost tail = parts.deep_view();
    let mut out = out;
    let mut i: usize = 0;
    assert(head@ + tail.take(0) =~= head@);
    while i < parts.len()
        invariant
            i <= parts.len(),
            tail == parts.deep_view(),
            normalized(head@ + tail.take(i as int)) == Some(out.deep_view()),
        decreases parts.len() - i,
    {
        let ghost before = out.deep_view();
        let ghost part = tail[i as int];
        let ghost seen = head@ + tail.take(i as int);
        let ghost grown = head@ + tail.take(i + 1);
        proof {
            assert(part == parts[i as int]@);
            assert(grown.drop_last() =~= seen);
            assert(grown.last() == part);
            assert(before.len() == out@.len());
            if out@.len() > 0 {
                assert(before.last() == out[out.len() - 1]@);
            }
        }
        match &parts[i] {
            PathPart::ParentDir => {
                let poppable = out.len() > 0 && match &out[out.len() - 1] {
                    PathPart::Normal(_) => true,
                    _ => false,
                };
                if !poppable {
                    proof {
                        assert(normalized(grown) is None);
                        lemma_failure_stays(grown, tail.skip(i + 1));
                        assert(grown + tail.skip(i + 1) =~= head@ + tail);
                    }
                    return None;
                }
                out.pop();
                assert(out.deep_view() =~= before.drop_last());
            },
            PathPart::CurDir => {},
            PathPart::Prefix(name) => {
                out.push(PathPart::Prefix(name.clone()));
                assert(out.deep_view() =~= before.push(part));
            },
            PathPart::RootDir => {
                out.push(PathPart::RootDir);
                assert(out.deep_view() =~= before.push(part));
            },
            PathPart::Normal(name) => {
                out.push(PathPart::Normal(name.clone()));
                assert(out.deep_view() =~= before.push(part));
            },
        }
        i = i + 1;
    }
    assert(tail.take(i as int) =~= tail);
    Some(out)
}

/// Once a path has left its start, no continuation brings it back.
proof fn lemma_failure_stays(head: Seq<PathPartView>, rest: Seq<PathPartView>)
    requires
        normalized(head) is None,
    ensures
        normalized(head + rest) is None,
    decreases rest.len(),
{
    if rest.len() == 0 {
        assert(head + rest =~= head);
    } else {
        lemma_failure_stays(head, rest.drop_last());
        assert((head + rest).drop_last() =~= head + rest.drop_last());
    }
}

/// A normal form holds no `.` and no `..`.
pub proof fn lemma_normalized_is_plain(parts: Seq<PathPartView>)
    requires
        normalized(parts) is Some,
    ensures
        forall|i: int|
            0 <= i < normalized(parts)->0.len() ==> !((#[trigger] normalized(parts)->0[i])
                is ParentDir) && !(normalized(parts)->0[i] is CurDir),
    decreases parts.len(),
{
    if parts.len() > 0 {
        lemma_normalized_is_plain(parts.drop_last());
    }
}

/// A path that is accepted lies inside its base: it begins with the
/// components of the base, and it holds no `.` and no `..` that could lead
/// out of it again.
pub proof fn lemma_within_is_inside(base: Seq<PathPartView>, relative: Seq<PathPartView>)
    requires
        path_within(base, relative) is Some,
    ensures
        starts_with(path_within(base, relative)->0, base),
        forall|i: int|
            0 <= i < path_within(base, relative)->0.len() ==> !((#[trigger] path_within(
                base,
                relative,
            )->0[i]) is ParentDir) && !(path_within(base, relative)->0[i] is CurDir),
{
    lemma_normalized_is_plain(joined_parts(base, relative));
}

/// Resolves `relative` against the directory `base` and checks that the
/// result stays inside `base`.
///
/// The path is joined to the base, its `.` components are dropped and each
/// `..` is resolved against the name before it. The result is returned when
/// every `..` had a name to leave and the resolved path begins with the
/// components of `base`; otherwise the path is refused as a traversal.
pub fn validate_path_within(base: &Vec<PathPart>, relative: &Vec<PathPart>) -> (r: Result<
    Vec<PathPart>,
    PathTraversal,
>)
    ensures
        match r {
            Ok(path) => path_within(base.deep_view(), relative.deep_view()) == Some(
                path.deep_view(),
            ),
            Err(_) => path_within(base.deep_view(), relative.deep_view()) is None,
        },
{
    let ghost b = base.deep_view();
    let ghost rel = relative.deep_view();
    let empty: Vec<PathPart> = Vec::new();
    let ghost nothing = Seq::<PathPartView>::empty();
    assert(empty.deep_view() =~= nothing);
    assert(normalized(nothing) == Some(nothing));
    let leading_prefix = relative.len() > 0 && match &relative[0] {
        PathPart::Prefix(_) => true,
        _ => false,
    };
    let leading_root = relative.len() > 0 && match &relative[0] {
        PathPart::RootDir => true,
        _ => false,
    };
    if relative.len() > 0 {
        assert(rel[0] == relative[0]@);
    }
    let resolved = if leading_prefix {
        assert(nothing + rel =~= joined_parts(b, rel));
        normalize_onto(empty, relative, Ghost(nothing))
    } else if leading_root {
        let keeps_prefix = base.len() > 0 && match &base[0] {
            PathPart::Prefix(_) => true,
            _ => false,
        };
        if keeps_prefix {
            assert(b[0] == base[0]@);
            let mut first: Vec<PathPart> = Vec::new();
            first.push(base[0].clone_part());
            let ghost kept = seq![b[0]];
            assert(first.deep_view() =~= kept);
            assert(normalized(kept) == Some(kept)) by {
                assert(kept.drop_last() =~= nothing);
                assert(nothing.push(b[0]) =~= kept);
            }
            assert(kept + rel =~= joined_parts(b, rel));
            normalize_onto(first, relative, Ghost(kept))
        } else {
            assert(nothing + rel =~= joined_parts(b, rel));
            normalize_onto(empty, relative, Ghost(nothing))
        }
    } else {
        assert(nothing + b =~= b);
        assert(b + rel =~= joined_parts(b, rel));
        match normalize_onto(empty, base, Ghost(nothing)) {
            Some(head) => normalize_onto(head, relative, Ghost(b)),
            None => {
                proof {
                    lemma_failure_stays(b, rel);
                }
                None
            },
        }
    };
    assert(match resolved {
        Some(path) => normalized(joined_parts(b, rel)) == Some(path.deep_view()),
        None => normalized(joined_parts(b, rel)) is None,
    });
    match resolved {
        Some(path) => {
            if begins_with(&path, base) {
                Ok(path)
            } else {
                Err(PathTraversal)
            }
        },
        None => Err(PathTraversal),
    }
}

impl PathPart {
    /// A copy of this component.
    pub fn clone_part(&self) -> (copy: PathPart)
        ensures
            copy@ == self@,
    {
        match self {
            PathPart::Prefix(name) => PathPart::Prefix(name.clone()),
            PathPart::RootDir => PathPart::RootDir,
            PathPart::CurDir => PathPart::CurDir,
            PathPart::ParentDir => PathPart::ParentDir,
            PathPart::Normal(name) => PathPart::Normal(name.clone()),
        }
    }
}

} // verus!
