use slide_linker::paths::{validate_path_within, PathPart, PathTraversal};

fn parts(path: &str) -> Vec<PathPart> {
    std::path::Path::new(path)
        .components()
        .map(|c| match c {
            std::path::Component::Prefix(p) => {
                PathPart::Prefix(p.as_os_str().to_string_lossy().into_owned())
            }
            std::path::Component::RootDir => PathPart::RootDir,
            std::path::Component::CurDir => PathPart::CurDir,
            std::path::Component::ParentDir => PathPart::ParentDir,
            std::path::Component::Normal(n) => PathPart::Normal(n.to_string_lossy().into_owned()),
        })
        .collect()
}

fn text(parts: &[PathPart]) -> String {
    let mut out = std::path::PathBuf::new();
    for part in parts {
        match part {
            PathPart::Prefix(p) => out.push(p),
            PathPart::RootDir => out.push(std::path::MAIN_SEPARATOR_STR),
            PathPart::CurDir => out.push("."),
            PathPart::ParentDir => out.push(".."),
            PathPart::Normal(n) => out.push(n),
        }
    }
    out.to_string_lossy().into_owned()
}

fn within(base: &str, relative: &str) -> Result<String, PathTraversal> {
    validate_path_within(&parts(base), &parts(relative)).map(|p| text(&p))
}

#[test]
fn plain_relative_path_stays_inside() {
    assert_eq!(within("/proj", "slides/slide-001.png"), Ok("/proj/slides/slide-001.png".to_string()));
    assert_eq!(within("proj", "a.png"), Ok("proj/a.png".to_string()));
}

#[test]
fn dots_are_resolved() {
    assert_eq!(within("/proj", "./slides/./a.png"), Ok("/proj/slides/a.png".to_string()));
    assert_eq!(within("/proj", "slides/../slides/a.png"), Ok("/proj/slides/a.png".to_string()));
    assert_eq!(within("/proj", "a/b/../../c"), Ok("/proj/c".to_string()));
}

#[test]
fn empty_relative_path_is_the_base() {
    assert_eq!(within("/proj", ""), Ok("/proj".to_string()));
    assert_eq!(within("/proj", "."), Ok("/proj".to_string()));
}

#[test]
fn leaving_the_base_is_refused() {
    assert_eq!(within("/proj", "../secret"), Err(PathTraversal));
    assert_eq!(within("/proj", "slides/../../secret"), Err(PathTraversal));
    assert_eq!(within("/proj", ".."), Err(PathTraversal));
    assert_eq!(within("/proj/deck", "../deck2/a.png"), Err(PathTraversal));
}

#[test]
fn leaving_and_coming_back_is_accepted() {
    assert_eq!(within("/proj", "../proj/a.png"), Ok("/proj/a.png".to_string()));
}

#[test]
fn climbing_above_the_root_is_refused() {
    assert_eq!(within("/", ".."), Err(PathTraversal));
    assert_eq!(within("/proj", "../../x"), Err(PathTraversal));
    assert_eq!(within("proj", "../../x"), Err(PathTraversal));
}

#[test]
fn absolute_path_replaces_the_base() {
    assert_eq!(within("/proj", "/etc/passwd"), Err(PathTraversal));
    assert_eq!(within("/proj", "/proj/slides/a.png"), Ok("/proj/slides/a.png".to_string()));
}

#[test]
fn only_whole_components_match_the_base() {
    assert_eq!(within("/proj", "../project/a.png"), Err(PathTraversal));
}

#[test]
fn base_with_dots_never_matches() {
    // the resolved path holds no `..`, so it cannot begin with such a base
    assert_eq!(within("/a/../proj", "x"), Err(PathTraversal));
}

#[test]
fn prefix_of_the_relative_path_wins() {
    let base = vec![PathPart::Prefix("C:".to_string()), PathPart::RootDir, PathPart::Normal("proj".to_string())];
    let other = vec![PathPart::Prefix("D:".to_string()), PathPart::RootDir, PathPart::Normal("proj".to_string())];
    assert!(validate_path_within(&base, &other).is_err());
    let same = vec![
        PathPart::Prefix("C:".to_string()),
        PathPart::RootDir,
        PathPart::Normal("proj".to_string()),
        PathPart::Normal("a.png".to_string()),
    ];
    assert_eq!(validate_path_within(&base, &same).unwrap().len(), 4);
}

#[test]
fn rooted_relative_path_keeps_the_prefix_of_the_base() {
    let base = vec![PathPart::Prefix("C:".to_string()), PathPart::RootDir, PathPart::Normal("proj".to_string())];
    let inside = vec![PathPart::RootDir, PathPart::Normal("proj".to_string()), PathPart::Normal("a".to_string())];
    let out = validate_path_within(&base, &inside).unwrap();
    assert_eq!(out.len(), 4);
    assert!(matches!(&out[0], PathPart::Prefix(p) if p == "C:"));
    let outside = vec![PathPart::RootDir, PathPart::Normal("other".to_string())];
    assert!(validate_path_within(&base, &outside).is_err());
}

#[test]
fn agrees_with_pushing_and_popping_a_path_buffer() {
    let bases = ["/proj", "proj", "/", "/a/b", ""];
    let relatives = [
        "a", "a/b", "../a", "a/../b", "a/../../b", "./a", "..", ".", "", "/proj/x", "/a/b/c", "a/./b/..",
        "../proj", "../../a/b",
    ];
    for base in bases {
        for relative in relatives {
            let joined = std::path::Path::new(base).join(relative);
            let mut normal = std::path::PathBuf::new();
            let mut ok = true;
            for c in joined.components() {
                match c {
                    std::path::Component::ParentDir => {
                        if !normal.pop() {
                            ok = false;
                            break;
                        }
                    }
                    std::path::Component::Normal(n) => normal.push(n),
                    std::path::Component::RootDir => normal.push(std::path::MAIN_SEPARATOR_STR),
                    std::path::Component::Prefix(p) => normal.push(p.as_os_str()),
                    std::path::Component::CurDir => {}
                }
            }
            let expected = if ok && normal.starts_with(base) {
                Ok(normal.to_string_lossy().into_owned())
            } else {
                Err(PathTraversal)
            };
            assert_eq!(within(base, relative), expected, "{:?} {:?}", base, relative);
        }
    }
}

#[test]
fn refusal_names_the_path_as_given() {
    assert_eq!(PathTraversal.message("../secret"), "Path traversal detected: ../secret");
    assert_eq!(PathTraversal.message(""), "Path traversal detected: ");
    let refused = validate_path_within(&parts("/proj"), &parts("a/../../x")).unwrap_err();
    assert_eq!(refused.message("a/../../x"), "Path traversal detected: a/../../x");
}
