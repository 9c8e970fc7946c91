use scriptorium::config::WorkspaceConfig;
use scriptorium::error::Error;
use scriptorium::paths::{
    components_of, elements_of, extension_of, file_name_of, is_below, join_path, parent_of,
    relative_to, starts_at_root,
};
use scriptorium::workspace::{
    validate_workspace_id, ChownOutcome, EnsuredHome, HomeAccess, RemoveOutcome, WorkspaceManager,
};

fn manager(root: &str) -> WorkspaceManager {
    WorkspaceManager::new(WorkspaceConfig { root: root.to_string() })
}

fn resolve(id: &str, path: &str) -> Result<String, Error> {
    manager("/srv/ws").resolve_path(id, path)
}

#[test]
fn accepts_sane_ids() {
    for id in ["abc", "A-B_C", "01234567890abcdef", "x"] {
        validate_workspace_id(id).unwrap_or_else(|_| panic!("should accept `{id}`"));
    }
}

#[test]
fn rejects_bad_ids() {
    for id in [
        "",
        "..",
        "/a",
        "a/b",
        "a\\b",
        "a..b",
        "a\0b",
        "a b",
        "a.b",
        // 129 chars, just over the cap.
        &"x".repeat(129),
    ] {
        assert!(validate_workspace_id(id).is_err(), "should reject `{id}`");
    }
}

#[test]
fn longest_id_is_accepted() {
    assert!(validate_workspace_id(&"x".repeat(128)).is_ok());
    assert_eq!(validate_workspace_id("é"), Err(Error::InvalidWorkspaceId));
}

#[test]
fn directories_are_laid_out_under_the_root() {
    let m = manager("/srv/ws");
    assert_eq!(m.workspace_dir("a1").unwrap(), "/srv/ws/a1");
    assert_eq!(m.home_dir("a1").unwrap(), "/srv/ws/a1/home");
    assert_eq!(m.workspace_dir("../etc"), Err(Error::InvalidWorkspaceId));
    assert_eq!(m.home_dir(""), Err(Error::InvalidWorkspaceId));
    assert_eq!(manager("/srv/ws/").home_dir("a1").unwrap(), "/srv/ws/a1/home");
}

#[test]
fn paths_inside_resolve() {
    assert_eq!(resolve("w", "").unwrap(), "/srv/ws/w/home");
    assert_eq!(resolve("w", "a/b.txt").unwrap(), "/srv/ws/w/home/a/b.txt");
    assert_eq!(resolve("w", "./a//b/../c").unwrap(), "/srv/ws/w/home/a/c");
    assert_eq!(resolve("w", "../home/x").unwrap(), "/srv/ws/w/home/x");
    assert_eq!(resolve("w", "/srv/ws/w/home/y").unwrap(), "/srv/ws/w/home/y");
}

#[test]
fn paths_that_lead_out_are_refused() {
    for path in ["..", "../x", "a/../../x", "/etc/passwd", "../homer", "/srv/ws/w"] {
        assert_eq!(resolve("w", path), Err(Error::PathEscape(path.to_string())));
    }
    assert_eq!(resolve("../w", "x"), Err(Error::InvalidWorkspaceId));
}

#[test]
fn resolved_paths_resolve_to_themselves() {
    for path in ["", "a", "a/../b", "./x/y/"] {
        let first = resolve("w", path).unwrap();
        assert_eq!(resolve("w", &first).unwrap(), first);
    }
}

#[test]
fn workspaces_never_share_a_path() {
    let a = resolve("a", "x/y").unwrap();
    let b = resolve("b", "x/y").unwrap();
    assert_ne!(a, b);
    assert_eq!(resolve("b", &a), Err(Error::PathEscape(a.clone())));
}

#[test]
fn home_is_opened_where_it_cannot_be_given_away() {
    let m = manager("/srv/ws");
    let home = |access| Ok(EnsuredHome { path: "/srv/ws/w/home".to_string(), access });
    assert_eq!(m.ensure_home("w", ChownOutcome::Done), home(HomeAccess::Owned));
    assert_eq!(m.ensure_home("w", ChownOutcome::Denied), home(HomeAccess::OpenToAll));
    assert_eq!(
        m.ensure_home("w", ChownOutcome::Failed("disk".to_string())),
        Err(Error::Io("disk".to_string()))
    );
    assert_eq!(m.ensure_home("w/", ChownOutcome::Done), Err(Error::InvalidWorkspaceId));
}

#[test]
fn deletion_says_whether_there_was_one() {
    let m = manager("/srv/ws");
    assert_eq!(m.delete("w", RemoveOutcome::Removed), Ok(true));
    assert_eq!(m.delete("w", RemoveOutcome::NotFound), Ok(false));
    assert_eq!(
        m.delete("w", RemoveOutcome::Failed("busy".to_string())),
        Err(Error::Io("busy".to_string()))
    );
    assert_eq!(m.delete("", RemoveOutcome::NotFound), Err(Error::InvalidWorkspaceId));
}

#[test]
fn path_functions_agree_with_the_standard_library() {
    let paths = [
        "", "/", ".", "..", "a", "a/", "/a", "a/b", "/a/b/", "./a", "a/./b", "a//b", "../a", "a/..",
        "/..", "x.tar.gz", ".hidden", ".hidden.txt", "dir.d/file", "a.", "/a/b.txt", "./", "./.",
        "/h", "/h/a//b", "/h/./a/.//b//", "//a", "//a/b", "/./a/b", ".//a/b", "././a", "/.", "//",
        "..a", "a/..b", "a/.b", "./.b", "a/../b", "a//../b", "a/b//", "a/b/.", "h//a/./", "...",
    ];
    let text = |p: &std::path::Path| p.to_string_lossy().into_owned();
    for p in paths {
        let path = std::path::Path::new(p);
        assert_eq!(starts_at_root(p), path.is_absolute(), "absolute {p}");
        assert_eq!(
            file_name_of(p),
            path.file_name().map(|n| n.to_string_lossy().into_owned()),
            "name of {p}"
        );
        assert_eq!(
            extension_of(p),
            path.extension().map(|n| n.to_string_lossy().into_owned()),
            "extension of {p}"
        );
        assert_eq!(
            parent_of(p),
            path.parent().map(text),
            "parent of {p}"
        );
        let components: Vec<String> = path
            .components()
            .map(|c| c.as_os_str().to_string_lossy().into_owned())
            .collect();
        assert_eq!(components_of(p), components, "components of {p}");
        for q in paths {
            let other = std::path::Path::new(q);
            assert_eq!(is_below(p, q), path.starts_with(other), "{p} below {q}");
            assert_eq!(join_path(p, q), text(&path.join(other)), "{p} joined {q}");
            assert_eq!(
                relative_to(q, p),
                text(path.strip_prefix(other).unwrap_or(path)),
                "{p} seen from {q}"
            );
        }
    }
}

#[test]
fn what_is_left_of_a_path_keeps_its_spelling() {
    assert_eq!(relative_to("/h", "/h/a//b"), "a//b");
    assert_eq!(relative_to("/h", "/h/./a/./b/."), "a/./b");
    assert_eq!(relative_to("/h", "/h//"), "");
    assert_eq!(relative_to("/h/x", "/h/a//b/"), "/h/a//b/");
    assert_eq!(parent_of("//a//b/./c"), Some("//a//b".to_string()));
    assert_eq!(parent_of("/h/"), Some("/".to_string()));
    assert_eq!(parent_of("a"), Some(String::new()));
    assert_eq!(parent_of("/"), None);
    assert_eq!(parent_of(""), None);
}

#[test]
fn elements_leave_out_what_leads_nowhere() {
    assert_eq!(elements_of("/a//./b/../c/"), ["a", "b", "..", "c"]);
    assert!(elements_of("./.").is_empty());
}
