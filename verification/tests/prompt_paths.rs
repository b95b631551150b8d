use codex_core::paths::{
    join_paths, normalize_absolute_path, parent_path, path_below, path_beside, path_file_name,
    path_is_absolute, path_lies_in,
};
use codex_core::prompt_paths::{
    http_tool_gateway_enabled_from_env, prompt_cwd, prompt_cwd_for_gateway, LOGICAL_WORKSPACE_ROOT,
};
use std::path::{Component, Path, PathBuf};

#[test]
fn prompt_cwd_uses_real_cwd_without_gateway() {
    assert_eq!(prompt_cwd_for_gateway("/repo/project", false), "/repo/project");
}

#[test]
fn prompt_cwd_uses_workspace_with_gateway() {
    assert_eq!(prompt_cwd_for_gateway("/repo/project", true), LOGICAL_WORKSPACE_ROOT);
}

#[test]
fn gateways_are_enabled_by_an_address() {
    assert!(http_tool_gateway_enabled_from_env(Some("http://x")));
    assert!(!http_tool_gateway_enabled_from_env(Some("  ")));
    assert!(!http_tool_gateway_enabled_from_env(None));
    assert_eq!(prompt_cwd("/repo", Some("http://x")), "/workspace");
    assert_eq!(prompt_cwd("/repo", None), "/repo");
}

const PATHS: &[&str] = &[
    "", "/", "//", ".", "..", "a", "/a", "a/", "/a/", "/a/b", "/a//b", "/a/./b", "./a", "a/.",
    "a/..", "/a/../b", "/..", "/../a", "/a/b/c.txt", "a/b/../c", "/workspace", "/workspace/",
    "/workspace/x/y", "/workspacex", "x/./y//z/", "/a/b/..", "...", "/a/...",
];

#[test]
fn paths_are_taken_apart_as_the_standard_library_does() {
    for p in PATHS {
        let path = Path::new(p);
        assert_eq!(path_is_absolute(p), path.is_absolute(), "{p}");
        assert_eq!(
            path_file_name(p),
            path.file_name().map(|n| n.to_string_lossy().to_string()),
            "name of {p}"
        );
        assert_eq!(
            parent_path(p),
            path.parent().map(|n| n.to_string_lossy().to_string()),
            "parent of {p}"
        );
        assert_eq!(
            path_beside(p, "x.json"),
            path.with_file_name("x.json").to_string_lossy(),
            "beside {p}"
        );
        for q in PATHS {
            let other = Path::new(q);
            assert_eq!(join_paths(p, q), path.join(other).to_string_lossy(), "{p} and {q}");
            if path.is_absolute() && other.is_absolute() {
                assert_eq!(path_lies_in(p, q), path.starts_with(other), "{p} in {q}");
                assert_eq!(
                    path_below(p, q),
                    path.strip_prefix(other).ok().map(|r| r.to_string_lossy().to_string()),
                    "{p} below {q}"
                );
            }
        }
    }
}

#[test]
fn absolute_paths_are_normalized() {
    for p in PATHS.iter().filter(|p| p.starts_with('/')) {
        let mut expected = PathBuf::new();
        for component in Path::new(p).components() {
            match component {
                Component::ParentDir => {
                    expected.pop();
                }
                Component::CurDir => {}
                other => expected.push(other.as_os_str()),
            }
        }
        let normal = normalize_absolute_path(p);
        assert_eq!(normal, expected.to_string_lossy(), "{p}");
        assert_eq!(normalize_absolute_path(&normal), normal);
    }
}
