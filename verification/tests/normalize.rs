use websim::utils::normalize_path;

#[test]
fn test_normalize_path() {
    // Root path should remain unchanged
    assert_eq!(normalize_path("/"), "/");

    // Paths with trailing slashes should have them removed
    assert_eq!(normalize_path("/apples/"), "/apples");
    assert_eq!(normalize_path("/a/b/c/"), "/a/b/c");
    assert_eq!(normalize_path("/foo/bar/"), "/foo/bar");
    assert_eq!(normalize_path("/test.html/"), "/test.html");

    // Paths without trailing slashes should remain unchanged
    assert_eq!(normalize_path("/apples"), "/apples");
    assert_eq!(normalize_path("/a/b/c"), "/a/b/c");
    assert_eq!(normalize_path("/test.html"), "/test.html");

    // Edge cases
    assert_eq!(normalize_path("/a/"), "/a");
    assert_eq!(normalize_path("/a"), "/a");
}

#[test]
fn test_normalize_path_collapses_repeated_trailing_slashes() {
    assert_eq!(normalize_path("//"), "/");
    assert_eq!(normalize_path("/a//"), "/a");
    assert_eq!(normalize_path("/a/b///"), "/a/b");
}

#[test]
fn test_normalize_path_is_idempotent() {
    for p in ["/", "/a/", "/a//", "/foo/bar/", "/x"] {
        let once = normalize_path(p);
        assert_eq!(normalize_path(once), once);
    }
}
