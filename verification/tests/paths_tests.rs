use portfolio_backend::paths::{
    content_path_candidate, create_safe_content_path, create_safe_file_path,
    file_path_candidate, lies_within,
};
use portfolio_backend::validation::FaultKind;

#[test]
fn content_candidate_joins_category_and_slug() {
    assert_eq!(
        content_path_candidate("/srv/content", "blog", Some("hello")).unwrap(),
        "/srv/content/blog/hello.md"
    );
    assert_eq!(
        content_path_candidate("/srv/content", "project", None).unwrap(),
        "/srv/content/project"
    );
}

#[test]
fn content_candidate_reports_the_first_fault() {
    let e = content_path_candidate("/srv", "nope", Some("../x")).unwrap_err();
    assert_eq!(e.kind(), FaultKind::InvalidCategory);
    let e = content_path_candidate("/srv", "blog", Some("../x")).unwrap_err();
    assert_eq!(e.kind(), FaultKind::PathTraversal);
    let e = content_path_candidate("/srv", "blog", Some(".x")).unwrap_err();
    assert_eq!(e.kind(), FaultKind::InvalidSlug);
}

#[test]
fn content_path_needs_a_canonical_root() {
    let e = create_safe_content_path("/srv", "blog", Some("a"), None, None).unwrap_err();
    assert_eq!(e.kind(), FaultKind::PathTraversal);
    assert_eq!(e.detail().as_str(), "Invalid content base path");
}

#[test]
fn content_path_without_canonical_target_rests_on_syntax() {
    let p = create_safe_content_path("/srv", "blog", Some("new-post"), Some("/srv"), None);
    assert_eq!(p.unwrap(), "/srv/blog/new-post.md");
}

#[test]
fn content_path_that_escapes_is_refused() {
    let e = create_safe_content_path(
        "/srv",
        "blog",
        Some("a"),
        Some("/srv"),
        Some("/etc/passwd"),
    )
    .unwrap_err();
    assert_eq!(e.kind(), FaultKind::PathTraversal);
    assert_eq!(e.detail().as_str(), "Path escapes content directory");
    let p = create_safe_content_path(
        "/srv",
        "blog",
        Some("a"),
        Some("/srv"),
        Some("/srv/blog/a.md"),
    );
    assert_eq!(p.unwrap(), "/srv/blog/a.md");
}

#[test]
fn containment_goes_by_components() {
    assert!(lies_within("/srv/content", "/srv/content"));
    assert!(lies_within("/srv/content/blog", "/srv/content"));
    assert!(!lies_within("/srv/content-old/x", "/srv/content"));
    assert!(!lies_within("/srv", "/srv/content"));
    assert!(lies_within("/etc", "/"));
}

#[test]
fn file_candidate_drops_one_leading_slash() {
    assert_eq!(file_path_candidate("/srv", "/blog/a.md").unwrap(), "/srv/blog/a.md");
    assert_eq!(file_path_candidate("/srv", "blog/a.md").unwrap(), "/srv/blog/a.md");
    assert_eq!(file_path_candidate("/srv", "").unwrap(), "/srv");
    assert_eq!(file_path_candidate("/srv", "/").unwrap(), "/srv");
}

#[test]
fn file_candidate_refuses_traversal_and_nul() {
    for bad in ["../x", "a/../b", "a\0b", ".."] {
        let e = file_path_candidate("/srv", bad).unwrap_err();
        assert_eq!(e.kind(), FaultKind::PathTraversal);
        assert_eq!(e.detail().as_str(), "Path contains dangerous characters");
    }
}

#[test]
fn file_path_checks_the_canonical_forms() {
    let e = create_safe_file_path("/srv", "a", None, None).unwrap_err();
    assert_eq!(e.detail().as_str(), "Invalid base path");
    let e = create_safe_file_path("/srv", "link", Some("/srv"), Some("/home/x")).unwrap_err();
    assert_eq!(e.detail().as_str(), "Path escapes base directory");
    assert_eq!(
        create_safe_file_path("/srv", "a/b", Some("/srv"), Some("/srv/a/b")).unwrap(),
        "/srv/a/b"
    );
    assert_eq!(create_safe_file_path("/srv", "new", Some("/srv"), None).unwrap(), "/srv/new");
}
