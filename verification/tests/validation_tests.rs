use portfolio_backend::validation::{validate_category, validate_slug, FaultKind};

#[test]
fn recognised_categories_pass() {
    assert!(validate_category("project").is_ok());
    assert!(validate_category("blog").is_ok());
    assert!(validate_category("page").is_ok());
}

#[test]
fn empty_category_is_invalid() {
    let e = validate_category("").unwrap_err();
    assert_eq!(e.kind(), FaultKind::InvalidCategory);
    assert_eq!(e.detail().as_str(), "Category cannot be empty");
    assert_eq!(e.to_text(), "Invalid category: Category cannot be empty");
}

#[test]
fn long_category_is_too_long() {
    let name = "a".repeat(51);
    let e = validate_category(&name).unwrap_err();
    assert_eq!(e.kind(), FaultKind::TooLong);
    assert_eq!(e.to_text(), "Input too long: Category name too long");
    let edge = "a".repeat(50);
    assert_eq!(validate_category(&edge).unwrap_err().kind(), FaultKind::InvalidCategory);
}

#[test]
fn category_with_traversal_is_refused() {
    for bad in ["project..test", "a/b", "a\\b", "..", "/"] {
        let e = validate_category(bad).unwrap_err();
        assert_eq!(e.kind(), FaultKind::PathTraversal);
        assert_eq!(
            e.to_text(),
            "Path traversal detected: Category contains path traversal characters"
        );
    }
}

#[test]
fn category_with_special_chars_is_refused() {
    let e = validate_category("test@category").unwrap_err();
    assert_eq!(e.kind(), FaultKind::InvalidCategory);
    assert!(e
        .to_text()
        .contains("must contain only letters, numbers, hyphens, and underscores"));
    assert_eq!(validate_category("pro.ject").unwrap_err().kind(), FaultKind::InvalidCategory);
    assert_eq!(validate_category("project\n").unwrap_err().kind(), FaultKind::InvalidCategory);
}

#[test]
fn category_outside_allow_list_is_refused() {
    let e = validate_category("invalid").unwrap_err();
    assert_eq!(e.kind(), FaultKind::InvalidCategory);
    assert_eq!(
        e.detail().as_str(),
        "Category 'invalid' not allowed. Allowed: [\"project\", \"blog\", \"page\"]"
    );
    assert!(validate_category("invalid-category").is_err());
    assert!(validate_category("Project").is_err());
}

#[test]
fn plain_slugs_pass() {
    assert!(validate_slug("test-project_1").is_ok());
    assert!(validate_slug("project1").is_ok());
    assert!(validate_slug("v1.2-notes").is_ok());
    assert!(validate_slug(&"s".repeat(100)).is_ok());
}

#[test]
fn empty_slug_is_invalid() {
    let e = validate_slug("").unwrap_err();
    assert_eq!(e.kind(), FaultKind::InvalidSlug);
    assert_eq!(e.to_text(), "Invalid slug: Slug cannot be empty");
}

#[test]
fn long_slug_is_too_long() {
    let e = validate_slug(&"s".repeat(101)).unwrap_err();
    assert_eq!(e.kind(), FaultKind::TooLong);
    assert_eq!(e.detail().as_str(), "Slug too long");
}

#[test]
fn slug_with_traversal_is_refused() {
    for bad in ["test..passwd", "a/b", "a\\b", "../etc"] {
        let e = validate_slug(bad).unwrap_err();
        assert_eq!(e.kind(), FaultKind::PathTraversal);
        assert!(e.to_text().contains("Path traversal"));
    }
}

#[test]
fn slug_with_control_characters_is_refused() {
    for bad in ["a\0b", "a\nb", "a\rb", "ab\n"] {
        let e = validate_slug(bad).unwrap_err();
        assert_eq!(e.kind(), FaultKind::InvalidSlug);
        assert_eq!(e.detail().as_str(), "Slug contains invalid characters");
    }
}

#[test]
fn slug_with_special_chars_is_refused() {
    let e = validate_slug("test@slug").unwrap_err();
    assert_eq!(e.kind(), FaultKind::InvalidSlug);
    assert!(e
        .to_text()
        .contains("must contain only letters, numbers, dots, hyphens, and underscores"));
    assert_eq!(validate_slug("caf\u{e9}").unwrap_err().kind(), FaultKind::InvalidSlug);
}

#[test]
fn slug_with_dot_at_either_end_is_refused() {
    for bad in [".hidden", "trailing.", "."] {
        let e = validate_slug(bad).unwrap_err();
        assert_eq!(e.kind(), FaultKind::InvalidSlug);
        assert!(e.to_text().contains("cannot start or end with dots"));
    }
}
