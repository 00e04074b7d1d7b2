//! Validation of untrusted category names and slugs.
//!
//! A name that passes holds no separator and no traversal token, so joining
//! it onto a root cannot leave the root.

use vstd::prelude::*;
use crate::text::{append_chars, append_str, chars_of, contains_char, contains_chars, contains_seq,
    ends_with, has_prefix, has_suffix, same_chars, starts_with, string_of};

verus! {

/// The ways in which a name can be refused.
#[derive(Clone, Copy, Debug, PartialEq, Eq, Structural)]
pub enum FaultKind {
    InvalidCategory,
    InvalidSlug,
    PathTraversal,
    TooLong,
}

/// Why a category, slug or path was refused, with a readable cause.
#[derive(Debug)]
pub enum ValidationError {
    InvalidCategory(String),
    InvalidSlug(String),
    PathTraversal(String),
    TooLong(String),
}

impl View for ValidationError {
    type V = (FaultKind, Seq<char>);

    open spec fn view(&self) -> (FaultKind, Seq<char>) {
        match self {
            ValidationError::InvalidCategory(m) => (FaultKind::InvalidCategory, m@),
            ValidationError::InvalidSlug(m) => (FaultKind::InvalidSlug, m@),
            ValidationError::PathTraversal(m) => (FaultKind::PathTraversal, m@),
            ValidationError::TooLong(m) => (FaultKind::TooLong, m@),
        }
    }
}

/// The heading under which a fault of the given kind is reported.
pub open spec fn fault_heading(kind: FaultKind) -> Seq<char> {
    match kind {
        FaultKind::InvalidCategory => "Invalid category: "@,
        FaultKind::InvalidSlug => "Invalid slug: "@,
        FaultKind::PathTraversal => "Path traversal detected: "@,
        FaultKind::TooLong => "Input too long: "@,
    }
}

impl ValidationError {
    /// The kind of the fault.
    pub fn kind(&self) -> (k: FaultKind)
        ensures
            k == self@.0,
    {
        match self {
            ValidationError::InvalidCategory(_) => FaultKind::InvalidCategory,
            ValidationError::InvalidSlug(_) => FaultKind::InvalidSlug,
            ValidationError::PathTraversal(_) => FaultKind::PathTraversal,
            ValidationError::TooLong(_) => FaultKind::TooLong,
        }
    }

    /// The cause, without the heading.
    pub fn detail(&self) -> (m: &String)
        ensures
            m@ == self@.1,
    {
        match self {
            ValidationError::InvalidCategory(m) => m,
            ValidationError::InvalidSlug(m) => m,
            ValidationError::PathTraversal(m) => m,
            ValidationError::TooLong(m) => m,
        }
    }

    /// The fault as one line of text: the heading of its kind, then the cause.
    pub fn to_text(&self) -> (s: String)
        ensures
            s@ == fault_heading(self@.0) + self@.1,
    {
        let mut out: Vec<char> = Vec::new();
        match self {
            ValidationError::InvalidCategory(_) => append_str(&mut out, "Invalid category: "),
            ValidationError::InvalidSlug(_) => append_str(&mut out, "Invalid slug: "),
            ValidationError::PathTraversal(_) => append_str(&mut out, "Path traversal detected: "),
            ValidationError::TooLong(_) => append_str(&mut out, "Input too long: "),
        }
        append_str(&mut out, self.detail().as_str());
        string_of(out.as_slice())
    }
}

/// A letter, a digit, a hyphen or an underscore.
pub open spec fn is_category_char(c: char) -> bool {
    ('a' <= c && c <= 'z') || ('A' <= c && c <= 'Z') || ('0' <= c && c <= '9') || c == '_' || c
        == '-'
}

/// A category character or a dot.
pub open spec fn is_slug_char(c: char) -> bool {
    is_category_char(c) || c == '.'
}

/// `s` is not empty and holds category characters only.
pub open spec fn is_category_word(s: Seq<char>) -> bool {
    s.len() > 0 && forall|i: int| 0 <= i < s.len() ==> is_category_char(#[trigger] s[i])
}

/// `s` is not empty and holds slug characters only.
pub open spec fn is_slug_word(s: Seq<char>) -> bool {
    s.len() > 0 && forall|i: int| 0 <= i < s.len() ==> is_slug_char(#[trigger] s[i])
}

/// `s` holds two dots in a row, a slash or a backslash.
pub open spec fn has_traversal(s: Seq<char>) -> bool {
    contains_seq(s, ".."@) || s.contains('/') || s.contains('\\')
}

/// `s` holds a NUL, a line feed or a carriage return.
pub open spec fn has_control(s: Seq<char>) -> bool {
    s.contains('\0') || s.contains('\n') || s.contains('\r')
}

/// The recognised content categories.
pub open spec fn is_allowed_category(s: Seq<char>) -> bool {
    s == "project"@ || s == "blog"@ || s == "page"@
}

/// The regular expression that a category must match.
pub open spec fn category_pattern() -> Seq<char> {
    "^[a-zA-Z0-9_-]+$"@
}

/// The regular expression that a slug must match.
pub open spec fn slug_pattern() -> Seq<char> {
    "^[a-zA-Z0-9._-]+$"@
}

/// The verdict on a category: accepted, or the fault it is refused with.
pub open spec fn category_check(c: Seq<char>) -> Result<(), (FaultKind, Seq<char>)> {
    if c.len() == 0 {
        Err((FaultKind::InvalidCategory, "Category cannot be empty"@))
    } else if c.len() > 50 {
        Err((FaultKind::TooLong, "Category name too long"@))
    } else if has_traversal(c) {
        Err((FaultKind::PathTraversal, "Category contains path traversal characters"@))
    } else if !is_category_word(c) {
        Err(
            (
                FaultKind::InvalidCategory,
                "Category must contain only letters, numbers, hyphens, and underscores"@,
            ),
        )
    } else if !is_allowed_category(c) {
        Err(
            (
                FaultKind::InvalidCategory,
                "Category '"@ + c + "' not allowed. Allowed: [\"project\", \"blog\", \"page\"]"@,
            ),
        )
    } else {
        Ok(())
    }
}

/// The verdict on a slug: accepted, or the fault it is refused with.
pub open spec fn slug_check(s: Seq<char>) -> Result<(), (FaultKind, Seq<char>)> {
    if s.len() == 0 {
        Err((FaultKind::InvalidSlug, "Slug cannot be empty"@))
    } else if s.len() > 100 {
        Err((FaultKind::TooLong, "Slug too long"@))
    } else if has_traversal(s) {
        Err((FaultKind::PathTraversal, "Slug contains path traversal characters"@))
    } else if has_control(s) {
        Err((FaultKind::InvalidSlug, "Slug contains invalid characters"@))
    } else if !is_slug_word(s) {
        Err(
            (
                FaultKind::InvalidSlug,
                "Slug must contain only letters, numbers, dots, hyphens, and underscores"@,
            ),
        )
    } else if starts_with(s, "."@) || ends_with(s, "."@) {
        Err((FaultKind::InvalidSlug, "Slug cannot start or end with dots"@))
    } else {
        Ok(())
    }
}

/// A verdict of a validator agrees with the verdict of the rule.
pub open spec fn verdict_is(
    r: Result<(), ValidationError>,
    rule: Result<(), (FaultKind, Seq<char>)>,
) -> bool {
    match r {
        Ok(_) => rule is Ok,
        Err(e) => rule == Err::<(), (FaultKind, Seq<char>)>(e@),
    }
}

/// Matches `text` against `pattern` with `regex::Regex::is_match`, on a
/// pattern compiled by `regex::Regex::new`. The two patterns admitted are
/// anchored at both ends and repeat one class of ASCII characters at least
/// once, so a text matches when it is not empty and every character of it
/// belongs to the class.
#[verifier::external_body]
fn regex_is_match(pattern: &str, text: &str) -> (r: bool)
    requires
        pattern@ == category_pattern() || pattern@ == slug_pattern(),
    ensures
        pattern@ == category_pattern() ==> r == is_category_word(text@),
        pattern@ == slug_pattern() ==> r == is_slug_word(text@),
{
    regex::Regex::new(pattern).unwrap().is_match(text)
}

/// Tells whether `s` holds a traversal token.
fn holds_traversal(s: &[char]) -> (r: bool)
    ensures
        r == has_traversal(s@),
{
    let dots = chars_of("..");
    contains_chars(s, dots.as_slice()) || contains_char(s, '/') || contains_char(s, '\\')
}

/// Checks a category name: not empty, at most 50 characters, free of
/// traversal tokens, made of letters, digits, hyphens and underscores, and
/// one of the recognised categories.
pub fn validate_category(category: &str) -> (r: Result<(), ValidationError>)
    ensures
        verdict_is(r, category_check(category@)),
{
    let c = chars_of(category);
    if c.len() == 0 {
        return Err(
            ValidationError::InvalidCategory(String::from_str("Category cannot be empty")),
        );
    }
    if c.len() > 50 {
        return Err(ValidationError::TooLong(String::from_str("Category name too long")));
    }
    if holds_traversal(c.as_slice()) {
        return Err(
            ValidationError::PathTraversal(
                String::from_str("Category contains path traversal characters"),
            ),
        );
    }
    if !regex_is_match("^[a-zA-Z0-9_-]+$", category) {
        return Err(
            ValidationError::InvalidCategory(
                String::from_str(
                    "Category must contain only letters, numbers, hyphens, and underscores",
                ),
            ),
        );
    }
    let project = chars_of("project");
    let blog = chars_of("blog");
    let page = chars_of("page");
    if !(same_chars(c.as_slice(), project.as_slice()) || same_chars(c.as_slice(), blog.as_slice())
        || same_chars(c.as_slice(), page.as_slice())) {
        let mut msg: Vec<char> = Vec::new();
        append_str(&mut msg, "Category '");
        append_chars(&mut msg, c.as_slice());
        append_str(&mut msg, "' not allowed. Allowed: [\"project\", \"blog\", \"page\"]");
        return Err(ValidationError::InvalidCategory(string_of(msg.as_slice())));
    }
    Ok(())
}

/// Checks a slug: not empty, at most 100 characters, free of traversal
/// tokens and control characters, made of letters, digits, dots, hyphens and
/// underscores, with no dot at either end.
pub fn validate_slug(slug: &str) -> (r: Result<(), ValidationError>)
    ensures
        verdict_is(r, slug_check(slug@)),
{
    let s = chars_of(slug);
    if s.len() == 0 {
        return Err(ValidationError::InvalidSlug(String::from_str("Slug cannot be empty")));
    }
    if s.len() > 100 {
        return Err(ValidationError::TooLong(String::from_str("Slug too long")));
    }
    if holds_traversal(s.as_slice()) {
        return Err(
            ValidationError::PathTraversal(
                String::from_str("Slug contains path traversal characters"),
            ),
        );
    }
    if contains_char(s.as_slice(), '\0') || contains_char(s.as_slice(), '\n') || contains_char(
        s.as_slice(),
        '\r',
    ) {
        return Err(
            ValidationError::InvalidSlug(String::from_str("Slug contains invalid characters")),
        );
    }
    if !regex_is_match("^[a-zA-Z0-9._-]+$", slug) {
        return Err(
            ValidationError::InvalidSlug(
                String::from_str(
                    "Slug must contain only letters, numbers, dots, hyphens, and underscores",
                ),
            ),
        );
    }
    let dot = chars_of(".");
    if has_prefix(s.as_slice(), dot.as_slice()) || has_suffix(s.as_slice(), dot.as_slice()) {
        return Err(
            ValidationError::InvalidSlug(String::from_str("Slug cannot start or end with dots")),
        );
    }
    Ok(())
}

/// A category that holds a traversal token, a character outside the allowed
/// set, or a name outside the recognised categories is refused; unless it is
/// longer than 50 characters, the fault is `InvalidCategory` or
/// `PathTraversal`.
pub proof fn lemma_unsafe_category_refused(c: Seq<char>)
    requires
        has_traversal(c) || !is_category_word(c) || !is_allowed_category(c),
    ensures
        category_check(c) is Err,
        c.len() <= 50 ==> category_check(c)->Err_0.0 == FaultKind::InvalidCategory
            || category_check(c)->Err_0.0 == FaultKind::PathTraversal,
{
}

/// A slug that holds a traversal token or a control character, or that
/// begins or ends with a dot, is refused.
pub proof fn lemma_unsafe_slug_refused(s: Seq<char>)
    requires
        has_traversal(s) || has_control(s) || starts_with(s, "."@) || ends_with(s, "."@),
    ensures
        slug_check(s) is Err,
{
}

/// An accepted category is one of the recognised names, and an accepted
/// slug holds no separator, no traversal token and no dot at either end.
pub proof fn lemma_accepted_names_are_plain(c: Seq<char>, s: Seq<char>)
    ensures
        category_check(c) is Ok <==> is_allowed_category(c),
        slug_check(s) is Ok ==> !s.contains('/') && !s.contains('\\') && !contains_seq(s, ".."@)
            && s.len() <= 100,
{
    reveal_strlit("project");
    reveal_strlit("blog");
    reveal_strlit("page");
    reveal_strlit("..");
    if is_allowed_category(c) {
        assert(is_category_word(c));
        assert(!c.contains('/')) by {
            if c.contains('/') {
                let i = choose|i: int| 0 <= i < c.len() && c[i] == '/';
            }
        }
        assert(!c.contains('\\')) by {
            if c.contains('\\') {
                let i = choose|i: int| 0 <= i < c.len() && c[i] == '\\';
            }
        }
        assert(!contains_seq(c, ".."@)) by {
            if contains_seq(c, ".."@) {
                let i = choose|i: int| crate::text::occurs_at(c, ".."@, i);
                assert(c.subrange(i, i + 2)[0] == '.');
                assert(c[i] == '.');
            }
        }
    }
}

} // verus!
