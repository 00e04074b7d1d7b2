//! Resolution of validated names to locations under a root.
//!
//! Confinement is checked in two layers. The syntactic layer refuses
//! traversal tokens before a path is built. The canonical layer compares the
//! canonical forms of the root and of the candidate, which the caller obtains
//! from the filesystem; where the candidate has no canonical form yet, the
//! syntactic layer alone decides.

use vstd::prelude::*;
use crate::text::{append_chars, append_str, chars_of, contains_char, contains_chars, contains_seq,
    has_prefix, has_suffix, slice_chars, starts_with, ends_with, string_of};
use crate::validation::{category_check, slug_check, validate_category, validate_slug, FaultKind,
    ValidationError};

verus! {

/// The location of a category directory under `base`, or of the document
/// `filename` in it.
pub open spec fn content_path(
    base: Seq<char>,
    category: Seq<char>,
    filename: Option<Seq<char>>,
) -> Seq<char> {
    match filename {
        None => base + "/"@ + category,
        Some(f) => base + "/"@ + category + "/"@ + f + ".md"@,
    }
}

/// The syntactic layer for content: the category and, where given, the
/// slug are checked in that order, and the path is built from them.
pub open spec fn content_candidate(
    base: Seq<char>,
    category: Seq<char>,
    filename: Option<Seq<char>>,
) -> Result<Seq<char>, (FaultKind, Seq<char>)> {
    match category_check(category) {
        Err(fault) => Err(fault),
        Ok(_) => match filename {
            None => Ok(content_path(base, category, filename)),
            Some(f) => match slug_check(f) {
                Err(fault) => Err(fault),
                Ok(_) => Ok(content_path(base, category, filename)),
            },
        },
    }
}

/// `rel` without one leading slash.
pub open spec fn without_leading_slash(rel: Seq<char>) -> Seq<char> {
    if starts_with(rel, "/"@) {
        rel.subrange(1, rel.len() as int)
    } else {
        rel
    }
}

/// The location of `rel` under `base`: one leading slash of `rel` is
/// dropped, and what is left is joined onto `base`.
pub open spec fn file_path(base: Seq<char>, rel: Seq<char>) -> Seq<char> {
    if without_leading_slash(rel).len() == 0 {
        base
    } else {
        base + "/"@ + without_leading_slash(rel)
    }
}

/// The syntactic layer for files: a relative path with two dots in a row
/// or a NUL is refused.
pub open spec fn file_candidate(base: Seq<char>, rel: Seq<char>) -> Result<
    Seq<char>,
    (FaultKind, Seq<char>),
> {
    if contains_seq(rel, ".."@) || rel.contains('\0') {
        Err((FaultKind::PathTraversal, "Path contains dangerous characters"@))
    } else {
        Ok(file_path(base, rel))
    }
}

/// The canonical location `target` lies at or under the canonical location
/// `root`: `root` is a prefix of `target` that ends where a component ends.
pub open spec fn is_within(target: Seq<char>, root: Seq<char>) -> bool {
    starts_with(target, root) && (target.len() == root.len() || ends_with(root, "/"@)
        || target[root.len() as int] == '/')
}

/// The canonical layer: the root must have a canonical form, and the
/// candidate's canonical form, where it has one, must lie within it.
pub open spec fn confined(
    path: Seq<char>,
    canonical_root: Option<Seq<char>>,
    canonical_target: Option<Seq<char>>,
    no_root: Seq<char>,
    escapes: Seq<char>,
) -> Result<Seq<char>, (FaultKind, Seq<char>)> {
    match canonical_root {
        None => Err((FaultKind::PathTraversal, no_root)),
        Some(root) => match canonical_target {
            Some(target) if !is_within(target, root) => Err((FaultKind::PathTraversal, escapes)),
            _ => Ok(path),
        },
    }
}

/// Both layers for content.
pub open spec fn safe_content_path(
    base: Seq<char>,
    category: Seq<char>,
    filename: Option<Seq<char>>,
    canonical_root: Option<Seq<char>>,
    canonical_target: Option<Seq<char>>,
) -> Result<Seq<char>, (FaultKind, Seq<char>)> {
    match content_candidate(base, category, filename) {
        Err(fault) => Err(fault),
        Ok(path) => confined(
            path,
            canonical_root,
            canonical_target,
            "Invalid content base path"@,
            "Path escapes content directory"@,
        ),
    }
}

/// Both layers for files.
pub open spec fn safe_file_path(
    base: Seq<char>,
    rel: Seq<char>,
    canonical_root: Option<Seq<char>>,
    canonical_target: Option<Seq<char>>,
) -> Result<Seq<char>, (FaultKind, Seq<char>)> {
    match file_candidate(base, rel) {
        Err(fault) => Err(fault),
        Ok(path) => confined(
            path,
            canonical_root,
            canonical_target,
            "Invalid base path"@,
            "Path escapes base directory"@,
        ),
    }
}

/// The view of an optional string.
pub open spec fn opt_view(s: Option<&str>) -> Option<Seq<char>> {
    match s {
        None => None,
        Some(t) => Some(t@),
    }
}

/// A path or a fault agrees with the verdict of the rule.
pub open spec fn path_is(
    r: Result<String, ValidationError>,
    rule: Result<Seq<char>, (FaultKind, Seq<char>)>,
) -> bool {
    match r {
        Ok(p) => rule == Ok::<Seq<char>, (FaultKind, Seq<char>)>(p@),
        Err(e) => rule == Err::<Seq<char>, (FaultKind, Seq<char>)>(e@),
    }
}

/// Tells whether the canonical location `target` lies at or under `root`.
pub fn lies_within(target: &str, root: &str) -> (r: bool)
    ensures
        r == is_within(target@, root@),
{
    let t = chars_of(target);
    let b = chars_of(root);
    if !has_prefix(t.as_slice(), b.as_slice()) {
        return false;
    }
    let slash = chars_of("/");
    proof {
        reveal_strlit("/");
    }
    t.len() == b.len() || has_suffix(b.as_slice(), slash.as_slice()) || t[b.len()] == '/'
}

/// The syntactic layer for content: validates the category and the slug and
/// builds the path that the caller is to canonicalize.
pub fn content_path_candidate(content_base: &str, category: &str, filename: Option<&str>) -> (r:
    Result<String, ValidationError>)
    ensures
        path_is(r, content_candidate(content_base@, category@, opt_view(filename))),
{
    match validate_category(category) {
        Err(e) => {
            return Err(e);
        },
        Ok(_) => {},
    }
    let mut path: Vec<char> = Vec::new();
    append_str(&mut path, content_base);
    append_str(&mut path, "/");
    append_str(&mut path, category);
    match filename {
        None => {},
        Some(file) => {
            match validate_slug(file) {
                Err(e) => {
                    return Err(e);
                },
                Ok(_) => {},
            }
            append_str(&mut path, "/");
            append_str(&mut path, file);
            append_str(&mut path, ".md");
        },
    }
    Ok(string_of(path.as_slice()))
}

/// The syntactic layer for files: refuses traversal tokens and NUL, drops
/// one leading slash and joins the rest onto the base.
pub fn file_path_candidate(base_path: &str, relative_path: &str) -> (r: Result<
    String,
    ValidationError,
>)
    ensures
        path_is(r, file_candidate(base_path@, relative_path@)),
{
    let rel = chars_of(relative_path);
    let dots = chars_of("..");
    if contains_chars(rel.as_slice(), dots.as_slice()) || contains_char(rel.as_slice(), '\0') {
        return Err(
            ValidationError::PathTraversal(String::from_str("Path contains dangerous characters")),
        );
    }
    let slash = chars_of("/");
    proof {
        reveal_strlit("/");
    }
    let clean = if has_prefix(rel.as_slice(), slash.as_slice()) {
        slice_chars(rel.as_slice(), 1, rel.len())
    } else {
        rel
    };
    let mut path: Vec<char> = Vec::new();
    append_str(&mut path, base_path);
    if clean.len() > 0 {
        append_str(&mut path, "/");
        append_chars(&mut path, clean.as_slice());
    }
    proof {
        assert(Seq::<char>::empty() + base_path@ =~= base_path@);
    }
    Ok(string_of(path.as_slice()))
}

/// The canonical layer, on a path that passed the syntactic one.
fn confine(
    path: String,
    canonical_root: Option<&str>,
    canonical_target: Option<&str>,
    no_root: &str,
    escapes: &str,
) -> (r: Result<String, ValidationError>)
    ensures
        path_is(
            r,
            confined(path@, opt_view(canonical_root), opt_view(canonical_target), no_root@, escapes@),
        ),
{
    match canonical_root {
        None => Err(ValidationError::PathTraversal(String::from_str(no_root))),
        Some(root) => {
            match canonical_target {
                Some(target) => {
                    if !lies_within(target, root) {
                        return Err(ValidationError::PathTraversal(String::from_str(escapes)));
                    }
                },
                None => {},
            }
            Ok(path)
        },
    }
}

/// Resolves a category and, where given, a slug to a location under the
/// content root. `canonical_base` and `canonical_target` are the canonical
/// forms of the root and of the candidate path, `None` where the filesystem
/// gave none.
pub fn create_safe_content_path(
    content_base: &str,
    category: &str,
    filename: Option<&str>,
    canonical_base: Option<&str>,
    canonical_target: Option<&str>,
) -> (r: Result<String, ValidationError>)
    ensures
        path_is(
            r,
            safe_content_path(
                content_base@,
                category@,
                opt_view(filename),
                opt_view(canonical_base),
                opt_view(canonical_target),
            ),
        ),
{
    match content_path_candidate(content_base, category, filename) {
        Err(e) => Err(e),
        Ok(path) => confine(
            path,
            canonical_base,
            canonical_target,
            "Invalid content base path",
            "Path escapes content directory",
        ),
    }
}

/// Resolves a relative path to a location under the base directory.
/// `canonical_base` and `canonical_target` are the canonical forms of the
/// base and of the candidate path, `None` where the filesystem gave none.
pub fn create_safe_file_path(
    base_path: &str,
    relative_path: &str,
    canonical_base: Option<&str>,
    canonical_target: Option<&str>,
) -> (r: Result<String, ValidationError>)
    ensures
        path_is(
            r,
            safe_file_path(
                base_path@,
                relative_path@,
                opt_view(canonical_base),
                opt_view(canonical_target),
            ),
        ),
{
    match file_path_candidate(base_path, relative_path) {
        Err(e) => Err(e),
        Ok(path) => confine(
            path,
            canonical_base,
            canonical_target,
            "Invalid base path",
            "Path escapes base directory",
        ),
    }
}

/// Every path that is handed out begins with the root it was built on, and
/// one whose canonical form is known lies within the root's canonical form.
pub proof fn lemma_safe_paths_stay_under_root(
    base: Seq<char>,
    category: Seq<char>,
    filename: Option<Seq<char>>,
    rel: Seq<char>,
    canonical_root: Option<Seq<char>>,
    canonical_target: Option<Seq<char>>,
)
    ensures
        safe_content_path(base, category, filename, canonical_root, canonical_target) matches Ok(p)
            ==> starts_with(p, base) && canonical_root is Some && (canonical_target matches Some(t)
            ==> is_within(t, canonical_root->0)),
        safe_file_path(base, rel, canonical_root, canonical_target) matches Ok(p) ==> starts_with(
            p,
            base,
        ) && canonical_root is Some && (canonical_target matches Some(t) ==> is_within(
            t,
            canonical_root->0,
        )),
{
    let c = content_path(base, category, filename);
    assert(c.subrange(0, base.len() as int) =~= base);
    let f = file_path(base, rel);
    assert(f.subrange(0, base.len() as int) =~= base);
}

/// Two dots stand in `s` at positions `i` and `i + 1`.
pub open spec fn dots_at(s: Seq<char>, i: int) -> bool {
    0 <= i && i + 1 < s.len() && s[i] == '.' && s[i + 1] == '.'
}

proof fn lemma_dots(s: Seq<char>, i: int)
    ensures
        crate::text::occurs_at(s, ".."@, i) <==> dots_at(s, i),
{
    reveal_strlit("..");
    if dots_at(s, i) {
        assert(s.subrange(i, i + 2) =~= ".."@);
    }
    if crate::text::occurs_at(s, ".."@, i) {
        assert(s.subrange(i, i + 2)[0] == '.');
        assert(s.subrange(i, i + 2)[1] == '.');
    }
}

proof fn lemma_no_dots_in_category(c: Seq<char>)
    requires
        category_check(c) is Ok,
    ensures
        forall|i: int| 0 <= i < c.len() ==> c[i] != '.' && c[i] != '/',
{
    reveal_strlit("project");
    reveal_strlit("blog");
    reveal_strlit("page");
    crate::validation::lemma_accepted_names_are_plain(c, c);
}

/// An accepted path begins with the root, and what the syntactic layer
/// joined onto it holds no traversal token: no two dots stand in a row
/// behind the root. This holds of the destination of an uploaded part too.
pub proof fn lemma_candidates_hold_no_traversal(
    base: Seq<char>,
    category: Seq<char>,
    filename: Option<Seq<char>>,
    rel: Seq<char>,
)
    ensures
        content_candidate(base, category, filename) matches Ok(p) ==> starts_with(p, base)
            && !contains_seq(p.subrange(base.len() as int, p.len() as int), ".."@),
        file_candidate(base, rel) matches Ok(p) ==> starts_with(p, base) && !contains_seq(
            p.subrange(base.len() as int, p.len() as int),
            ".."@,
        ),
{
    reveal_strlit("/");
    assert(content_path(base, category, filename).subrange(0, base.len() as int) =~= base);
    assert(file_path(base, rel).subrange(0, base.len() as int) =~= base);
    reveal_strlit(".md");
    reveal_strlit(".");
    if let Ok(p) = file_candidate(base, rel) {
        let t = p.subrange(base.len() as int, p.len() as int);
        assert forall|i: int| !crate::text::occurs_at(t, ".."@, i) by {
            lemma_dots(t, i);
            if dots_at(t, i) {
                let clean = without_leading_slash(rel);
                assert(t =~= "/"@ + clean);
                assert(i >= 1);
                if starts_with(rel, "/"@) {
                    assert(clean[i - 1] == rel[i] && clean[i] == rel[i + 1]);
                    lemma_dots(rel, i);
                } else {
                    lemma_dots(rel, i - 1);
                }
            }
        }
    }
    if let Ok(p) = content_candidate(base, category, filename) {
        let t = p.subrange(base.len() as int, p.len() as int);
        lemma_no_dots_in_category(category);
        assert forall|i: int| !crate::text::occurs_at(t, ".."@, i) by {
            lemma_dots(t, i);
            if dots_at(t, i) {
                match filename {
                    None => {
                        assert(t =~= "/"@ + category);
                    },
                    Some(f) => {
                        let head = "/"@ + category + "/"@;
                        assert(t =~= head + f + ".md"@);
                        let n = head.len() as int;
                        let m = f.len() as int;
                        assert(!starts_with(f, "."@) && !ends_with(f, "."@));
                        assert(f.len() > 0);
                        assert(f[0] != '.') by {
                            if f[0] == '.' {
                                assert(f.subrange(0, 1) =~= "."@);
                            }
                        }
                        assert(f[m - 1] != '.') by {
                            if f[m - 1] == '.' {
                                assert(f.subrange(m - 1, m) =~= "."@);
                            }
                        }
                        if i + 1 < n {
                        } else if i + 1 == n {
                        } else if i + 1 < n + m {
                            assert(t[i] == f[i - n] && t[i + 1] == f[i + 1 - n]);
                            lemma_dots(f, i - n);
                        } else if i + 1 == n + m {
                            assert(t[i] == f[m - 1]);
                        } else {
                            assert(t[i + 1] == ".md"@[i + 1 - n - m]);
                        }
                    },
                }
            }
        }
    }
}

} // verus!
