//! Rewriting of image references in a remote README.
//!
//! A reference that is not an absolute URL is read as a path in the
//! repository and rewritten to the address of the raw file on the default
//! branch. Only one leading `./` and one leading `../` are dropped: deeper
//! relative traversal is not resolved.

use vstd::prelude::*;
use crate::text::{append_chars, append_str, chars_of, has_prefix, slice_chars, starts_with,
    string_of};

verus! {

/// `s` without the prefix `p`, where it has that prefix.
pub open spec fn strip_prefix(s: Seq<char>, p: Seq<char>) -> Seq<char> {
    if starts_with(s, p) {
        s.subrange(p.len() as int, s.len() as int)
    } else {
        s
    }
}

/// The address of the root of the default branch of a repository's raw
/// content.
pub open spec fn raw_root(owner: Seq<char>, repo: Seq<char>) -> Seq<char> {
    "https://raw.githubusercontent.com/"@ + owner + "/"@ + repo + "/main"@
}

/// The address that an image reference of a README stands for.
pub open spec fn image_url(src: Seq<char>, owner: Seq<char>, repo: Seq<char>) -> Seq<char> {
    if starts_with(src, "http://"@) || starts_with(src, "https://"@) {
        src
    } else if starts_with(src, "/"@) {
        raw_root(owner, repo) + src
    } else {
        raw_root(owner, repo) + "/"@ + strip_prefix(strip_prefix(src, "./"@), "../"@)
    }
}

/// `s` without the prefix `p`, where it has that prefix.
fn without_prefix(s: Vec<char>, p: &str) -> (r: Vec<char>)
    ensures
        r@ == strip_prefix(s@, p@),
{
    let pc = chars_of(p);
    if has_prefix(s.as_slice(), pc.as_slice()) {
        slice_chars(s.as_slice(), pc.len(), s.len())
    } else {
        s
    }
}

/// Rewrites one image reference: an absolute URL is kept, a path is
/// turned into the address of the raw file in the repository.
pub fn convert_github_image_url(src: &str, owner: &str, repo: &str) -> (url: String)
    ensures
        url@ == image_url(src@, owner@, repo@),
{
    let s = chars_of(src);
    let http = chars_of("http://");
    let https = chars_of("https://");
    if has_prefix(s.as_slice(), http.as_slice()) || has_prefix(s.as_slice(), https.as_slice()) {
        return string_of(s.as_slice());
    }
    let mut out: Vec<char> = Vec::new();
    append_str(&mut out, "https://raw.githubusercontent.com/");
    append_str(&mut out, owner);
    append_str(&mut out, "/");
    append_str(&mut out, repo);
    append_str(&mut out, "/main");
    proof {
        assert(out@ =~= raw_root(owner@, repo@));
    }
    let slash = chars_of("/");
    if has_prefix(s.as_slice(), slash.as_slice()) {
        append_chars(&mut out, s.as_slice());
    } else {
        let clean = without_prefix(without_prefix(s, "./"), "../");
        append_str(&mut out, "/");
        append_chars(&mut out, clean.as_slice());
    }
    string_of(out.as_slice())
}

/// The regular expression that finds an image in markdown: `![alt](src)`.
pub open spec fn markdown_image_pattern() -> Seq<char> {
    "!\\[([^\\]]*)\\]\\(([^)]+)\\)"@
}

/// The regular expression that finds an image tag in HTML, with what
/// stands before its `src` attribute, the attribute's value, and what
/// stands after it.
pub open spec fn html_image_pattern() -> Seq<char> {
    "<img([^>]*?)src=\"([^\"]*)\"([^>]*?)/?>?"@
}

/// The parts of `text` that lie between the successive matches of
/// `pattern`, as `regex::Regex::split` yields them.
pub uninterp spec fn regex_pieces(pattern: Seq<char>, text: Seq<char>) -> Seq<Seq<char>>;

/// For each successive match of `pattern` in `text`, as
/// `regex::Regex::captures_iter` yields them, the text of the whole match
/// and then of each capture group, empty for a group that took no part.
pub uninterp spec fn regex_groups(pattern: Seq<char>, text: Seq<char>) -> Seq<Seq<Seq<char>>>;

/// Splits `text` at the matches of `pattern`: calls `regex::Regex::new` and
/// `regex::Regex::split`, and hands out each part as a string. The two
/// patterns admitted compile.
#[verifier::external_body]
fn regex_split(pattern: &str, text: &str) -> (pieces: Vec<String>)
    requires
        pattern@ == markdown_image_pattern() || pattern@ == html_image_pattern(),
    ensures
        pieces.deep_view() == regex_pieces(pattern@, text@),
{
    regex::Regex::new(pattern).unwrap().split(text).map(String::from).collect()
}

/// Finds the matches of `pattern` in `text`: calls `regex::Regex::new` and
/// `regex::Regex::captures_iter`, and hands out, for each match, the text of
/// the whole match and of each capture group. The two patterns admitted
/// compile.
#[verifier::external_body]
fn regex_captures(pattern: &str, text: &str) -> (groups: Vec<Vec<String>>)
    requires
        pattern@ == markdown_image_pattern() || pattern@ == html_image_pattern(),
    ensures
        groups.deep_view() == regex_groups(pattern@, text@),
{
    regex::Regex::new(pattern).unwrap().captures_iter(text).map(
        |c| c.iter().map(|m| m.map_or(String::new(), |m| m.as_str().to_string())).collect(),
    ).collect()
}

/// The `i`-th group of a match, the whole match being group 0; empty where
/// the match has no such group.
pub open spec fn group(groups: Seq<Seq<char>>, i: int) -> Seq<char> {
    if 0 <= i < groups.len() {
        groups[i]
    } else {
        Seq::empty()
    }
}

/// A markdown image with its reference rewritten.
pub open spec fn markdown_image(groups: Seq<Seq<char>>, owner: Seq<char>, repo: Seq<char>) -> Seq<
    char,
> {
    "!["@ + group(groups, 1) + "]("@ + image_url(group(groups, 2), owner, repo) + ")"@
}

/// The length of an image tag's match up to the end of its third group:
/// `<img`, the first group, `src="`, the value, the closing quote and the
/// third group.
pub open spec fn html_head_len(groups: Seq<Seq<char>>) -> nat {
    "<img"@.len() + group(groups, 1).len() + "src=\""@.len() + group(groups, 2).len() + "\""@.len()
        + group(groups, 3).len()
}

/// What the whole match of an image tag holds behind its third group: the
/// end of the tag, where the match reaches it.
pub open spec fn html_tail(groups: Seq<Seq<char>>) -> Seq<char> {
    if html_head_len(groups) <= group(groups, 0).len() {
        group(groups, 0).subrange(html_head_len(groups) as int, group(groups, 0).len() as int)
    } else {
        Seq::empty()
    }
}

/// The match of an HTML image tag with the value of its `src` rewritten and
/// everything else kept as it stands.
pub open spec fn html_image(groups: Seq<Seq<char>>, owner: Seq<char>, repo: Seq<char>) -> Seq<
    char,
> {
    "<img"@ + group(groups, 1) + "src=\""@ + image_url(group(groups, 2), owner, repo) + "\""@
        + group(groups, 3) + html_tail(groups)
}

/// What replaces a match: a markdown image, or an HTML image tag, each
/// with its reference rewritten.
pub open spec fn rewritten_image(
    html: bool,
    groups: Seq<Seq<char>>,
    owner: Seq<char>,
    repo: Seq<char>,
) -> Seq<char> {
    if html {
        html_image(groups, owner, repo)
    } else {
        markdown_image(groups, owner, repo)
    }
}

/// The first `n` pieces, each followed by the rewritten image of the match
/// that ended it, where there is one.
pub open spec fn rewoven(
    html: bool,
    pieces: Seq<Seq<char>>,
    matches: Seq<Seq<Seq<char>>>,
    owner: Seq<char>,
    repo: Seq<char>,
    n: int,
) -> Seq<char>
    decreases n,
{
    if n <= 0 || n > pieces.len() {
        Seq::empty()
    } else {
        rewoven(html, pieces, matches, owner, repo, n - 1) + pieces[n - 1] + (if n - 1
            < matches.len() {
            rewritten_image(html, matches[n - 1], owner, repo)
        } else {
            Seq::empty()
        })
    }
}

/// The `i`-th group of a match as a string, empty where the match has none.
fn group_text(groups: &Vec<String>, i: usize) -> (s: &str)
    ensures
        s@ == group(groups.deep_view(), i as int),
{
    if i < groups.len() {
        groups[i].as_str()
    } else {
        proof {
            reveal_strlit("");
            assert(""@ =~= Seq::<char>::empty());
        }
        ""
    }
}

/// What the whole match of an image tag holds behind its third group.
fn html_tail_chars(groups: &Vec<String>) -> (tail: Vec<char>)
    ensures
        tail@ == html_tail(groups.deep_view()),
{
    let whole = chars_of(group_text(groups, 0));
    let before = chars_of(group_text(groups, 1));
    let value = chars_of(group_text(groups, 2));
    let after = chars_of(group_text(groups, 3));
    proof {
        reveal_strlit("<img");
        reveal_strlit("src=\"");
        reveal_strlit("\"");
    }
    let head: u128 = 4 + before.len() as u128 + 5 + value.len() as u128 + 1 + after.len() as u128;
    if head <= whole.len() as u128 {
        slice_chars(whole.as_slice(), head as usize, whole.len())
    } else {
        Vec::new()
    }
}

/// Writes the image of one match with its reference rewritten.
pub fn rewrite_image(html: bool, groups: &Vec<String>, owner: &str, repo: &str) -> (out: Vec<char>)
    ensures
        out@ == rewritten_image(html, groups.deep_view(), owner@, repo@),
{
    let url = convert_github_image_url(group_text(groups, 2), owner, repo);
    let mut out: Vec<char> = Vec::new();
    if html {
        let tail = html_tail_chars(groups);
        append_str(&mut out, "<img");
        append_str(&mut out, group_text(groups, 1));
        append_str(&mut out, "src=\"");
        append_str(&mut out, url.as_str());
        append_str(&mut out, "\"");
        append_str(&mut out, group_text(groups, 3));
        append_chars(&mut out, tail.as_slice());
        proof {
            assert(out@ =~= html_image(groups.deep_view(), owner@, repo@));
        }
    } else {
        append_str(&mut out, "![");
        append_str(&mut out, group_text(groups, 1));
        append_str(&mut out, "](");
        append_str(&mut out, url.as_str());
        append_str(&mut out, ")");
        proof {
            assert(out@ =~= markdown_image(groups.deep_view(), owner@, repo@));
        }
    }
    out
}

/// Puts a text together again from the parts between its images and the
/// groups of each image, with every image reference rewritten.
pub fn reweave(
    html: bool,
    pieces: &Vec<String>,
    matches: &Vec<Vec<String>>,
    owner: &str,
    repo: &str,
) -> (out: String)
    ensures
        out@ == rewoven(
            html,
            pieces.deep_view(),
            matches.deep_view(),
            owner@,
            repo@,
            pieces.len() as int,
        ),
{
    let mut out: Vec<char> = Vec::new();
    let mut i: usize = 0;
    while i < pieces.len()
        invariant
            i <= pieces.len(),
            out@ == rewoven(html, pieces.deep_view(), matches.deep_view(), owner@, repo@, i as int),
        decreases pieces.len() - i,
    {
        append_str(&mut out, pieces[i].as_str());
        if i < matches.len() {
            let image = rewrite_image(html, &matches[i], owner, repo);
            append_chars(&mut out, image.as_slice());
        }
        i += 1;
        proof {
            assert(pieces.deep_view()[i - 1] == pieces[i - 1]@);
            if i - 1 < matches.len() {
                assert(matches.deep_view()[i - 1] == matches[i - 1].deep_view());
            }
            assert(out@ =~= rewoven(
                html,
                pieces.deep_view(),
                matches.deep_view(),
                owner@,
                repo@,
                i as int,
            ));
        }
    }
    string_of(out.as_slice())
}

/// Markdown with the reference of every `![alt](src)` image rewritten.
pub open spec fn images_rewritten(markdown: Seq<char>, owner: Seq<char>, repo: Seq<char>) -> Seq<
    char,
> {
    rewoven(
        false,
        regex_pieces(markdown_image_pattern(), markdown),
        regex_groups(markdown_image_pattern(), markdown),
        owner,
        repo,
        regex_pieces(markdown_image_pattern(), markdown).len() as int,
    )
}

/// HTML with the `src` of every image tag rewritten.
pub open spec fn html_images_rewritten(html: Seq<char>, owner: Seq<char>, repo: Seq<char>) -> Seq<
    char,
> {
    rewoven(
        true,
        regex_pieces(html_image_pattern(), html),
        regex_groups(html_image_pattern(), html),
        owner,
        repo,
        regex_pieces(html_image_pattern(), html).len() as int,
    )
}

/// Rewrites the reference of every markdown image in `markdown`.
pub fn process_github_images(markdown: &str, owner: &str, repo: &str) -> (out: String)
    ensures
        out@ == images_rewritten(markdown@, owner@, repo@),
{
    let pattern = "!\\[([^\\]]*)\\]\\(([^)]+)\\)";
    let pieces = regex_split(pattern, markdown);
    let matches = regex_captures(pattern, markdown);
    reweave(false, &pieces, &matches, owner, repo)
}

/// Rewrites the `src` of every image tag in `html`.
pub fn process_github_html_images(html: &str, owner: &str, repo: &str) -> (out: String)
    ensures
        out@ == html_images_rewritten(html@, owner@, repo@),
{
    let pattern = "<img([^>]*?)src=\"([^\"]*)\"([^>]*?)/?>?";
    let pieces = regex_split(pattern, html);
    let matches = regex_captures(pattern, html);
    reweave(true, &pieces, &matches, owner, repo)
}

/// An absolute URL is kept as it is, and a plain relative path is put
/// behind the raw root of the repository.
pub proof fn lemma_image_url_cases(src: Seq<char>, owner: Seq<char>, repo: Seq<char>)
    ensures
        starts_with(src, "http://"@) || starts_with(src, "https://"@) ==> image_url(
            src,
            owner,
            repo,
        ) == src,
        !starts_with(src, "http://"@) && !starts_with(src, "https://"@) && !starts_with(src, "/"@)
            && !starts_with(src, "./"@) && !starts_with(src, "../"@) ==> image_url(
            src,
            owner,
            repo,
        ) == raw_root(owner, repo) + "/"@ + src,
{
}

/// Every rewritten reference is an absolute URL, so rewriting it once more
/// changes nothing.
pub proof fn lemma_image_url_is_absolute(src: Seq<char>, owner: Seq<char>, repo: Seq<char>)
    ensures
        starts_with(image_url(src, owner, repo), "http://"@) || starts_with(
            image_url(src, owner, repo),
            "https://"@,
        ),
        image_url(image_url(src, owner, repo), owner, repo) == image_url(src, owner, repo),
{
    let url = image_url(src, owner, repo);
    if !(starts_with(src, "http://"@) || starts_with(src, "https://"@)) {
        reveal_strlit("https://raw.githubusercontent.com/");
        reveal_strlit("https://");
        assert(url.subrange(0, 8) =~= "https://"@);
    }
}

/// Rewriting an image tag changes the value of its `src` and nothing else:
/// where the whole match is `<img`, the first group, `src="`, the value, the
/// closing quote, the third group and a tail, the replacement is the same
/// with the value rewritten.
pub proof fn lemma_html_image_keeps_the_tag(
    before: Seq<char>,
    value: Seq<char>,
    after: Seq<char>,
    tail: Seq<char>,
    owner: Seq<char>,
    repo: Seq<char>,
)
    ensures
        html_image(
            seq!["<img"@ + before + "src=\""@ + value + "\""@ + after + tail, before, value, after],
            owner,
            repo,
        ) == "<img"@ + before + "src=\""@ + image_url(value, owner, repo) + "\""@ + after + tail,
{
    let whole = "<img"@ + before + "src=\""@ + value + "\""@ + after + tail;
    let groups = seq![whole, before, value, after];
    assert(group(groups, 0) == whole);
    assert(group(groups, 1) == before);
    assert(group(groups, 2) == value);
    assert(group(groups, 3) == after);
    assert(whole.subrange(html_head_len(groups) as int, whole.len() as int) =~= tail);
}

} // verus!
