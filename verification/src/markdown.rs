//! Markdown to HTML, for documents and for remote READMEs.
//!
//! The conversion itself is the work of `pulldown_cmark`; this module fixes
//! what is handed to it and what is done with its result.

use vstd::prelude::*;
use pulldown_cmark::{html::push_html, CodeBlockKind, Event, Options, Parser, Tag};
use vstd::utf8::{decode_utf8, valid_utf8};
use crate::images::{html_images_rewritten, images_rewritten, process_github_html_images,
    process_github_images};
use crate::text::{append_str, chars_of, string_of};

verus! {

/// The HTML that `pulldown_cmark` makes of the markdown `text` with the
/// given extensions switched on or off.
pub uninterp spec fn markdown_html(
    text: Seq<char>,
    tables: bool,
    strikethrough: bool,
    footnotes: bool,
    tasklists: bool,
) -> Seq<char>;

/// The HTML that `pulldown_cmark` makes of the markdown `text` where the
/// start and the end of every fenced code block are replaced by the tags
/// of `fence_open_tag` and `fence_close_tag`.
pub uninterp spec fn markdown_html_tagged(
    text: Seq<char>,
    tables: bool,
    strikethrough: bool,
    footnotes: bool,
    tasklists: bool,
) -> Seq<char>;

/// Converts markdown to HTML: parses with `pulldown_cmark::Parser::new_ext`
/// under the given extensions and writes with `pulldown_cmark::html::push_html`.
#[verifier::external_body]
fn push_markdown_html(
    text: &str,
    tables: bool,
    strikethrough: bool,
    footnotes: bool,
    tasklists: bool,
) -> (html: String)
    ensures
        html@ == markdown_html(text@, tables, strikethrough, footnotes, tasklists),
{
    let mut options = Options::empty();
    options.set(Options::ENABLE_TABLES, tables);
    options.set(Options::ENABLE_STRIKETHROUGH, strikethrough);
    options.set(Options::ENABLE_FOOTNOTES, footnotes);
    options.set(Options::ENABLE_TASKLISTS, tasklists);
    let mut html = String::new();
    push_html(&mut html, Parser::new_ext(text, options));
    html
}

/// Converts markdown to HTML as `push_markdown_html` does, with the events
/// that start and end a fenced code block replaced by raw HTML: the tags
/// of `fence_open_tag`, on the block's language, and of `fence_close_tag`.
#[verifier::external_body]
fn push_tagged_markdown_html(
    text: &str,
    tables: bool,
    strikethrough: bool,
    footnotes: bool,
    tasklists: bool,
) -> (html: String)
    ensures
        html@ == markdown_html_tagged(text@, tables, strikethrough, footnotes, tasklists),
{
    let mut options = Options::empty();
    options.set(Options::ENABLE_TABLES, tables);
    options.set(Options::ENABLE_STRIKETHROUGH, strikethrough);
    options.set(Options::ENABLE_FOOTNOTES, footnotes);
    options.set(Options::ENABLE_TASKLISTS, tasklists);
    let events = Parser::new_ext(text, options).map(|event| match event {
        Event::Start(Tag::CodeBlock(CodeBlockKind::Fenced(lang))) => Event::Html(fence_open_tag(&lang).into()),
        Event::End(Tag::CodeBlock(CodeBlockKind::Fenced(_))) => Event::Html(fence_close_tag().into()),
        other => other,
    });
    let mut html = String::new();
    push_html(&mut html, events);
    html
}

/// The class that marks a code block's language for a highlighter.
pub open spec fn language_class(lang: Seq<char>) -> Seq<char> {
    if lang.len() == 0 {
        "language-text"@
    } else {
        "language-"@ + lang
    }
}

/// The tags that open a fenced code block of the given language.
pub fn fence_open_tag(lang: &str) -> (tag: String)
    ensures
        tag@ == "<pre><code class=\""@ + language_class(lang@) + "\">"@,
{
    let l = chars_of(lang);
    let mut out: Vec<char> = Vec::new();
    append_str(&mut out, "<pre><code class=\"");
    if l.len() == 0 {
        append_str(&mut out, "language-text");
    } else {
        append_str(&mut out, "language-");
        append_str(&mut out, lang);
    }
    append_str(&mut out, "\">");
    proof {
        assert(out@ =~= "<pre><code class=\""@ + language_class(lang@) + "\">"@);
    }
    string_of(out.as_slice())
}

/// The tags that close a fenced code block.
pub fn fence_close_tag() -> (tag: String)
    ensures
        tag@ == "</code></pre>"@,
{
    String::from_str("</code></pre>")
}

/// Renders the body of a document: markdown to HTML with tables,
/// strikethrough, footnotes and task lists enabled. The HTML is not
/// sanitized.
pub fn render_markdown(text: &str) -> (html: String)
    ensures
        html@ == markdown_html(text@, true, true, true, true),
{
    push_markdown_html(text, true, true, true, true)
}

/// The HTML of a remote README: image references are rewritten in the
/// markdown, the markdown is rendered with code blocks tagged, and image
/// tags are rewritten in the HTML.
pub open spec fn readme_html(markdown: Seq<char>, owner: Seq<char>, repo: Seq<char>) -> Seq<char> {
    html_images_rewritten(
        markdown_html_tagged(images_rewritten(markdown, owner, repo), true, true, true, true),
        owner,
        repo,
    )
}

/// Renders the README of the repository `owner`/`repo` for embedding.
pub fn render_readme(markdown: &str, owner: &str, repo: &str) -> (html: String)
    ensures
        html@ == readme_html(markdown@, owner@, repo@),
{
    let rewritten = process_github_images(markdown, owner, repo);
    let rendered = push_tagged_markdown_html(rewritten.as_str(), true, true, true, true);
    process_github_html_images(rendered.as_str(), owner, repo)
}

/// The error of `base64`'s decoder.
#[verifier::external_type_specification]
#[verifier::external_body]
pub struct ExDecodeError(base64::DecodeError);

/// The bytes that standard base64 text stands for, `None` where the text
/// is not valid base64.
pub uninterp spec fn base64_decoded(text: Seq<char>) -> Option<Seq<u8>>;

/// Decodes standard, padded base64 with `base64::Engine::decode` on
/// `base64::engine::general_purpose::STANDARD`.
#[verifier::external_body]
fn base64_decode(text: &str) -> (r: Result<Vec<u8>, base64::DecodeError>)
    ensures
        match r {
            Ok(bytes) => base64_decoded(text@) == Some(bytes@),
            Err(_) => base64_decoded(text@) is None,
        },
{
    base64::Engine::decode(&base64::engine::general_purpose::STANDARD, text)
}

/// Reads bytes as UTF-8 with `String::from_utf8`: the text that they
/// encode, or `None` where they are not valid UTF-8.
#[verifier::external_body]
fn utf8_text(bytes: Vec<u8>) -> (r: Option<String>)
    ensures
        match r {
            Some(s) => valid_utf8(bytes@) && s@ == decode_utf8(bytes@),
            None => !valid_utf8(bytes@),
        },
{
    String::from_utf8(bytes).ok()
}

/// Why the payload of a README could not be read.
#[derive(Clone, Copy, Debug, PartialEq, Eq, Structural)]
pub enum ReadmeError {
    /// The payload is not valid base64.
    Encoding,
    /// The decoded bytes are not valid UTF-8.
    Text,
}

/// `s` without its line feeds.
pub open spec fn without_line_feeds(s: Seq<char>) -> Seq<char> {
    s.filter(|c: char| c != '\n')
}

/// Removes the line feeds that wrap an encoded payload.
pub fn strip_line_feeds(s: &str) -> (out: String)
    ensures
        out@ == without_line_feeds(s@),
{
    let v = chars_of(s);
    let mut out: Vec<char> = Vec::new();
    let mut i: usize = 0;
    while i < v.len()
        invariant
            i <= v.len(),
            out@ == without_line_feeds(v@.subrange(0, i as int)),
        decreases v.len() - i,
    {
        proof {
            let pred = |c: char| c != '\n';
            assert(v@.subrange(0, i + 1) =~= v@.subrange(0, i as int).push(v@[i as int]));
            v@.subrange(0, i as int).lemma_filter_push(v@[i as int], pred);
        }
        if v[i] != '\n' {
            out.push(v[i]);
        }
        i += 1;
    }
    proof {
        assert(v@.subrange(0, v.len() as int) =~= v@);
    }
    string_of(out.as_slice())
}

/// What stands in place of a README that could not be had.
pub open spec fn readme_placeholder() -> Seq<char> {
    "README not available"@
}

/// The HTML for a README, given the decoded payload: the placeholder for an
/// empty README, a fault for bytes that are no text, else the rendering.
pub open spec fn readme_of_bytes(
    decoded: Option<Seq<u8>>,
    owner: Seq<char>,
    repo: Seq<char>,
) -> Result<Seq<char>, ReadmeError> {
    match decoded {
        None => Err(ReadmeError::Encoding),
        Some(bytes) => if !valid_utf8(bytes) {
            Err(ReadmeError::Text)
        } else if decode_utf8(bytes).len() == 0 {
            Ok(readme_placeholder())
        } else {
            Ok(readme_html(decode_utf8(bytes), owner, repo))
        },
    }
}

/// The HTML for a README, given the payload of the remote answer: the
/// placeholder where there is none, else what its decoded bytes give.
pub open spec fn readme_of_payload(
    content: Option<Seq<char>>,
    owner: Seq<char>,
    repo: Seq<char>,
) -> Result<Seq<char>, ReadmeError> {
    match content {
        None => Ok(readme_placeholder()),
        Some(c) => readme_of_bytes(base64_decoded(without_line_feeds(c)), owner, repo),
    }
}

/// A rendering or a fault agrees with the rule.
pub open spec fn readme_is(r: Result<String, ReadmeError>, rule: Result<Seq<char>, ReadmeError>)
    -> bool {
    match r {
        Ok(s) => rule == Ok::<Seq<char>, ReadmeError>(s@),
        Err(e) => rule == Err::<Seq<char>, ReadmeError>(e),
    }
}

/// Renders a README from its decoded bytes, `None` where decoding failed.
pub fn readme_from_bytes(decoded: Option<Vec<u8>>, owner: &str, repo: &str) -> (r: Result<
    String,
    ReadmeError,
>)
    ensures
        readme_is(
            r,
            readme_of_bytes(
                match decoded {
                    Some(b) => Some(b@),
                    None => None,
                },
                owner@,
                repo@,
            ),
        ),
{
    match decoded {
        None => Err(ReadmeError::Encoding),
        Some(bytes) => match utf8_text(bytes) {
            None => Err(ReadmeError::Text),
            Some(markdown) => {
                if markdown.as_str().is_empty() {
                    Ok(String::from_str("README not available"))
                } else {
                    Ok(render_readme(markdown.as_str(), owner, repo))
                }
            },
        },
    }
}

/// Renders a README from the base64 payload of the remote answer, `None`
/// where the answer carried none.
pub fn readme_from_payload(content: Option<&str>, owner: &str, repo: &str) -> (r: Result<
    String,
    ReadmeError,
>)
    ensures
        readme_is(
            r,
            readme_of_payload(
                match content {
                    Some(c) => Some(c@),
                    None => None,
                },
                owner@,
                repo@,
            ),
        ),
{
    match content {
        None => Ok(String::from_str("README not available")),
        Some(c) => {
            let joined = strip_line_feeds(c);
            match base64_decode(joined.as_str()) {
                Ok(bytes) => readme_from_bytes(Some(bytes), owner, repo),
                Err(_) => readme_from_bytes(None, owner, repo),
            }
        },
    }
}

} // verus!
