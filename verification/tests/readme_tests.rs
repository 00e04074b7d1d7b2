use portfolio_backend::images::{
    convert_github_image_url, process_github_html_images, process_github_images, reweave,
    rewrite_image,
};
use portfolio_backend::markdown::{
    fence_close_tag, fence_open_tag, readme_from_bytes, readme_from_payload, render_markdown,
    render_readme, strip_line_feeds, ReadmeError,
};

#[test]
fn relative_image_goes_to_raw_content() {
    assert_eq!(
        convert_github_image_url("images/pic.png", "o", "r"),
        "https://raw.githubusercontent.com/o/r/main/images/pic.png"
    );
}

#[test]
fn absolute_image_url_is_unchanged() {
    assert_eq!(
        convert_github_image_url("https://example.com/x.png", "o", "r"),
        "https://example.com/x.png"
    );
    assert_eq!(
        convert_github_image_url("http://example.com/x.png", "o", "r"),
        "http://example.com/x.png"
    );
}

#[test]
fn leading_dot_segments_are_dropped_once() {
    assert_eq!(
        convert_github_image_url("./a.png", "o", "r"),
        "https://raw.githubusercontent.com/o/r/main/a.png"
    );
    assert_eq!(
        convert_github_image_url("../a.png", "o", "r"),
        "https://raw.githubusercontent.com/o/r/main/a.png"
    );
    assert_eq!(
        convert_github_image_url("./../a.png", "o", "r"),
        "https://raw.githubusercontent.com/o/r/main/a.png"
    );
    assert_eq!(
        convert_github_image_url("../../a.png", "o", "r"),
        "https://raw.githubusercontent.com/o/r/main/../a.png"
    );
}

#[test]
fn repository_absolute_path_keeps_its_slash() {
    assert_eq!(
        convert_github_image_url("/docs/a.png", "o", "r"),
        "https://raw.githubusercontent.com/o/r/main/docs/a.png"
    );
}

#[test]
fn markdown_images_are_rewritten_in_place() {
    let out = process_github_images("a ![x](p.png) b ![y](https://e.com/q.png) c", "o", "r");
    assert_eq!(
        out,
        "a ![x](https://raw.githubusercontent.com/o/r/main/p.png) b ![y](https://e.com/q.png) c"
    );
    assert_eq!(process_github_images("no images", "o", "r"), "no images");
    assert_eq!(
        process_github_images("![](a.png)", "o", "r"),
        "![](https://raw.githubusercontent.com/o/r/main/a.png)"
    );
}

#[test]
fn html_image_tags_are_rewritten_in_place() {
    let out = process_github_html_images("<p><img alt=\"x\" src=\"p.png\"></p>", "o", "r");
    assert_eq!(
        out,
        "<p><img alt=\"x\" src=\"https://raw.githubusercontent.com/o/r/main/p.png\"></p>"
    );
    let out = process_github_html_images(
        "<img src=\"/a.png\"/><img src=\"http://e.com/b.png\">",
        "o",
        "r",
    );
    assert_eq!(
        out,
        "<img src=\"https://raw.githubusercontent.com/o/r/main/a.png\"/><img src=\"http://e.com/b.png\">"
    );
    assert_eq!(process_github_html_images("<p>text</p>", "o", "r"), "<p>text</p>");
}

#[test]
fn html_image_keeps_what_follows_the_src_attribute() {
    let out =
        process_github_html_images("<p><img src=\"images/pic.png\" alt=\"x\" /></p>", "o", "r");
    assert_eq!(
        out,
        "<p><img src=\"https://raw.githubusercontent.com/o/r/main/images/pic.png\" alt=\"x\" /></p>"
    );
    let out = process_github_html_images("<img src=\"p.png\" width=\"3\">", "o", "r");
    assert_eq!(
        out,
        "<img src=\"https://raw.githubusercontent.com/o/r/main/p.png\" width=\"3\">"
    );
}

#[test]
fn rendered_markdown_image_keeps_its_alt_text_in_the_tag() {
    assert_eq!(
        render_readme("![shot](images/pic.png)", "o", "r"),
        "<p><img src=\"https://raw.githubusercontent.com/o/r/main/images/pic.png\" alt=\"shot\" /></p>\n"
    );
    assert_eq!(
        render_readme("<img src=\"docs/a.png\" alt=\"a\">", "o", "r"),
        "<img src=\"https://raw.githubusercontent.com/o/r/main/docs/a.png\" alt=\"a\">"
    );
}

#[test]
fn fence_tags_carry_the_language() {
    assert_eq!(fence_open_tag("rust"), "<pre><code class=\"language-rust\">");
    assert_eq!(fence_open_tag(""), "<pre><code class=\"language-text\">");
    assert_eq!(fence_close_tag(), "</code></pre>");
}

#[test]
fn document_body_becomes_html() {
    let html = render_markdown("# H\n\npara");
    assert!(html.contains("<h1>"));
    assert!(html.contains("<p>"));
    assert!(!html.contains('#'));
    assert!(!html.contains("**"));
    assert_eq!(html, "<h1>H</h1>\n<p>para</p>\n");
}

#[test]
fn document_extensions_are_enabled() {
    assert!(render_markdown("~~gone~~").contains("<del>gone</del>"));
    assert!(render_markdown("| a |\n|---|\n| b |").contains("<table>"));
    assert!(render_markdown("- [x] done").contains("type=\"checkbox\""));
}

#[test]
fn readme_code_blocks_are_tagged() {
    let html = render_readme("```rust\nfn main() {}\n```\n", "o", "r");
    assert!(html.contains("<pre><code class=\"language-rust\">"));
    assert!(html.contains("</code></pre>"));
    let html = render_readme("```\nplain\n```\n", "o", "r");
    assert!(html.contains("<pre><code class=\"language-text\">"));
}

#[test]
fn readme_images_point_to_raw_content() {
    let html = render_readme("![shot](images/pic.png)", "o", "r");
    assert!(html.contains("src=\"https://raw.githubusercontent.com/o/r/main/images/pic.png\""));
    let html = render_readme("<img src=\"docs/a.png\">", "o", "r");
    assert!(html.contains("src=\"https://raw.githubusercontent.com/o/r/main/docs/a.png\""));
}

#[test]
fn line_feeds_are_stripped() {
    assert_eq!(strip_line_feeds("ab\ncd\n\nef"), "abcdef");
    assert_eq!(strip_line_feeds(""), "");
}

#[test]
fn readme_payload_is_decoded_and_rendered() {
    // "# Hi" in base64, wrapped.
    let html = readme_from_payload(Some("IyBI\naQ==\n"), "o", "r").unwrap();
    assert_eq!(html, "<h1>Hi</h1>\n");
}

#[test]
fn missing_or_empty_readme_gives_the_placeholder() {
    assert_eq!(readme_from_payload(None, "o", "r").unwrap(), "README not available");
    assert_eq!(readme_from_payload(Some(""), "o", "r").unwrap(), "README not available");
    assert_eq!(readme_from_bytes(Some(Vec::new()), "o", "r").unwrap(), "README not available");
}

#[test]
fn unreadable_readme_payload_is_a_fault() {
    assert_eq!(readme_from_payload(Some("@@@"), "o", "r"), Err(ReadmeError::Encoding));
    // 0xff is no UTF-8.
    assert_eq!(readme_from_payload(Some("/w=="), "o", "r"), Err(ReadmeError::Text));
    assert_eq!(readme_from_bytes(None, "o", "r"), Err(ReadmeError::Encoding));
    assert_eq!(readme_from_bytes(Some(vec![0xff]), "o", "r"), Err(ReadmeError::Text));
}

fn strings(items: &[&str]) -> Vec<String> {
    items.iter().map(|s| s.to_string()).collect()
}

#[test]
fn one_image_is_rewritten_from_its_groups() {
    let md = strings(&["![alt](docs/a.png)", "alt", "docs/a.png"]);
    let out: String = rewrite_image(false, &md, "o", "r").into_iter().collect();
    assert_eq!(out, "![alt](https://raw.githubusercontent.com/o/r/main/docs/a.png)");
    let html = strings(&["<img a src=\"/x.png\" b>", " a ", "/x.png", " b"]);
    let out: String = rewrite_image(true, &html, "o", "r").into_iter().collect();
    assert_eq!(out, "<img a src=\"https://raw.githubusercontent.com/o/r/main/x.png\" b>");
    let closed = strings(&["<img src=\"x.png\"/>", " ", "x.png", ""]);
    let out: String = rewrite_image(true, &closed, "o", "r").into_iter().collect();
    assert_eq!(out, "<img src=\"https://raw.githubusercontent.com/o/r/main/x.png\"/>");
    let open = strings(&["<img src=\"x.png\"", " ", "x.png", ""]);
    let out: String = rewrite_image(true, &open, "o", "r").into_iter().collect();
    assert_eq!(out, "<img src=\"https://raw.githubusercontent.com/o/r/main/x.png\"");
}

#[test]
fn missing_groups_count_as_empty() {
    let out: String = rewrite_image(false, &Vec::new(), "o", "r").into_iter().collect();
    assert_eq!(out, "![](https://raw.githubusercontent.com/o/r/main/)");
    let out: String = rewrite_image(true, &strings(&["m", "x"]), "o", "r").into_iter().collect();
    assert_eq!(out, "<imgxsrc=\"https://raw.githubusercontent.com/o/r/main/\"");
}

#[test]
fn pieces_and_images_are_woven_in_turn() {
    let pieces = strings(&["a ", " b ", " c"]);
    let matches = vec![
        strings(&["![x](p.png)", "x", "p.png"]),
        strings(&["![y](http://e.com/q.png)", "y", "http://e.com/q.png"]),
    ];
    assert_eq!(
        reweave(false, &pieces, &matches, "o", "r"),
        "a ![x](https://raw.githubusercontent.com/o/r/main/p.png) b ![y](http://e.com/q.png) c"
    );
    assert_eq!(reweave(false, &strings(&["only"]), &Vec::new(), "o", "r"), "only");
    assert_eq!(reweave(true, &Vec::new(), &matches, "o", "r"), "");
    assert_eq!(reweave(false, &strings(&["a", "b", "c"]), &Vec::new(), "o", "r"), "abc");
}
