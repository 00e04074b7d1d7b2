use portfolio_backend::cache::TtlCache;
use portfolio_backend::content::{
    collect_tags, content_cache_key, document_stem_of, insert_tag, is_document_file,
    keep_readable, list_documents, lookup_content, parse_markdown_file, slug_of_path,
    split_front_matter, store_content, trim_chars, ContentError, RequestFault,
};
use portfolio_backend::models::{ContentItem, ContentMetadata};
use portfolio_backend::paths::content_path_candidate;
use portfolio_backend::validation::FaultKind;

fn metadata(title: &str, date: &str, tags: &[&str]) -> ContentMetadata {
    ContentMetadata {
        title: title.to_string(),
        date: date.to_string(),
        tags: tags.iter().map(|t| t.to_string()).collect(),
        description: "D".to_string(),
        image: None,
        feature: None,
    }
}

fn document(slug: &str, date: &str, tags: &[&str]) -> ContentItem {
    ContentItem {
        slug: slug.to_string(),
        metadata: metadata("T", date, tags),
        html_content: String::new(),
        category: "blog".to_string(),
    }
}

#[test]
fn front_matter_and_body_are_split() {
    let doc = split_front_matter("---\ntitle: T\n---\n\n# H\n\npara\n").unwrap();
    assert_eq!(doc.front_matter, "\ntitle: T\n");
    assert_eq!(doc.body, "# H\n\npara");
}

#[test]
fn only_the_first_two_delimiters_count() {
    let doc = split_front_matter("---a---b---c").unwrap();
    assert_eq!(doc.front_matter, "a");
    assert_eq!(doc.body, "b---c");
    let doc = split_front_matter("------").unwrap();
    assert_eq!(doc.front_matter, "");
    assert_eq!(doc.body, "");
}

#[test]
fn text_without_front_matter_is_a_parse_failure() {
    for bad in ["# just a body", "", "---\ntitle: T\n", "text\n---\na\n---\nb", "--"] {
        match split_front_matter(bad) {
            Err(ContentError::ParseError(m)) => {
                assert_eq!(m, "missing or malformed front matter")
            }
            _ => panic!("accepted"),
        }
    }
}

#[test]
fn trimming_removes_unicode_white_space() {
    let s: Vec<char> = " \t\n\u{a0}\u{3000}x y\r\n\u{2003}".chars().collect();
    let t: String = trim_chars(&s).into_iter().collect();
    assert_eq!(t, "x y");
    let blank: Vec<char> = " \n ".chars().collect();
    assert!(trim_chars(&blank).is_empty());
}

#[test]
fn slug_comes_from_the_file_name() {
    assert_eq!(slug_of_path("/srv/content/blog/hello-world.md"), "hello-world");
    assert_eq!(slug_of_path("post.md"), "post");
    assert_eq!(slug_of_path("/a.b/archive.tar.gz"), "archive.tar");
    assert_eq!(slug_of_path("/srv/.hidden"), ".hidden");
    assert_eq!(slug_of_path("/srv/noext"), "noext");
}

#[test]
fn document_is_assembled_from_its_parts() {
    let item = parse_markdown_file(
        "/srv/content/blog/first.md",
        "blog",
        metadata("T", "2024-01-01", &["a", "b"]),
        "# H\n\npara",
    );
    assert_eq!(item.slug, "first");
    assert_eq!(item.category, "blog");
    assert_eq!(item.metadata.title, "T");
    assert_eq!(item.metadata.date, "2024-01-01");
    assert_eq!(item.metadata.tags, vec!["a".to_string(), "b".to_string()]);
    assert_eq!(item.metadata.description, "D");
    assert!(item.html_content.contains("<h1>"));
    assert!(item.html_content.contains("<p>"));
    assert!(!item.html_content.contains('#'));
    assert!(!item.html_content.contains("**"));
}

#[test]
fn listing_skips_what_could_not_be_parsed() {
    let outcomes = vec![
        Some(document("a", "2024-01-01", &[])),
        None,
        Some(document("b", "2024-03-01", &[])),
        Some(document("c", "2024-02-01", &[])),
    ];
    let items = list_documents(outcomes);
    assert_eq!(items.len(), 3);
    let slugs: Vec<&str> = items.iter().map(|d| d.slug.as_str()).collect();
    assert_eq!(slugs, vec!["b", "c", "a"]);
}

#[test]
fn listing_of_nothing_is_empty() {
    assert!(list_documents(Vec::new()).is_empty());
    assert!(list_documents(vec![None, None]).is_empty());
    let kept = keep_readable(vec![Some(1), None, Some(2)]);
    assert_eq!(kept, vec![1, 2]);
}

#[test]
fn documents_of_one_date_keep_their_order() {
    let outcomes = vec![
        Some(document("x", "2024-01-01", &[])),
        Some(document("y", "2024-01-01", &[])),
        Some(document("z", "2025-01-01", &[])),
    ];
    let slugs: Vec<String> = list_documents(outcomes).into_iter().map(|d| d.slug).collect();
    assert_eq!(slugs, vec!["z", "x", "y"]);
}

#[test]
fn tags_are_listed_once_and_ascending() {
    let docs = vec![
        document("p", "2024-01-01", &["rust", "web", "rust"]),
        document("b", "2024-01-02", &["web", "api", "Zed"]),
    ];
    assert_eq!(collect_tags(&docs), vec!["Zed", "api", "rust", "web"]);
    assert!(collect_tags(&Vec::new()).is_empty());
}

#[test]
fn a_tag_is_put_in_its_place() {
    let mut tags = vec!["b".to_string(), "d".to_string()];
    insert_tag(&mut tags, "c");
    insert_tag(&mut tags, "a");
    insert_tag(&mut tags, "d");
    insert_tag(&mut tags, "e");
    insert_tag(&mut tags, "ab");
    assert_eq!(tags, vec!["a", "ab", "b", "c", "d", "e"]);
}

#[test]
fn cache_key_joins_category_and_slug() {
    assert_eq!(content_cache_key("blog", "hello"), "blog/hello");
}

#[test]
fn lookup_validates_before_it_reads_the_cache() {
    let cache: TtlCache<ContentItem> = TtlCache::new(3600);
    match lookup_content(&cache, "project..test", "a", 0) {
        Err(RequestFault::Category(e)) => assert_eq!(e.kind(), FaultKind::PathTraversal),
        _ => panic!("accepted"),
    }
    match lookup_content(&cache, "nonexistent", "../a", 0) {
        Err(RequestFault::Category(e)) => assert_eq!(e.kind(), FaultKind::InvalidCategory),
        _ => panic!("accepted"),
    }
    match lookup_content(&cache, "project", ".hidden", 0) {
        Err(RequestFault::Slug(e)) => assert_eq!(e.kind(), FaultKind::InvalidSlug),
        _ => panic!("accepted"),
    }
    assert!(lookup_content(&cache, "project", "project1", 0).unwrap().is_none());
}

#[test]
fn stored_document_is_found_until_it_expires() {
    let mut cache: TtlCache<ContentItem> = TtlCache::new(3600);
    let mut doc = document("first", "2024-01-01", &[]);
    doc.html_content = "<p>x</p>".to_string();
    store_content(&mut cache, doc, 100);
    let hit = lookup_content(&cache, "blog", "first", 3699).unwrap().unwrap();
    assert_eq!(hit.html_content, "<p>x</p>");
    assert!(lookup_content(&cache, "blog", "first", 3700).unwrap().is_none());
    assert!(lookup_content(&cache, "blog", "second", 100).unwrap().is_none());
    assert!(lookup_content(&cache, "project", "first", 100).unwrap().is_none());
}

#[test]
fn document_files_end_with_md() {
    assert!(is_document_file("post.md"));
    assert!(!is_document_file("post.txt"));
    assert!(!is_document_file(".md"));
    assert!(!is_document_file("md"));
    assert_eq!(document_stem_of("post.md"), "post");
    assert_eq!(document_stem_of("post.md.md"), "post");
    assert_eq!(document_stem_of("post.txt"), "post.txt");
    assert_eq!(document_stem_of(".md"), "");
}

fn yaml_text(value: &serde_yaml::Value, key: &str) -> String {
    value.get(key).and_then(|v| v.as_str()).unwrap().to_string()
}

#[test]
fn document_round_trip_from_text() {
    let text = "---\ntitle: \"T\"\ndate: \"2024-01-01\"\ntags: [\"a\", \"b\"]\ndescription: \"D\"\n---\n# H\n\npara";
    let framed = split_front_matter(text).unwrap();
    assert_eq!(framed.body, "# H\n\npara");
    let front: serde_yaml::Value = serde_yaml::from_str(&framed.front_matter).unwrap();
    let tags: Vec<String> = front
        .get("tags")
        .and_then(|t| t.as_sequence())
        .unwrap()
        .iter()
        .map(|t| t.as_str().unwrap().to_string())
        .collect();
    let meta = ContentMetadata {
        title: yaml_text(&front, "title"),
        date: yaml_text(&front, "date"),
        tags,
        description: yaml_text(&front, "description"),
        image: None,
        feature: None,
    };
    let item = parse_markdown_file("/srv/content/page/about.md", "page", meta, &framed.body);
    assert_eq!(item.slug, "about");
    assert_eq!(item.category, "page");
    assert_eq!(item.metadata.title, "T");
    assert_eq!(item.metadata.date, "2024-01-01");
    assert_eq!(item.metadata.tags, vec!["a".to_string(), "b".to_string()]);
    assert_eq!(item.metadata.description, "D");
    assert!(item.html_content.contains("<h1>"));
    assert!(item.html_content.contains("<p>"));
    assert!(!item.html_content.contains('#'));
    assert!(!item.html_content.contains("**"));
    assert_eq!(item.html_content, "<h1>H</h1>\n<p>para</p>\n");
}

#[test]
fn n_valid_and_one_malformed_list_n() {
    for place in 0..4 {
        let mut outcomes: Vec<Option<ContentItem>> = vec![
            Some(document("a", "2024-01-03", &[])),
            Some(document("b", "2024-01-02", &[])),
            Some(document("c", "2024-01-01", &[])),
        ];
        outcomes.insert(place, None);
        let slugs: Vec<String> = list_documents(outcomes).into_iter().map(|d| d.slug).collect();
        assert_eq!(slugs, vec!["a", "b", "c"]);
    }
}

#[test]
fn a_document_is_stored_under_the_key_it_is_asked_for() {
    let mut cache: TtlCache<ContentItem> = TtlCache::new(3600);
    for slug in ["first", "v1.2-notes", "a_b", "x.md"] {
        let path = content_path_candidate("/srv/content", "blog", Some(slug)).unwrap();
        assert_eq!(slug_of_path(&path), slug);
        let item = parse_markdown_file(&path, "blog", metadata("T", "2024-01-01", &[]), "body");
        store_content(&mut cache, item, 0);
        assert_eq!(lookup_content(&cache, "blog", slug, 1).unwrap().unwrap().slug, slug);
    }
}
