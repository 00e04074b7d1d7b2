//! Documents: framing of the front matter, assembly, listings and tags.
//!
//! A document is a text file that begins with the delimiter `---`; what
//! stands between the first two delimiters is its front matter, what follows
//! the second is its body. A text without front matter is refused: no
//! placeholder metadata is made up for it.

use vstd::prelude::*;
use crate::cache::TtlCache;
use crate::paths::content_path;
use crate::markdown::{markdown_html, render_markdown};
use crate::validation::{category_check, slug_check, validate_category, validate_slug,
    ValidationError};
use crate::models::{ContentItem, ContentMetadata};
use crate::order::{is_ranked, lemma_lex_total, lemma_lex_transitive, lex_le, ranked_order,
    sort_ranked, str_le, Ranked};
use crate::text::{append_str, chars_of, ends_with, first_occurrence, find_from, has_prefix,
    has_suffix, slice_chars, starts_with, string_of};

verus! {

/// Why a document could not be had.
#[derive(Debug)]
pub enum ContentError {
    /// No file lies at the resolved path.
    NotFound,
    /// The front matter or the metadata in it is malformed.
    ParseError(String),
    /// The file could not be read.
    IoError(String),
}

/// A white-space character of Unicode.
pub open spec fn is_space(c: char) -> bool {
    let u = c as u32;
    (0x09 <= u && u <= 0x0d) || u == 0x20 || u == 0x85 || u == 0xa0 || u == 0x1680 || (0x2000 <= u
        && u <= 0x200a) || u == 0x2028 || u == 0x2029 || u == 0x202f || u == 0x205f || u == 0x3000
}

/// `s` without the white space at its start.
pub open spec fn trim_start(s: Seq<char>) -> Seq<char>
    decreases s.len(),
{
    if s.len() > 0 && is_space(s[0]) {
        trim_start(s.drop_first())
    } else {
        s
    }
}

/// `s` without the white space at its end.
pub open spec fn trim_end(s: Seq<char>) -> Seq<char>
    decreases s.len(),
{
    if s.len() > 0 && is_space(s.last()) {
        trim_end(s.drop_last())
    } else {
        s
    }
}

/// `s` without the white space at its start and at its end.
pub open spec fn trimmed(s: Seq<char>) -> Seq<char> {
    trim_end(trim_start(s))
}

/// Tells whether `c` is white space.
fn is_space_char(c: char) -> (r: bool)
    ensures
        r == is_space(c),
{
    let u = c as u32;
    (0x09 <= u && u <= 0x0d) || u == 0x20 || u == 0x85 || u == 0xa0 || u == 0x1680 || (0x2000 <= u
        && u <= 0x200a) || u == 0x2028 || u == 0x2029 || u == 0x202f || u == 0x205f || u == 0x3000
}

/// Removes the white space at both ends of `s`.
pub fn trim_chars(s: &[char]) -> (out: Vec<char>)
    ensures
        out@ == trimmed(s@),
{
    let mut from: usize = 0;
    proof {
        assert(s@.subrange(0, s.len() as int) =~= s@);
    }
    while from < s.len() && is_space_char(s[from])
        invariant
            from <= s.len(),
            trim_start(s@) == trim_start(s@.subrange(from as int, s.len() as int)),
        decreases s.len() - from,
    {
        proof {
            assert(s@.subrange(from as int, s.len() as int).drop_first() =~= s@.subrange(
                from + 1,
                s.len() as int,
            ));
        }
        from += 1;
    }
    let mut to: usize = s.len();
    while to > from && is_space_char(s[to - 1])
        invariant
            from <= to <= s.len(),
            trimmed(s@) == trim_end(s@.subrange(from as int, to as int)),
        decreases to,
    {
        proof {
            assert(s@.subrange(from as int, to as int).drop_last() =~= s@.subrange(
                from as int,
                to - 1,
            ));
        }
        to -= 1;
    }
    slice_chars(s, from, to)
}

/// The front matter and the body of a document, as they stand in the text.
#[derive(Debug)]
pub struct FramedDocument {
    /// What stands between the first two delimiters.
    pub front_matter: String,
    /// What follows the second delimiter, without the white space around it.
    pub body: String,
}

/// The front matter and the body of a text: it must begin with `---`, the
/// front matter runs to the next `---`, and the body is the rest, trimmed.
pub open spec fn framed(content: Seq<char>) -> Option<(Seq<char>, Seq<char>)> {
    if !starts_with(content, "---"@) {
        None
    } else {
        match first_occurrence(content, "---"@, 3) {
            None => None,
            Some(j) => Some(
                (content.subrange(3, j), trimmed(content.subrange(j + 3, content.len() as int))),
            ),
        }
    }
}

/// The message for a text that has no front matter.
pub open spec fn front_matter_fault() -> Seq<char> {
    "missing or malformed front matter"@
}

/// Splits a document into front matter and body. A text that does not
/// begin with the delimiter, or has no second one, is a parse failure.
pub fn split_front_matter(content: &str) -> (r: Result<FramedDocument, ContentError>)
    ensures
        match r {
            Ok(doc) => framed(content@) == Some((doc.front_matter@, doc.body@)),
            Err(ContentError::ParseError(m)) => framed(content@) is None && m@
                == front_matter_fault(),
            Err(_) => false,
        },
{
    let c = chars_of(content);
    let delimiter = chars_of("---");
    proof {
        reveal_strlit("---");
        crate::text::lemma_first_occurrence(c@, delimiter@, 3);
    }
    if !has_prefix(c.as_slice(), delimiter.as_slice()) {
        return Err(ContentError::ParseError(String::from_str("missing or malformed front matter")));
    }
    match find_from(c.as_slice(), delimiter.as_slice(), 3) {
        None => Err(
            ContentError::ParseError(String::from_str("missing or malformed front matter")),
        ),
        Some(j) => {
            proof {
                assert(delimiter@.len() == 3);
                assert(crate::text::occurs_at(c@, delimiter@, j as int));
            }
            let end = c.len();
            assert(j + 3 <= end);
            let front = slice_chars(c.as_slice(), 3, j);
            let rest = slice_chars(c.as_slice(), j + 3, end);
            let body = trim_chars(rest.as_slice());
            Ok(
                FramedDocument {
                    front_matter: string_of(front.as_slice()),
                    body: string_of(body.as_slice()),
                },
            )
        },
    }
}

/// The last position of `c` in `s`, if it occurs.
pub open spec fn last_position(s: Seq<char>, c: char) -> Option<int>
    decreases s.len(),
{
    if s.len() == 0 {
        None
    } else if s.last() == c {
        Some(s.len() - 1)
    } else {
        last_position(s.drop_last(), c)
    }
}

/// Finds the last position of `c` in `s`.
fn find_last(s: &[char], c: char) -> (r: Option<usize>)
    ensures
        match r {
            Some(i) => last_position(s@, c) == Some(i as int) && i < s.len(),
            None => last_position(s@, c) is None,
        },
{
    let mut n: usize = s.len();
    proof {
        assert(s@.subrange(0, n as int) =~= s@);
    }
    while n > 0
        invariant
            n <= s.len(),
            last_position(s@, c) == last_position(s@.subrange(0, n as int), c),
        decreases n,
    {
        if s[n - 1] == c {
            return Some(n - 1);
        }
        proof {
            assert(s@.subrange(0, n as int).drop_last() =~= s@.subrange(0, n - 1));
        }
        n -= 1;
    }
    None
}

/// The name of the file at `path`: what follows the last slash.
pub open spec fn file_name_of(path: Seq<char>) -> Seq<char> {
    match last_position(path, '/') {
        Some(i) => path.subrange(i + 1, path.len() as int),
        None => path,
    }
}

/// A file name without its extension: what stands before the last dot,
/// unless that dot begins the name.
pub open spec fn stem_of(name: Seq<char>) -> Seq<char> {
    match last_position(name, '.') {
        Some(i) if i > 0 => name.subrange(0, i),
        _ => name,
    }
}

/// The slug of the document at `path`: its file name without extension.
pub open spec fn slug_of(path: Seq<char>) -> Seq<char> {
    stem_of(file_name_of(path))
}

/// Derives the slug of a document from the path of its file. The file name
/// is what follows the last slash, so a path that ends with a slash has an
/// empty slug.
pub fn slug_of_path(file_path: &str) -> (slug: String)
    ensures
        slug@ == slug_of(file_path@),
{
    let p = chars_of(file_path);
    let name = match find_last(p.as_slice(), '/') {
        Some(i) => slice_chars(p.as_slice(), i + 1, p.len()),
        None => p,
    };
    let stem = match find_last(name.as_slice(), '.') {
        Some(i) => {
            if i > 0 {
                slice_chars(name.as_slice(), 0, i)
            } else {
                name
            }
        },
        None => name,
    };
    string_of(stem.as_slice())
}

/// Assembles a document from the path of its file, its category, the
/// metadata read from its front matter and its body: the slug comes from the
/// path, the HTML from the body.
pub fn parse_markdown_file(
    file_path: &str,
    category: &str,
    metadata: ContentMetadata,
    body: &str,
) -> (item: ContentItem)
    ensures
        item.slug@ == slug_of(file_path@),
        item.category@ == category@,
        item.metadata == metadata,
        item.html_content@ == markdown_html(body@, true, true, true, true),
{
    ContentItem {
        slug: slug_of_path(file_path),
        metadata,
        html_content: render_markdown(body),
        category: String::from_str(category),
    }
}

impl Ranked for ContentItem {
    /// A document may stand before another whose date is not later.
    open spec fn precedes(&self, other: &Self) -> bool {
        lex_le(other.metadata.date@, self.metadata.date@)
    }

    fn stands_before(&self, other: &Self) -> (r: bool) {
        str_le(other.metadata.date.as_str(), self.metadata.date.as_str())
    }

    proof fn lemma_total(a: &Self, b: &Self) {
        lemma_lex_total(a.metadata.date@, b.metadata.date@);
    }

    proof fn lemma_transitive(a: &Self, b: &Self, c: &Self) {
        lemma_lex_transitive(c.metadata.date@, b.metadata.date@, a.metadata.date@);
    }
}

/// The documents among the outcomes of reading a category, in order:
/// a file that could not be read or parsed leaves no trace.
pub open spec fn readable<T>(outcomes: Seq<Option<T>>) -> Seq<T>
    decreases outcomes.len(),
{
    if outcomes.len() == 0 {
        Seq::empty()
    } else {
        match outcomes[0] {
            Some(item) => seq![item] + readable(outcomes.drop_first()),
            None => readable(outcomes.drop_first()),
        }
    }
}

/// Keeps the outcomes that are documents, in order.
pub fn keep_readable<T>(outcomes: Vec<Option<T>>) -> (items: Vec<T>)
    ensures
        items@ == readable(outcomes@),
{
    let ghost all = outcomes@;
    let mut rest = outcomes;
    let mut items: Vec<T> = Vec::new();
    proof {
        assert(items@ + readable(rest@) =~= readable(all));
    }
    while rest.len() > 0
        invariant
            items@ + readable(rest@) == readable(all),
        decreases rest.len(),
    {
        let ghost before = rest@;
        let ghost kept = items@;
        let outcome = rest.remove(0);
        proof {
            assert(rest@ =~= before.drop_first());
        }
        match outcome {
            Some(item) => {
                items.push(item);
                proof {
                    assert(items@ + readable(rest@) =~= kept + (seq![item] + readable(rest@)));
                }
            },
            None => {},
        }
    }
    proof {
        assert(items@ + readable(rest@) =~= items@);
    }
    items
}

/// Lists a category from the outcomes of reading its files: what could not
/// be read or parsed is skipped, and the documents stand newest first,
/// those of one date in the order in which they came.
pub fn list_documents(outcomes: Vec<Option<ContentItem>>) -> (items: Vec<ContentItem>)
    ensures
        items@ == ranked_order(readable(outcomes@)),
        is_ranked(items@),
        items@.to_multiset() == readable(outcomes@).to_multiset(),
        items@.len() == readable(outcomes@).len(),
{
    sort_ranked(keep_readable(outcomes))
}

/// A file that could not be read or parsed does not change what is listed.
pub proof fn lemma_unreadable_is_skipped<T>(outcomes: Seq<Option<T>>, k: int)
    requires
        0 <= k < outcomes.len(),
        outcomes[k] is None,
    ensures
        readable(outcomes) == readable(outcomes.remove(k)),
    decreases outcomes.len(),
{
    if k == 0 {
        assert(outcomes.remove(0) =~= outcomes.drop_first());
    } else {
        lemma_unreadable_is_skipped(outcomes.drop_first(), k - 1);
        assert(outcomes.remove(k).drop_first() =~= outcomes.drop_first().remove(k - 1));
        assert(outcomes.remove(k)[0] == outcomes[0]);
    }
}

/// Where every file was read and parsed, every document is listed.
pub proof fn lemma_all_readable<T>(items: Seq<T>)
    ensures
        readable(items.map_values(|d: T| Some(d))) == items,
    decreases items.len(),
{
    let outcomes = items.map_values(|d: T| Some(d));
    if items.len() > 0 {
        lemma_all_readable(items.drop_first());
        assert(outcomes.drop_first() =~= items.drop_first().map_values(|d: T| Some(d)));
        assert(seq![items[0]] + items.drop_first() =~= items);
    } else {
        assert(readable(outcomes) =~= items);
    }
}

/// A category with `n` valid documents and one malformed file, wherever it
/// stands among them, lists exactly the `n` documents.
pub proof fn lemma_one_malformed_lists_the_rest<T>(items: Seq<T>, k: int)
    requires
        0 <= k <= items.len(),
    ensures
        readable(items.map_values(|d: T| Some(d)).insert(k, None)) == items,
        readable(items.map_values(|d: T| Some(d)).insert(k, None)).len() == items.len(),
{
    let outcomes = items.map_values(|d: T| Some(d));
    lemma_unreadable_is_skipped(outcomes.insert(k, None), k);
    assert(outcomes.insert(k, None).remove(k) =~= outcomes);
    lemma_all_readable(items);
}

/// The strings of a list of tags.
pub open spec fn names(tags: Seq<String>) -> Seq<Seq<char>> {
    tags.map_values(|t: String| t@)
}

/// Every tag of every document, in order, repeated as often as it occurs.
pub open spec fn all_tags(documents: Seq<ContentItem>) -> Seq<Seq<char>>
    decreases documents.len(),
{
    if documents.len() == 0 {
        Seq::empty()
    } else {
        all_tags(documents.drop_last()) + names(documents.last().metadata.tags@)
    }
}

/// Every string is less than every later one.
pub open spec fn strictly_ascending(s: Seq<Seq<char>>) -> bool {
    forall|i: int, j: int| #![trigger s[i], s[j]] 0 <= i < j < s.len() ==> crate::order::lex_lt(s[i], s[j])
}

proof fn lemma_contains_concat<A>(a: Seq<A>, b: Seq<A>, t: A)
    ensures
        (a + b).contains(t) <==> a.contains(t) || b.contains(t),
{
    if a.contains(t) {
        let k = choose|k: int| 0 <= k < a.len() && a[k] == t;
        assert((a + b)[k] == t);
    }
    if b.contains(t) {
        let k = choose|k: int| 0 <= k < b.len() && b[k] == t;
        assert((a + b)[a.len() + k] == t);
    }
    if (a + b).contains(t) {
        let k = choose|k: int| 0 <= k < (a + b).len() && (a + b)[k] == t;
        if k < a.len() {
            assert(a[k] == t);
        } else {
            assert(b[k - a.len()] == t);
        }
    }
}

proof fn lemma_contains_insert<A>(s: Seq<A>, p: int, x: A, t: A)
    requires
        0 <= p <= s.len(),
    ensures
        s.insert(p, x).contains(t) <==> s.contains(t) || t == x,
{
    let u = s.insert(p, x);
    assert(u[p] == x);
    if s.contains(t) {
        let k = choose|k: int| 0 <= k < s.len() && s[k] == t;
        if k < p {
            assert(u[k] == t);
        } else {
            assert(u[k + 1] == t);
        }
    }
    if u.contains(t) {
        let k = choose|k: int| 0 <= k < u.len() && u[k] == t;
        if k < p {
            assert(s[k] == t);
        } else if k > p {
            assert(s[k - 1] == t);
        }
    }
}

/// Tells whether `a` is less than `b` in the order of strings.
fn str_lt(a: &str, b: &str) -> (r: bool)
    ensures
        r == crate::order::lex_lt(a@, b@),
{
    let x = chars_of(a);
    let y = chars_of(b);
    str_le(a, b) && !crate::text::same_chars(x.as_slice(), y.as_slice())
}

/// Puts `tag` into the ascending `out`, unless it is there already.
pub fn insert_tag(out: &mut Vec<String>, tag: &str)
    requires
        strictly_ascending(names(old(out)@)),
    ensures
        strictly_ascending(names(final(out)@)),
        forall|t: Seq<char>|
            names(final(out)@).contains(t) <==> names(old(out)@).contains(t) || t == tag@,
{
    let mut p: usize = 0;
    while p < out.len() && str_lt(out[p].as_str(), tag)
        invariant
            p <= out@.len(),
            out@ == old(out)@,
            forall|j: int| 0 <= j < p ==> crate::order::lex_lt(#[trigger] names(out@)[j], tag@),
        decreases out.len() - p,
    {
        p += 1;
    }
    let ghost before = names(out@);
    if p < out.len() {
        let x = chars_of(out[p].as_str());
        let y = chars_of(tag);
        if crate::text::same_chars(x.as_slice(), y.as_slice()) {
            proof {
                assert(before[p as int] == tag@);
                assert(before.contains(tag@));
            }
            return;
        }
    }
    let owned = String::from_str(tag);
    proof {
        let after = before.insert(p as int, tag@);
        assert(names(out@.insert(p as int, owned)) =~= after);
        if p < before.len() {
            lemma_lex_total(before[p as int], tag@);
        }
        assert forall|i: int, j: int| #![trigger after[i], after[j]] 0 <= i < j < after.len() implies crate::order::lex_lt(
            after[i],
            after[j],
        ) by {
            if j < p {
                assert(after[i] == before[i] && after[j] == before[j]);
            } else if j == p {
                assert(after[i] == before[i]);
            } else if i < p {
                assert(after[i] == before[i] && after[j] == before[j - 1]);
            } else if i == p {
                assert(after[j] == before[j - 1]);
                if j - 1 > p {
                    assert(crate::order::lex_lt(before[p as int], before[j - 1]));
                    lemma_lex_transitive(tag@, before[p as int], before[j - 1]);
                    if tag@ == before[j - 1] {
                        crate::order::lemma_lex_antisymmetric(tag@, before[p as int]);
                    }
                }
            } else {
                assert(after[i] == before[i - 1] && after[j] == before[j - 1]);
            }
        }
        assert forall|t: Seq<char>| after.contains(t) <==> before.contains(t) || t == tag@ by {
            lemma_contains_insert(before, p as int, tag@, t);
        }
    }
    out.insert(p, owned);
}

/// Gathers the tags of all the documents: each tag once, in ascending
/// order.
pub fn collect_tags(documents: &Vec<ContentItem>) -> (tags: Vec<String>)
    ensures
        strictly_ascending(names(tags@)),
        forall|t: Seq<char>| names(tags@).contains(t) <==> all_tags(documents@).contains(t),
{
    let mut out: Vec<String> = Vec::new();
    let mut i: usize = 0;
    while i < documents.len()
        invariant
            i <= documents.len(),
            strictly_ascending(names(out@)),
            forall|t: Seq<char>|
                names(out@).contains(t) <==> all_tags(documents@.take(i as int)).contains(t),
        decreases documents.len() - i,
    {
        let tags = &documents[i].metadata.tags;
        let ghost seen = all_tags(documents@.take(i as int));
        let mut j: usize = 0;
        while j < tags.len()
            invariant
                j <= tags.len(),
                strictly_ascending(names(out@)),
                forall|t: Seq<char>|
                    names(out@).contains(t) <==> seen.contains(t) || names(tags@.take(j as int)).contains(
                        t,
                    ),
            decreases tags.len() - j,
        {
            let ghost held = names(out@);
            insert_tag(&mut out, tags[j].as_str());
            proof {
                let done = names(tags@.take(j as int));
                let next = names(tags@.take(j + 1));
                assert(next =~= done.push(tags@[j as int]@));
                assert forall|t: Seq<char>| names(out@).contains(t) <==> seen.contains(t)
                    || next.contains(t) by {
                    lemma_contains_insert(done, done.len() as int, tags@[j as int]@, t);
                    assert(done.insert(done.len() as int, tags@[j as int]@) =~= next);
                    assert(held.contains(t) <==> seen.contains(t) || done.contains(t));
                    assert(names(out@).contains(t) <==> held.contains(t) || t == tags@[j as int]@);
                }
            }
            j += 1;
        }
        proof {
            assert(tags@.take(tags.len() as int) =~= tags@);
            let upto = documents@.take(i + 1);
            assert(upto.drop_last() =~= documents@.take(i as int));
            assert(upto.last() == documents@[i as int]);
            assert(all_tags(upto) == seen + names(tags@));
            assert forall|t: Seq<char>| names(out@).contains(t) <==> all_tags(upto).contains(
                t,
            ) by {
                lemma_contains_concat(seen, names(tags@), t);
                assert(names(out@).contains(t) <==> seen.contains(t) || names(
                    tags@.take(tags.len() as int),
                ).contains(t));
            }
        }
        i += 1;
    }
    proof {
        assert(documents@.take(documents.len() as int) =~= documents@);
    }
    out
}

/// A listed tag stands once: no two positions of an ascending list hold
/// the same string.
pub proof fn lemma_ascending_has_no_duplicates(s: Seq<Seq<char>>)
    requires
        strictly_ascending(s),
    ensures
        s.no_duplicates(),
{
    assert forall|i: int, j: int| 0 <= i < s.len() && 0 <= j < s.len() && i != j implies s[i]
        != s[j] by {
        if i < j {
            assert(crate::order::lex_lt(s[i], s[j]));
        } else {
            assert(crate::order::lex_lt(s[j], s[i]));
        }
    }
}

/// The key under which a document is cached.
pub open spec fn content_key(category: Seq<char>, slug: Seq<char>) -> Seq<char> {
    category + "/"@ + slug
}

/// The key under which the document `slug` of `category` is cached.
pub fn content_cache_key(category: &str, slug: &str) -> (key: String)
    ensures
        key@ == content_key(category@, slug@),
{
    let mut out: Vec<char> = Vec::new();
    append_str(&mut out, category);
    append_str(&mut out, "/");
    append_str(&mut out, slug);
    proof {
        assert(out@ =~= content_key(category@, slug@));
    }
    string_of(out.as_slice())
}

/// Why a request for a document is refused: the fault, and the parameter
/// that has it.
#[derive(Debug)]
pub enum RequestFault {
    Category(ValidationError),
    Slug(ValidationError),
}

/// Begins a request for a document: the category and the slug are
/// validated, in that order, and the cache is read. `Ok(None)` tells the
/// caller to resolve, read and render the document, and to store it.
pub fn lookup_content<'a>(
    cache: &'a TtlCache<ContentItem>,
    category: &str,
    slug: &str,
    now: i64,
) -> (r: Result<Option<&'a ContentItem>, RequestFault>)
    ensures
        match category_check(category@) {
            Err(fault) => r matches Err(RequestFault::Category(e)) && e@ == fault,
            Ok(_) => match slug_check(slug@) {
                Err(fault) => r matches Err(RequestFault::Slug(e)) && e@ == fault,
                Ok(_) => r matches Ok(found) && (match found {
                    Some(item) => cache.lookup(content_key(category@, slug@), now as int) == Some(
                        *item,
                    ),
                    None => cache.lookup(content_key(category@, slug@), now as int) is None,
                }),
            },
        },
{
    match validate_category(category) {
        Err(e) => {
            return Err(RequestFault::Category(e));
        },
        Ok(_) => {},
    }
    match validate_slug(slug) {
        Err(e) => {
            return Err(RequestFault::Slug(e));
        },
        Ok(_) => {},
    }
    let key = content_cache_key(category, slug);
    Ok(cache.get(key.as_str(), now))
}

/// Stores a rendered document under the key of its category and slug.
pub fn store_content(cache: &mut TtlCache<ContentItem>, item: ContentItem, now: i64)
    ensures
        final(cache).spec_window() == old(cache).spec_window(),
        final(cache)@ == old(cache)@.insert(
            content_key(item.category@, item.slug@),
            (item, now as int),
        ),
{
    let key = content_cache_key(item.category.as_str(), item.slug.as_str());
    cache.put(key.as_str(), item, now);
}

/// A file name without the `.md` at its end, however often it is repeated.
pub open spec fn document_stem(name: Seq<char>) -> Seq<char>
    decreases name.len(),
{
    if ends_with(name, ".md"@) && name.len() >= 3 {
        document_stem(name.subrange(0, name.len() - 3))
    } else {
        name
    }
}

/// The slug that a file of a category is asked for by: its name without
/// every `.md` at its end.
pub fn document_stem_of(file_name: &str) -> (stem: String)
    ensures
        stem@ == document_stem(file_name@),
{
    let name = chars_of(file_name);
    let suffix = chars_of(".md");
    proof {
        reveal_strlit(".md");
        assert(name@.subrange(0, name.len() as int) =~= name@);
    }
    let mut n: usize = name.len();
    while n >= 3 && has_suffix(slice_chars(name.as_slice(), 0, n).as_slice(), suffix.as_slice())
        invariant
            n <= name.len(),
            suffix@ == ".md"@,
            ".md"@.len() == 3,
            document_stem(name@) == document_stem(name@.subrange(0, n as int)),
        decreases n,
    {
        proof {
            assert(name@.subrange(0, n as int).subrange(0, n - 3) =~= name@.subrange(0, n - 3));
        }
        n -= 3;
    }
    string_of(slice_chars(name.as_slice(), 0, n).as_slice())
}

/// A file name with the extension `md`: it ends with `.md`, and more than
/// that stands before.
pub open spec fn is_document_name(name: Seq<char>) -> bool {
    name.len() > 3 && ends_with(name, ".md"@)
}

/// Tells whether a file of a category directory is a document.
pub fn is_document_file(file_name: &str) -> (r: bool)
    ensures
        r == is_document_name(file_name@),
{
    let name = chars_of(file_name);
    let suffix = chars_of(".md");
    name.len() > 3 && has_suffix(name.as_slice(), suffix.as_slice())
}

proof fn lemma_last_position_split(a: Seq<char>, c: char, b: Seq<char>)
    requires
        !b.contains(c),
    ensures
        last_position(a + seq![c] + b, c) == Some(a.len() as int),
    decreases b.len(),
{
    let s = a + seq![c] + b;
    if b.len() == 0 {
        assert(s.last() == c);
    } else {
        assert(s.last() == b.last());
        assert(b[b.len() - 1] != c);
        assert(s.drop_last() =~= a + seq![c] + b.drop_last());
        assert(!b.drop_last().contains(c)) by {
            if b.drop_last().contains(c) {
                let k = choose|k: int| 0 <= k < b.drop_last().len() && b.drop_last()[k] == c;
                assert(b[k] == c);
            }
        }
        lemma_last_position_split(a, c, b.drop_last());
    }
}

/// The slug that is derived from the path of an accepted slug is that
/// slug: a document is stored in the cache under the key by which it is
/// asked for.
pub proof fn lemma_slug_of_content_path(base: Seq<char>, category: Seq<char>, slug: Seq<char>)
    requires
        slug_check(slug) is Ok,
    ensures
        slug_of(content_path(base, category, Some(slug))) == slug,
        content_key(category, slug_of(content_path(base, category, Some(slug)))) == content_key(
            category,
            slug,
        ),
{
    reveal_strlit("/");
    reveal_strlit(".md");
    let path = content_path(base, category, Some(slug));
    let name = slug + ".md"@;
    let ext = seq!['m', 'd'];
    assert(!name.contains('/')) by {
        if name.contains('/') {
            let k = choose|k: int| 0 <= k < name.len() && name[k] == '/';
            if k < slug.len() {
                assert(slug[k] == '/');
            }
        }
    }
    assert(path =~= (base + "/"@ + category) + seq!['/'] + name);
    lemma_last_position_split(base + "/"@ + category, '/', name);
    assert(file_name_of(path) =~= name);
    assert(!ext.contains('.')) by {
        if ext.contains('.') {
            let k = choose|k: int| 0 <= k < ext.len() && ext[k] == '.';
        }
    }
    assert(name =~= slug + seq!['.'] + ext);
    lemma_last_position_split(slug, '.', ext);
    assert(name.subrange(0, slug.len() as int) =~= slug);
}

} // verus!
