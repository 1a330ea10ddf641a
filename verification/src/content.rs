//! Tome content moving in and out: Markdown import, image types, search
//! result merging and Markdown export.

use vstd::prelude::*;

use crate::s3::{trim_char, trim_char_chars};
use crate::text::{
    chars_of, chars_eq, concat, lower, lower_chars, matches_at, occurs_at, split_char,
    split_chars, starts_with, starts_with_chars, string_of, sub_chars, trim, trim_chars, views,
    trim_start, trim_end, is_ws, contains_sub, cat, owned, string_opt,
};

verus! {

// ---------------------------------------------------------------------------
// Markdown import
// ---------------------------------------------------------------------------

/// Title used for a page whose file gives none.
pub const UNTITLED: &'static str = "Untitled";

/// The first position at or after `i` where `sub` occurs in `s`.
pub open spec fn find_from(s: Seq<char>, sub: Seq<char>, i: int) -> Option<int>
    decreases s.len() + 1 - i,
{
    if i < 0 || i + sub.len() > s.len() {
        None
    } else if occurs_at(s, sub, i) {
        Some(i)
    } else {
        find_from(s, sub, i + 1)
    }
}

pub open spec fn dashes() -> Seq<char> {
    seq!['-', '-', '-']
}

pub open spec fn title_key() -> Seq<char> {
    seq!['t', 'i', 't', 'l', 'e', ':']
}

/// The title a front-matter line gives: what follows `title:`, trimmed and
/// without surrounding double quotes.
pub open spec fn title_value(line: Seq<char>) -> Seq<char> {
    trim_char(trim(trim(line).skip(6)), '"')
}

/// A front-matter line that names a non-empty title.
pub open spec fn gives_title(line: Seq<char>) -> bool {
    starts_with(trim(line), title_key()) && title_value(line).len() > 0
}

/// The title of the first line that gives one.
pub open spec fn title_in(lines: Seq<Seq<char>>) -> Option<Seq<char>>
    decreases lines.len(),
{
    if lines.len() == 0 {
        None
    } else if gives_title(lines[0]) {
        Some(title_value(lines[0]))
    } else {
        title_in(lines.drop_first())
    }
}

/// Title and body of a Markdown file. With front matter (the text opens
/// with `---` and a later `---` closes it) the body is what follows the
/// front matter, trimmed, and the title is the first non-empty `title:`
/// value in it; otherwise the body is the whole text. The file's stem (or
/// `Untitled`) is the title wherever none was found. Lines are the pieces
/// between `\n`; a trailing `\r` makes no difference since each line is
/// trimmed before it is read.
pub open spec fn parsed_markdown(content: Seq<char>, stem: Option<Seq<char>>) -> (Seq<char>, Seq<char>) {
    let fallback = match stem {
        Some(s) => s,
        None => UNTITLED@,
    };
    if starts_with(content, dashes()) {
        match find_from(content, dashes(), 3) {
            Some(e) => {
                let body = trim(content.skip(e + 3));
                match title_in(split_char(content.subrange(3, e), '\n')) {
                    Some(t) => (t, body),
                    None => (fallback, body),
                }
            },
            None => (fallback, content),
        }
    } else {
        (fallback, content)
    }
}

proof fn lemma_find_from_none(s: Seq<char>, sub: Seq<char>, i: int)
    requires
        0 <= i,
        forall|j: int| i <= j ==> !occurs_at(s, sub, j),
    ensures
        find_from(s, sub, i) is None,
    decreases s.len() + 1 - i,
{
    if i + sub.len() <= s.len() {
        lemma_find_from_none(s, sub, i + 1);
    }
}

proof fn lemma_find_from_hit(s: Seq<char>, sub: Seq<char>, i: int, k: int)
    requires
        0 <= i <= k,
        occurs_at(s, sub, k),
        forall|j: int| i <= j < k ==> !occurs_at(s, sub, j),
    ensures
        find_from(s, sub, i) == Some(k),
    decreases k - i,
{
    if i < k {
        lemma_find_from_hit(s, sub, i + 1, k);
    }
}

/// The first occurrence of `p` in `v` at or after `from`.
fn find_chars_from(v: &Vec<char>, p: &Vec<char>, from: usize) -> (r: Option<usize>)
    ensures
        match r {
            Some(k) => find_from(v@, p@, from as int) == Some(k as int) && from <= k
                && occurs_at(v@, p@, k as int),
            None => find_from(v@, p@, from as int) is None,
        },
{
    if from > v.len() || p.len() > v.len() - from {
        proof {
            lemma_find_from_none(v@, p@, from as int);
        }
        return None;
    }
    let limit = v.len() - p.len();
    let mut i = from;
    loop
        invariant_except_break
            limit == v.len() - p.len(),
            from <= i <= limit,
            forall|j: int| from <= j < i ==> !occurs_at(v@, p@, j),
        ensures
            forall|j: int| from <= j ==> !occurs_at(v@, p@, j),
        decreases limit - i,
    {
        if matches_at(v, p, i) {
            proof {
                lemma_find_from_hit(v@, p@, from as int, i as int);
            }
            return Some(i);
        }
        if i == limit {
            break;
        }
        i = i + 1;
    }
    proof {
        lemma_find_from_none(v@, p@, from as int);
    }
    None
}

/// Title of the first line that gives one, read in the order of `lines`.
fn title_of_lines(lines: &Vec<Vec<char>>) -> (r: Option<Vec<char>>)
    ensures
        match r {
            Some(t) => title_in(views(lines@)) == Some(t@),
            None => title_in(views(lines@)) is None,
        },
{
    let key = chars_of("title:");
    proof {
        reveal_strlit("title:");
        assert(key@ =~= title_key());
    }
    let mut i: usize = 0;
    assert(views(lines@).skip(0) =~= views(lines@));
    while i < lines.len()
        invariant
            i <= lines.len(),
            key@ == title_key(),
            title_in(views(lines@)) == title_in(views(lines@).skip(i as int)),
        decreases lines.len() - i,
    {
        let ghost rest = views(lines@).skip(i as int);
        assert(rest[0] == lines@[i as int]@);
        assert(rest.drop_first() =~= views(lines@).skip(i + 1));
        let t = trim_chars(&lines[i]);
        if starts_with_chars(&t, &key) {
            let after = sub_chars(&t, 6, t.len());
            assert(after@ =~= t@.skip(6));
            let value = trim_char_chars(&trim_chars(&after), '"');
            if value.len() > 0 {
                return Some(value);
            }
        }
        i = i + 1;
    }
    assert(views(lines@).skip(i as int).len() == 0);
    None
}

/// The title and body of an imported Markdown file; `file_stem` is the
/// file's name without its extension, when it has one that is text.
pub fn parse_markdown(content: &str, file_stem: Option<&str>) -> (r: (String, String))
    ensures
        (r.0@, r.1@) == parsed_markdown(content@, crate::text::str_opt(file_stem)),
{
    let fallback = match file_stem {
        Some(s) => chars_of(s),
        None => chars_of(UNTITLED),
    };
    let v = chars_of(content);
    let d = chars_of("---");
    proof {
        reveal_strlit("---");
        assert(d@ =~= dashes());
    }
    if starts_with_chars(&v, &d) {
        match find_chars_from(&v, &d, 3) {
            Some(e) => {
                let front = sub_chars(&v, 3, e);
                let tail = sub_chars(&v, e + 3, v.len());
                assert(tail@ =~= v@.skip(e + 3));
                let body = trim_chars(&tail);
                let lines = split_chars(&front, '\n');
                match title_of_lines(&lines) {
                    Some(t) => (string_of(&t), string_of(&body)),
                    None => (string_of(&fallback), string_of(&body)),
                }
            },
            None => (string_of(&fallback), string_of(&v)),
        }
    } else {
        (string_of(&fallback), string_of(&v))
    }
}

/// The stem of a Markdown file's name (the name without `.md`), or `None`
/// when the name has no `md` extension. As with `Path::extension`, a name
/// that is only `.md` has none.
pub open spec fn markdown_stem_of(name: Seq<char>) -> Option<Seq<char>> {
    if name.len() > 3 && name.skip(name.len() - 3) == seq!['.', 'm', 'd'] {
        Some(name.take(name.len() - 3))
    } else {
        None
    }
}

/// Which directory entries are imported: `Some(stem)` for a Markdown file.
pub fn markdown_stem(file_name: &str) -> (r: Option<String>)
    ensures
        crate::text::string_opt(r) == markdown_stem_of(file_name@),
{
    let v = chars_of(file_name);
    let n = v.len();
    if n > 3 && v[n - 3] == '.' && v[n - 2] == 'm' && v[n - 1] == 'd' {
        assert(v@.skip(n - 3) =~= seq!['.', 'm', 'd']);
        let stem = sub_chars(&v, 0, n - 3);
        assert(stem@ =~= v@.take(n - 3));
        Some(string_of(&stem))
    } else {
        proof {
            if n > 3 && v@.skip(n - 3) == seq!['.', 'm', 'd'] {
                assert(v@.skip(n - 3)[0] == v@[n - 3]);
                assert(v@.skip(n - 3)[1] == v@[n - 2]);
                assert(v@.skip(n - 3)[2] == v@[n - 1]);
            }
        }
        None
    }
}

// ---------------------------------------------------------------------------
// Images
// ---------------------------------------------------------------------------

/// What follows the last `.` of a file name (the whole name when it has
/// none), as `str::rsplit('.').next()` gives it.
pub open spec fn extension_of(name: Seq<char>) -> Seq<char> {
    split_char(name, '.').last()
}

/// The MIME type stored for an image, from its extension in any letter
/// case. `str::to_lowercase` turns an extension into one of these ASCII
/// names exactly when ASCII lower-casing does: no other character lowers
/// to one of their letters.
pub open spec fn mime_for(ext: Seq<char>) -> Seq<char> {
    let e = lower(ext);
    if e == "jpg"@ || e == "jpeg"@ {
        "image/jpeg"@
    } else if e == "png"@ {
        "image/png"@
    } else if e == "gif"@ {
        "image/gif"@
    } else if e == "webp"@ {
        "image/webp"@
    } else if e == "svg"@ {
        "image/svg+xml"@
    } else if e == "bmp"@ {
        "image/bmp"@
    } else {
        "application/octet-stream"@
    }
}

/// The MIME type of an image file, by its name.
pub fn mime_from_extension(filename: &str) -> (r: &'static str)
    ensures
        r@ == mime_for(extension_of(filename@)),
{
    let parts = split_chars(&chars_of(filename), '.');
    proof {
        crate::text::lemma_split_char_nonempty(filename@, '.');
    }
    let last = parts.len() - 1;
    assert(parts@[last as int]@ == extension_of(filename@));
    let e = lower_chars(&parts[last]);
    if chars_eq(&e, &chars_of("jpg")) || chars_eq(&e, &chars_of("jpeg")) {
        "image/jpeg"
    } else if chars_eq(&e, &chars_of("png")) {
        "image/png"
    } else if chars_eq(&e, &chars_of("gif")) {
        "image/gif"
    } else if chars_eq(&e, &chars_of("webp")) {
        "image/webp"
    } else if chars_eq(&e, &chars_of("svg")) {
        "image/svg+xml"
    } else if chars_eq(&e, &chars_of("bmp")) {
        "image/bmp"
    } else {
        "application/octet-stream"
    }
}

/// What an import reports: how many pages were made and what went wrong.
pub struct ImportResult {
    pub pages_imported: usize,
    pub errors: Vec<String>,
}

/// A stored image without its bytes.
pub struct ImageInfo {
    pub id: String,
    pub filename: String,
    pub mime_type: String,
    /// RFC 3339.
    pub created_at: String,
}

/// A stored image with its bytes.
pub struct ImageData {
    pub id: String,
    pub filename: String,
    pub mime_type: String,
    pub data: Vec<u8>,
}

/// The record of an image about to be stored, its type taken from its name.
pub fn new_image_info(id: &str, filename: &str, now: &str) -> (r: ImageInfo)
    ensures
        r.id@ == id@,
        r.filename@ == filename@,
        r.mime_type@ == mime_for(extension_of(filename@)),
        r.created_at@ == now@,
{
    let mime = mime_from_extension(filename);
    ImageInfo {
        id: crate::text::owned(id),
        filename: crate::text::owned(filename),
        mime_type: crate::text::owned(mime),
        created_at: crate::text::owned(now),
    }
}

// ---------------------------------------------------------------------------
// Search
// ---------------------------------------------------------------------------

/// One page found by a search.
pub struct SearchResult {
    pub page_id: String,
    pub title: String,
    pub entity_type_id: Option<String>,
    /// Highlighted excerpt, for a match in the page's text.
    pub snippet: Option<String>,
}

/// A search result as plain values.
pub type HitView = (Seq<char>, Seq<char>, Option<Seq<char>>, Option<Seq<char>>);

pub open spec fn hit_view(r: SearchResult) -> HitView {
    (r.page_id@, r.title@, crate::text::string_opt(r.entity_type_id), crate::text::string_opt(r.snippet))
}

pub open spec fn hit_views(v: Seq<SearchResult>) -> Seq<HitView> {
    v.map_values(|r: SearchResult| hit_view(r))
}

pub open spec fn hit_ids(v: Seq<HitView>) -> Seq<Seq<char>> {
    v.map_values(|h: HitView| h.0)
}

/// A title match as listed: without an excerpt.
pub open spec fn without_snippet(h: HitView) -> HitView {
    (h.0, h.1, h.2, None)
}

/// The text matches that add a page: neither among the title matches nor
/// an earlier text match, in order.
pub open spec fn new_hits(title_ids: Seq<Seq<char>>, content: Seq<HitView>) -> Seq<HitView>
    decreases content.len(),
{
    if content.len() == 0 {
        Seq::empty()
    } else {
        let prev = new_hits(title_ids, content.drop_last());
        let id = content.last().0;
        if title_ids.contains(id) || hit_ids(content.drop_last()).contains(id) {
            prev
        } else {
            prev.push(content.last())
        }
    }
}

/// What a search lists: the title matches first, then the text matches
/// that add a page.
pub open spec fn merged_hits(title: Seq<HitView>, content: Seq<HitView>) -> Seq<HitView> {
    title.map_values(|h: HitView| without_snippet(h)) + new_hits(hit_ids(title), content)
}

/// Each title match is listed at its place with its page id, title and
/// entity type unchanged; only its excerpt is dropped. The text matches
/// listed after them are text matches as found.
pub proof fn lemma_title_hits_listed_unchanged(title: Seq<HitView>, content: Seq<HitView>)
    ensures
        merged_hits(title, content).len() >= title.len(),
        forall|i: int| 0 <= i < title.len() ==> {
            let h = #[trigger] merged_hits(title, content)[i];
            h.0 == title[i].0 && h.1 == title[i].1 && h.2 == title[i].2 && h.3 is None
        },
        forall|j: int| title.len() <= j < merged_hits(title, content).len() ==> content.contains(
            #[trigger] merged_hits(title, content)[j],
        ),
{
    lemma_new_hits_from_content(hit_ids(title), content);
    let head = title.map_values(|h: HitView| without_snippet(h));
    let m = merged_hits(title, content);
    assert forall|j: int| title.len() <= j < m.len() implies content.contains(#[trigger] m[j]) by {
        assert(m[j] == new_hits(hit_ids(title), content)[j - title.len()]);
    }
}

proof fn lemma_new_hits_from_content(title_ids: Seq<Seq<char>>, content: Seq<HitView>)
    ensures
        forall|k: int| 0 <= k < new_hits(title_ids, content).len() ==> content.contains(
            #[trigger] new_hits(title_ids, content)[k],
        ),
    decreases content.len(),
{
    if content.len() > 0 {
        let c0 = content.drop_last();
        lemma_new_hits_from_content(title_ids, c0);
        let prev = new_hits(title_ids, c0);
        assert forall|k: int| 0 <= k < new_hits(title_ids, content).len() implies content.contains(
            #[trigger] new_hits(title_ids, content)[k],
        ) by {
            if k < prev.len() {
                let x = prev[k];
                assert(c0.contains(x));
                let q = choose|q: int| 0 <= q < c0.len() && c0[q] == x;
                assert(content[q] == x);
            } else {
                assert(content[content.len() - 1] == content.last());
            }
        }
    }
}

/// No two hits name the same page.
pub open spec fn distinct_pages(v: Seq<HitView>) -> bool {
    forall|i: int, j: int| 0 <= i < j < v.len() ==> #[trigger] v[i].0 != #[trigger] v[j].0
}

proof fn lemma_push_contains(s: Seq<Seq<char>>, x: Seq<char>, y: Seq<char>)
    ensures
        s.push(x).contains(y) <==> (s.contains(y) || x == y),
{
    if s.push(x).contains(y) {
        let k = choose|k: int| 0 <= k < s.push(x).len() && s.push(x)[k] == y;
        if k < s.len() {
            assert(s[k] == y);
        }
    }
    if s.contains(y) {
        let k = choose|k: int| 0 <= k < s.len() && s[k] == y;
        assert(s.push(x)[k] == y);
    }
    if x == y {
        assert(s.push(x)[s.len() as int] == y);
    }
}

proof fn lemma_concat_contains(a: Seq<Seq<char>>, b: Seq<Seq<char>>, y: Seq<char>)
    ensures
        (a + b).contains(y) <==> (a.contains(y) || b.contains(y)),
{
    if (a + b).contains(y) {
        let k = choose|k: int| 0 <= k < (a + b).len() && (a + b)[k] == y;
        if k < a.len() {
            assert(a[k] == y);
        } else {
            assert(b[k - a.len()] == y);
        }
    }
    if a.contains(y) {
        let k = choose|k: int| 0 <= k < a.len() && a[k] == y;
        assert((a + b)[k] == y);
    }
    if b.contains(y) {
        let k = choose|k: int| 0 <= k < b.len() && b[k] == y;
        assert((a + b)[a.len() + k] == y);
    }
}

proof fn lemma_new_hits(title_ids: Seq<Seq<char>>, content: Seq<HitView>)
    ensures
        distinct_pages(new_hits(title_ids, content)),
        forall|id: Seq<char>| #[trigger] hit_ids(new_hits(title_ids, content)).contains(id) <==> (
            hit_ids(content).contains(id) && !title_ids.contains(id)),
    decreases content.len(),
{
    if content.len() > 0 {
        let c0 = content.drop_last();
        let c = content.last();
        lemma_new_hits(title_ids, c0);
        let prev = new_hits(title_ids, c0);
        assert(hit_ids(content) =~= hit_ids(c0).push(c.0));
        assert forall|id: Seq<char>| #[trigger] hit_ids(content).contains(id) <==> (hit_ids(c0).contains(id) || id == c.0) by {
            lemma_push_contains(hit_ids(c0), c.0, id);
        }
        if title_ids.contains(c.0) || hit_ids(c0).contains(c.0) {
            assert(new_hits(title_ids, content) == prev);
        } else {
            assert forall|id: Seq<char>| #[trigger] hit_ids(prev.push(c)).contains(id) <==> (hit_ids(prev).contains(id) || id == c.0) by {
                assert(hit_ids(prev.push(c)) =~= hit_ids(prev).push(c.0));
                lemma_push_contains(hit_ids(prev), c.0, id);
            }
            assert(new_hits(title_ids, content) == prev.push(c));
            assert(hit_ids(prev.push(c)) =~= hit_ids(prev).push(c.0));
            assert forall|i: int| 0 <= i < prev.len() implies prev[i].0 != c.0 by {
                assert(hit_ids(prev)[i] == prev[i].0);
                assert(hit_ids(prev).contains(prev[i].0));
            }
        }
    } else {
        assert(hit_ids(new_hits(title_ids, content)) =~= Seq::<Seq<char>>::empty());
        assert(hit_ids(content) =~= Seq::<Seq<char>>::empty());
    }
}

/// A search lists each page it finds once: with title matches that name
/// distinct pages, the list names distinct pages, and exactly those that
/// either the title or the text search found.
pub proof fn lemma_search_lists_each_page_once(title: Seq<HitView>, content: Seq<HitView>)
    requires
        distinct_pages(title),
    ensures
        distinct_pages(merged_hits(title, content)),
        forall|id: Seq<char>| #[trigger] hit_ids(merged_hits(title, content)).contains(id) <==> (
            hit_ids(title).contains(id) || hit_ids(content).contains(id)),
{
    let head = title.map_values(|h: HitView| without_snippet(h));
    let tail = new_hits(hit_ids(title), content);
    lemma_new_hits(hit_ids(title), content);
    assert(hit_ids(head) =~= hit_ids(title));
    let m = merged_hits(title, content);
    assert(m == head + tail);
    assert(hit_ids(m) =~= hit_ids(head) + hit_ids(tail));
    assert forall|id: Seq<char>| #[trigger] hit_ids(m).contains(id) <==> (hit_ids(title).contains(id) || hit_ids(content).contains(id)) by {
        lemma_concat_contains(hit_ids(head), hit_ids(tail), id);
    }
    assert forall|i: int, j: int| 0 <= i < j < m.len() implies #[trigger] m[i].0 != #[trigger] m[j].0 by {
        if j < head.len() {
            assert(m[i].0 == title[i].0 && m[j].0 == title[j].0);
        } else if i >= head.len() {
            assert(m[i] == tail[i - head.len()] && m[j] == tail[j - head.len()]);
        } else {
            assert(m[i].0 == title[i].0);
            assert(hit_ids(title).contains(m[i].0)) by {
                assert(hit_ids(title)[i] == title[i].0);
            }
            assert(m[j] == tail[j - head.len()]);
            assert(hit_ids(tail).contains(m[j].0)) by {
                assert(hit_ids(tail)[j - head.len()] == m[j].0);
            }
        }
    }
}

/// The patterns a search runs with: `%query%` on titles and `query*` on
/// text, the query trimmed; `None` for a blank query, which finds nothing.
pub open spec fn search_patterns_of(query: Seq<char>) -> Option<(Seq<char>, Seq<char>)> {
    let t = trim(query);
    if t.len() == 0 {
        None
    } else {
        Some((seq!['%'] + t + seq!['%'], t.push('*')))
    }
}

pub fn search_patterns(query: &str) -> (r: Option<(String, String)>)
    ensures
        match r {
            Some((like, fts)) => search_patterns_of(query@) == Some((like@, fts@)),
            None => search_patterns_of(query@) is None,
        },
{
    let t = trim_chars(&chars_of(query));
    if t.len() == 0 {
        return None;
    }
    let mut like: Vec<char> = Vec::new();
    like.push('%');
    let mut like = concat(&like, &t);
    like.push('%');
    let mut fts = t.clone();
    fts.push('*');
    assert(like@ =~= seq!['%'] + t@ + seq!['%']);
    Some((string_of(&like), string_of(&fts)))
}

fn clone_opt(o: &Option<String>) -> (r: Option<String>)
    ensures
        crate::text::string_opt(r) == crate::text::string_opt(*o),
{
    match o {
        Some(s) => Some(s.clone()),
        None => None,
    }
}

fn copy_hit(h: &SearchResult, keep_snippet: bool) -> (r: SearchResult)
    ensures
        hit_view(r) == (if keep_snippet { hit_view(*h) } else { without_snippet(hit_view(*h)) }),
{
    SearchResult {
        page_id: h.page_id.clone(),
        title: h.title.clone(),
        entity_type_id: clone_opt(&h.entity_type_id),
        snippet: if keep_snippet { clone_opt(&h.snippet) } else { None },
    }
}

/// Is `id` the page of one of the first `n` hits?
fn id_among(v: &Vec<SearchResult>, n: usize, id: &String) -> (r: bool)
    requires
        n <= v.len(),
    ensures
        r == hit_ids(hit_views(v@.take(n as int))).contains(id@),
{
    let ghost ids = hit_ids(hit_views(v@.take(n as int)));
    let mut i: usize = 0;
    while i < n
        invariant
            i <= n <= v.len(),
            ids == hit_ids(hit_views(v@.take(n as int))),
            ids.len() == n,
            forall|j: int| 0 <= j < i ==> ids[j] != id@,
        decreases n - i,
    {
        assert(ids[i as int] == v@[i as int].page_id@);
        if crate::text::str_eq(v[i].page_id.as_str(), id.as_str()) {
            assert(ids.contains(id@));
            return true;
        }
        i = i + 1;
    }
    false
}

/// The results of a search: the title matches, then each text match whose
/// page is not listed yet.
pub fn merge_search_results(title_hits: &Vec<SearchResult>, content_hits: &Vec<SearchResult>) -> (r: Vec<SearchResult>)
    ensures
        hit_views(r@) == merged_hits(hit_views(title_hits@), hit_views(content_hits@)),
{
    let ghost tv = hit_views(title_hits@);
    let ghost cv = hit_views(content_hits@);
    let mut out: Vec<SearchResult> = Vec::new();
    let mut i: usize = 0;
    while i < title_hits.len()
        invariant
            i <= title_hits.len(),
            tv == hit_views(title_hits@),
            hit_views(out@) == tv.take(i as int).map_values(|h: HitView| without_snippet(h)),
        decreases title_hits.len() - i,
    {
        let h = copy_hit(&title_hits[i], false);
        let ghost before = out@;
        out.push(h);
        assert(hit_views(out@) =~= hit_views(before).push(hit_view(h)));
        assert(tv.take(i + 1).map_values(|h: HitView| without_snippet(h))
            =~= tv.take(i as int).map_values(|h: HitView| without_snippet(h)).push(without_snippet(tv[i as int])));
        i = i + 1;
    }
    assert(tv.take(i as int) =~= tv);
    let ghost head = hit_views(out@);
    assert(hit_ids(tv) =~= hit_ids(hit_views(title_hits@.take(title_hits.len() as int))));
    let mut j: usize = 0;
    assert(cv.take(0) =~= Seq::<HitView>::empty());
    assert(hit_views(out@) =~= head + new_hits(hit_ids(tv), cv.take(0)));
    while j < content_hits.len()
        invariant
            j <= content_hits.len(),
            tv == hit_views(title_hits@),
            cv == hit_views(content_hits@),
            hit_ids(tv) == hit_ids(hit_views(title_hits@.take(title_hits.len() as int))),
            hit_views(out@) == head + new_hits(hit_ids(tv), cv.take(j as int)),
        decreases content_hits.len() - j,
    {
        let ghost t = cv.take(j + 1);
        assert(t.drop_last() =~= cv.take(j as int));
        assert(hit_ids(hit_views(content_hits@.take(j as int))) =~= hit_ids(cv.take(j as int)));
        let id = &content_hits[j].page_id;
        let seen = id_among(title_hits, title_hits.len(), id) || id_among(content_hits, j, id);
        if !seen {
            let h = copy_hit(&content_hits[j], true);
            let ghost before = out@;
            out.push(h);
            assert(hit_views(out@) =~= hit_views(before).push(hit_view(h)));
        }
        j = j + 1;
    }
    assert(cv.take(j as int) =~= cv);
    out
}

// ---------------------------------------------------------------------------
// Export
// ---------------------------------------------------------------------------

/// One page in a JSON export.
pub struct PageExport {
    pub id: String,
    pub title: String,
    pub icon: Option<String>,
    pub entity_type_id: Option<String>,
    pub parent_id: Option<String>,
    pub sort_order: i64,
    pub visibility: String,
    pub created_at: String,
    pub updated_at: String,
    /// The page's editor state in standard Base64, when it has any.
    pub content_base64: Option<String>,
}

/// A page's stored editor state as exported: Base64 of it, nothing when
/// there is none or it is empty.
pub fn export_content_base64(content: &Option<Vec<u8>>) -> (r: Option<String>)
    ensures
        match content {
            Some(c) if c@.len() > 0 => r is Some && r->0@ == crate::codec::base64_std(c@),
            _ => r is None,
        },
{
    match content {
        Some(c) => {
            if c.len() > 0 {
                Some(crate::codec::base64_encode(c.as_slice()))
            } else {
                None
            }
        },
        None => None,
    }
}

/// Characters a page title cannot keep in an exported file name.
pub open spec fn reserved_in_file_name(c: char) -> bool {
    c == '/' || c == '\\' || c == ':' || c == '*' || c == '?' || c == '"' || c == '<' || c == '>' || c == '|'
}

/// The file a page is exported to: its title with each reserved character
/// replaced by `_`, then `.md`.
pub open spec fn markdown_file_name_of(title: Seq<char>) -> Seq<char> {
    title.map_values(|c: char| if reserved_in_file_name(c) { '_' } else { c }) + seq!['.', 'm', 'd']
}

pub fn markdown_file_name(title: &str) -> (r: String)
    ensures
        r@ == markdown_file_name_of(title@),
{
    let v = chars_of(title);
    let mut out: Vec<char> = Vec::new();
    let mut i: usize = 0;
    while i < v.len()
        invariant
            i <= v.len(),
            out@ == v@.take(i as int).map_values(|c: char| if reserved_in_file_name(c) { '_' } else { c }),
        decreases v.len() - i,
    {
        let c = v[i];
        if c == '/' || c == '\\' || c == ':' || c == '*' || c == '?' || c == '"' || c == '<' || c == '>' || c == '|' {
            out.push('_');
        } else {
            out.push(c);
        }
        assert(v@.take(i + 1).map_values(|c: char| if reserved_in_file_name(c) { '_' } else { c })
            =~= v@.take(i as int).map_values(|c: char| if reserved_in_file_name(c) { '_' } else { c }).push(
            if reserved_in_file_name(c) { '_' } else { c }));
        i = i + 1;
    }
    assert(v@.take(i as int) =~= v@);
    out.push('.');
    out.push('m');
    out.push('d');
    assert(out@ =~= markdown_file_name_of(title@));
    string_of(&out)
}

/// Name for what `str::to_lowercase` returns: Unicode lower-casing, which
/// depends on the text alone.
pub uninterp spec fn unicode_lowercase(s: Seq<char>) -> Seq<char>;

/// `str::to_lowercase`; what it returns is only named here.
#[verifier::external_body]
fn to_lowercase(s: &str) -> (r: String)
    ensures
        r@ == unicode_lowercase(s@),
{
    s.to_lowercase()
}

/// Spaces of a lower-cased field name turned into `_`.
pub open spec fn underscored(s: Seq<char>) -> Seq<char> {
    s.map_values(|c: char| if c == ' ' { '_' } else { c })
}

/// The front-matter key of a field: its name lower-cased, spaces as `_`.
pub open spec fn field_key(name: Seq<char>) -> Seq<char> {
    underscored(unicode_lowercase(name))
}

/// A lower-cased field name as a front-matter key.
pub fn underscore_spaces(lowered: &str) -> (r: String)
    ensures
        r@ == underscored(lowered@),
{
    let v = chars_of(lowered);
    let mut out: Vec<char> = Vec::new();
    let mut i: usize = 0;
    while i < v.len()
        invariant
            i <= v.len(),
            out@ == underscored(v@.take(i as int)),
        decreases v.len() - i,
    {
        let c = v[i];
        out.push(if c == ' ' { '_' } else { c });
        assert(underscored(v@.take(i + 1)) =~= underscored(v@.take(i as int)).push(if c == ' ' { '_' } else { c }));
        i = i + 1;
    }
    assert(v@.take(i as int) =~= v@);
    string_of(&out)
}

/// The front-matter key of a field name.
pub fn front_matter_key(name: &str) -> (r: String)
    ensures
        r@ == field_key(name@),
{
    let lowered = to_lowercase(name);
    underscore_spaces(lowered.as_str())
}

/// Pairs of strings as plain values.
pub open spec fn pair_views(v: Seq<(String, String)>) -> Seq<(Seq<char>, Seq<char>)> {
    v.map_values(|p: (String, String)| (p.0@, p.1@))
}

/// Field values of a page as plain values: field id and value.
pub open spec fn value_views(v: Seq<(String, Option<String>)>) -> Seq<(Seq<char>, Option<Seq<char>>)> {
    v.map_values(|p: (String, Option<String>)| (p.0@, crate::text::string_opt(p.1)))
}

/// The name listed for `id`; the last listing counts, as when the rows are
/// collected into a map.
pub open spec fn name_for(names: Seq<(Seq<char>, Seq<char>)>, id: Seq<char>) -> Option<Seq<char>>
    decreases names.len(),
{
    if names.len() == 0 {
        None
    } else if names.last().0 == id {
        Some(names.last().1)
    } else {
        name_for(names.drop_last(), id)
    }
}

/// The front-matter lines of a page's field values: one `key: value` line
/// for each value that is set and whose field has a name, in order.
pub open spec fn field_block(
    values: Seq<(Seq<char>, Option<Seq<char>>)>,
    names: Seq<(Seq<char>, Seq<char>)>,
) -> Seq<char>
    decreases values.len(),
{
    if values.len() == 0 {
        Seq::empty()
    } else {
        let prev = field_block(values.drop_last(), names);
        match (name_for(names, values.last().0), values.last().1) {
            (Some(n), Some(v)) => prev + field_key(n) + ": "@ + v + "\n"@,
            _ => prev,
        }
    }
}

/// A line `key: "value"` when there is a value.
pub open spec fn quoted_line(key: Seq<char>, value: Option<Seq<char>>) -> Seq<char> {
    match value {
        Some(v) => key + v + "\"\n"@,
        None => Seq::empty(),
    }
}

/// A page exported as Markdown: front matter with title, icon, type name,
/// dates and field values, a blank line, then the page's plain text.
pub open spec fn markdown_page(
    title: Seq<char>,
    icon: Option<Seq<char>>,
    kind_name: Option<Seq<char>>,
    created: Seq<char>,
    updated: Seq<char>,
    fields: Seq<char>,
    text: Option<Seq<char>>,
) -> Seq<char> {
    "---\n"@ + quoted_line("title: \""@, Some(title)) + quoted_line("icon: \""@, icon)
        + quoted_line("type: \""@, kind_name) + quoted_line("created: \""@, Some(created))
        + quoted_line("updated: \""@, Some(updated)) + fields + "---\n\n"@ + match text {
        Some(t) => t,
        None => Seq::empty(),
    }
}

/// The front matter of a Markdown export between its opening and closing
/// `---`: the end of the opening line, then the page's lines.
pub open spec fn front_matter(
    title: Seq<char>,
    icon: Option<Seq<char>>,
    kind_name: Option<Seq<char>>,
    created: Seq<char>,
    updated: Seq<char>,
    fields: Seq<char>,
) -> Seq<char> {
    "\n"@ + quoted_line("title: \""@, Some(title)) + quoted_line("icon: \""@, icon)
        + quoted_line("type: \""@, kind_name) + quoted_line("created: \""@, Some(created))
        + quoted_line("updated: \""@, Some(updated)) + fields
}

/// A title that reads back from its front-matter line: not empty, on one
/// line, neither opening nor closing with a double quote.
pub open spec fn plain_title(t: Seq<char>) -> bool {
    &&& t.len() > 0
    &&& forall|i: int| 0 <= i < t.len() ==> t[i] != '\n'
    &&& t[0] != '"'
    &&& t.last() != '"'
}

/// The field lines of an export are whole lines.
proof fn lemma_field_block_lines(values: Seq<(Seq<char>, Option<Seq<char>>)>, names: Seq<(Seq<char>, Seq<char>)>)
    ensures
        field_block(values, names).len() == 0 || field_block(values, names).last() == '\n',
    decreases values.len(),
{
    reveal_strlit("\n");
    if values.len() > 0 {
        lemma_field_block_lines(values.drop_last(), names);
    }
}

/// An export opens with `---`, then its front matter, then the closing
/// `---` and a blank line before the text.
proof fn lemma_markdown_page_parts(
    title: Seq<char>,
    icon: Option<Seq<char>>,
    kind_name: Option<Seq<char>>,
    created: Seq<char>,
    updated: Seq<char>,
    fields: Seq<char>,
    text: Seq<char>,
)
    ensures
        markdown_page(title, icon, kind_name, created, updated, fields, Some(text)) == dashes() + front_matter(
            title,
            icon,
            kind_name,
            created,
            updated,
            fields,
        ) + dashes() + seq!['\n', '\n'] + text,
{
    reveal_strlit("---\n");
    reveal_strlit("---\n\n");
    reveal_strlit("\n");
    let q = quoted_line("title: \""@, Some(title)) + quoted_line("icon: \""@, icon)
        + quoted_line("type: \""@, kind_name) + quoted_line("created: \""@, Some(created))
        + quoted_line("updated: \""@, Some(updated)) + fields;
    assert("---\n"@ =~= dashes() + "\n"@);
    assert("---\n\n"@ =~= dashes() + seq!['\n', '\n']);
    assert(markdown_page(title, icon, kind_name, created, updated, fields, Some(text)) =~= "---\n"@ + q + "---\n\n"@ + text);
    assert(front_matter(title, icon, kind_name, created, updated, fields) =~= "\n"@ + q);
}

/// The first line of an export's front matter that gives a title is its
/// title line, and it gives the title back when the title is plain.
proof fn lemma_front_matter_title(
    title: Seq<char>,
    icon: Option<Seq<char>>,
    kind_name: Option<Seq<char>>,
    created: Seq<char>,
    updated: Seq<char>,
    fields: Seq<char>,
)
    requires
        plain_title(title),
    ensures
        title_in(split_char(front_matter(title, icon, kind_name, created, updated, fields), '\n')) == Some(title),
{
    reveal_strlit("\n");
    reveal_strlit("title: \"");
    reveal_strlit("\"\n");
    let line = "title: \""@ + title + seq!['"'];
    let rest = quoted_line("icon: \""@, icon) + quoted_line("type: \""@, kind_name) + quoted_line(
        "created: \""@,
        Some(created),
    ) + quoted_line("updated: \""@, Some(updated)) + fields;
    let front = front_matter(title, icon, kind_name, created, updated, fields);
    let empty = Seq::<char>::empty();
    assert(front =~= empty + seq!['\n'] + (line + seq!['\n'] + rest));
    crate::text::lemma_split_char_concat(empty, line + seq!['\n'] + rest, '\n');
    crate::text::lemma_split_char_concat(line, rest, '\n');
    assert forall|i: int| 0 <= i < line.len() implies line[i] != '\n' by {
        if 8 <= i < 8 + title.len() {
            assert(line[i] == title[i - 8]);
        }
    }
    crate::text::lemma_split_char_none(line, '\n');
    assert(split_char(empty, '\n') =~= seq![empty]);
    let lines = split_char(front, '\n');
    assert(lines =~= seq![empty] + (seq![line] + split_char(rest, '\n')));
    assert(lines[0] == empty);
    assert(!gives_title(empty));
    assert(lines.drop_first() =~= seq![line] + split_char(rest, '\n'));
    assert(lines.drop_first()[0] == line);
    // The line reads as itself once trimmed.
    assert(!is_ws(line[0]));
    assert(trim_start(line) == line);
    assert(!is_ws(line.last()));
    assert(trim_end(line) == line);
    assert(trim(line) == line);
    assert(line.subrange(0, 6) =~= title_key());
    assert(starts_with(trim(line), title_key()));
    // What follows `title:` is a space and the quoted title.
    let quoted = seq!['"'] + title + seq!['"'];
    assert(line.skip(6) =~= seq![' '] + quoted);
    assert((seq![' '] + quoted).drop_first() =~= quoted);
    assert(is_ws(' '));
    assert(trim_start(seq![' '] + quoted) == trim_start(quoted));
    assert(!is_ws(quoted[0]));
    assert(trim_start(quoted) == quoted);
    assert(!is_ws(quoted.last()));
    assert(trim_end(quoted) == quoted);
    assert(trim(line.skip(6)) == quoted);
    // Stripping the quotes leaves the title.
    assert(quoted.drop_first() =~= title + seq!['"']);
    assert((title + seq!['"'])[0] == title[0]);
    assert(crate::s3::trim_start_char(title + seq!['"'], '"') == title + seq!['"']);
    assert(crate::s3::trim_start_char(quoted, '"') == title + seq!['"']);
    assert((title + seq!['"']).drop_last() =~= title);
    assert(crate::s3::trim_end_char(title, '"') == title);
    assert(crate::s3::trim_end_char(title + seq!['"'], '"') == title);
    assert(title_value(line) == title);
    assert(gives_title(line));
    assert(title_in(lines.drop_first()) == Some(title));
    assert(title_in(lines) == title_in(lines.drop_first()));
}

/// The first `---` after the opening one in `---` + `front` + `---` + ...
/// is the closing one, when `front` holds none and ends its last line.
proof fn lemma_closing_dashes(front: Seq<char>, tail: Seq<char>)
    requires
        !contains_sub(front, dashes()),
        front.len() > 0,
        front.last() == '\n',
    ensures
        find_from(dashes() + front + dashes() + tail, dashes(), 3) == Some(3 + front.len() as int),
{
    let page = dashes() + front + dashes() + tail;
    let k: int = 3 + front.len() as int;
    assert(page.subrange(k, k + 3) =~= dashes());
    assert(page[k - 1] == front.last());
    assert forall|j: int| 3 <= j < k implies !occurs_at(page, dashes(), j) by {
        if j + 3 <= k {
            if occurs_at(page, dashes(), j) {
                assert(front.subrange(j - 3, j) =~= page.subrange(j, j + 3));
                assert(occurs_at(front, dashes(), j - 3));
            }
        } else if occurs_at(page, dashes(), j) {
            assert(page.subrange(j, j + 3)[k - 1 - j] == page[k - 1]);
        }
    }
    lemma_find_from_hit(page, dashes(), 3, k);
}

/// Blank lines before a text go when it is trimmed.
proof fn lemma_trim_blank_lines(x: Seq<char>)
    ensures
        trim(seq!['\n', '\n'] + x) == trim(x),
{
    let t = seq!['\n', '\n'] + x;
    assert(t.drop_first() =~= seq!['\n'] + x);
    assert((seq!['\n'] + x).drop_first() =~= x);
    assert(is_ws('\n'));
    assert(trim_start(seq!['\n'] + x) == trim_start(x));
    assert(trim_start(t) == trim_start(x));
}

/// The front matter of an export ends its last line.
proof fn lemma_front_matter_ends_line(
    title: Seq<char>,
    icon: Option<Seq<char>>,
    kind_name: Option<Seq<char>>,
    created: Seq<char>,
    updated: Seq<char>,
    values: Seq<(Seq<char>, Option<Seq<char>>)>,
    names: Seq<(Seq<char>, Seq<char>)>,
)
    ensures
        front_matter(title, icon, kind_name, created, updated, field_block(values, names)).len() > 0,
        front_matter(title, icon, kind_name, created, updated, field_block(values, names)).last() == '\n',
{
    reveal_strlit("\"\n");
    reveal_strlit("\n");
    lemma_field_block_lines(values, names);
}

/// A Markdown export imports back under its title and with its text
/// (trimmed, as every imported body is), whenever the title is plain and the
/// front matter holds no `---` of its own: the import reads the title from
/// the title line and the body from after the closing `---`.
pub proof fn lemma_markdown_export_imports_back(
    title: Seq<char>,
    icon: Option<Seq<char>>,
    kind_name: Option<Seq<char>>,
    created: Seq<char>,
    updated: Seq<char>,
    values: Seq<(Seq<char>, Option<Seq<char>>)>,
    names: Seq<(Seq<char>, Seq<char>)>,
    text: Option<Seq<char>>,
    stem: Option<Seq<char>>,
)
    requires
        plain_title(title),
        !contains_sub(front_matter(title, icon, kind_name, created, updated, field_block(values, names)), dashes()),
    ensures
        parsed_markdown(markdown_page(title, icon, kind_name, created, updated, field_block(values, names), text), stem)
            == (title, trim(match text {
            Some(t) => t,
            None => Seq::<char>::empty(),
        })),
{
    let fields = field_block(values, names);
    let x = match text {
        Some(t) => t,
        None => Seq::<char>::empty(),
    };
    let front = front_matter(title, icon, kind_name, created, updated, fields);
    let page = markdown_page(title, icon, kind_name, created, updated, fields, text);
    assert(markdown_page(title, icon, kind_name, created, updated, fields, Some(x)) == page);
    lemma_markdown_page_parts(title, icon, kind_name, created, updated, fields, x);
    let tail = seq!['\n', '\n'] + x;
    assert(page == dashes() + front + dashes() + tail);
    let k: int = 3 + front.len() as int;
    assert(page.subrange(0, 3) =~= dashes());
    lemma_front_matter_ends_line(title, icon, kind_name, created, updated, values, names);
    lemma_closing_dashes(front, tail);
    assert(page.skip(k + 3) =~= tail);
    lemma_trim_blank_lines(x);
    assert(page.subrange(3, k) =~= front);
    lemma_front_matter_title(title, icon, kind_name, created, updated, fields);
}

/// Where `id` is listed last, if anywhere.
fn lookup_name(names: &Vec<(String, String)>, id: &str) -> (r: Option<usize>)
    ensures
        match r {
            Some(k) => k < names.len() && name_for(pair_views(names@), id@) == Some(names@[k as int].1@),
            None => name_for(pair_views(names@), id@) is None,
        },
{
    let ghost pv = pair_views(names@);
    let mut n = names.len();
    assert(pv.take(n as int) =~= pv);
    while n > 0
        invariant
            n <= names.len(),
            pv == pair_views(names@),
            name_for(pv, id@) == name_for(pv.take(n as int), id@),
        decreases n,
    {
        let ghost t = pv.take(n as int);
        assert(t.drop_last() =~= pv.take(n - 1));
        assert(t.last() == (names@[n - 1].0@, names@[n - 1].1@));
        if crate::text::str_eq(names[n - 1].0.as_str(), id) {
            return Some(n - 1);
        }
        n = n - 1;
    }
    None
}

fn append_str(out: &mut Vec<char>, s: &str)
    ensures
        final(out)@ == old(out)@ + s@,
{
    let v = chars_of(s);
    let mut i: usize = 0;
    let ghost start = out@;
    while i < v.len()
        invariant
            i <= v.len(),
            out@ == start + v@.take(i as int),
        decreases v.len() - i,
    {
        out.push(v[i]);
        assert(v@.take(i + 1) =~= v@.take(i as int).push(v@[i as int]));
        assert(out@ =~= start + v@.take(i + 1));
        i = i + 1;
    }
    assert(v@.take(i as int) =~= v@);
}

/// The front-matter lines of a page's field values.
pub fn field_lines(values: &Vec<(String, Option<String>)>, field_names: &Vec<(String, String)>) -> (r: String)
    ensures
        r@ == field_block(value_views(values@), pair_views(field_names@)),
{
    let ghost vv = value_views(values@);
    let ghost nv = pair_views(field_names@);
    let mut out: Vec<char> = Vec::new();
    let mut i: usize = 0;
    while i < values.len()
        invariant
            i <= values.len(),
            vv == value_views(values@),
            nv == pair_views(field_names@),
            out@ == field_block(vv.take(i as int), nv),
        decreases values.len() - i,
    {
        let ghost t = vv.take(i + 1);
        assert(t.drop_last() =~= vv.take(i as int));
        assert(t.last() == (values@[i as int].0@, crate::text::string_opt(values@[i as int].1)));
        match lookup_name(field_names, values[i].0.as_str()) {
            Some(k) => match &values[i].1 {
                Some(v) => {
                    let key = front_matter_key(field_names[k].1.as_str());
                    append_str(&mut out, key.as_str());
                    append_str(&mut out, ": ");
                    append_str(&mut out, v.as_str());
                    append_str(&mut out, "\n");
                    assert(out@ =~= field_block(vv.take(i as int), nv) + field_key(field_names@[k as int].1@) + ": "@ + v@ + "\n"@);
                },
                None => {},
            },
            None => {},
        }
        i = i + 1;
    }
    assert(vv.take(i as int) =~= vv);
    string_of(&out)
}

fn append_quoted(out: &mut Vec<char>, key: &str, value: Option<&str>)
    ensures
        final(out)@ == old(out)@ + quoted_line(key@, crate::text::str_opt(value)),
{
    match value {
        Some(v) => {
            let ghost start = out@;
            append_str(out, key);
            append_str(out, v);
            append_str(out, "\"\n");
            assert(out@ =~= start + (key@ + v@ + "\"\n"@));
        },
        None => {
            assert(out@ =~= out@ + Seq::<char>::empty());
        },
    }
}

/// A page as a Markdown file. `type_names` and `field_names` list the
/// Tome's entity types and fields as (id, name); `values` are the page's
/// field values as (field id, value); `text` is the page's plain text.
pub fn render_markdown_page(
    title: &str,
    icon: Option<&str>,
    entity_type_id: Option<&str>,
    created: &str,
    updated: &str,
    type_names: &Vec<(String, String)>,
    field_names: &Vec<(String, String)>,
    values: &Vec<(String, Option<String>)>,
    text: Option<&str>,
) -> (r: String)
    ensures
        r@ == markdown_page(
            title@,
            crate::text::str_opt(icon),
            match entity_type_id {
                Some(id) => name_for(pair_views(type_names@), id@),
                None => None,
            },
            created@,
            updated@,
            field_block(value_views(values@), pair_views(field_names@)),
            crate::text::str_opt(text),
        ),
{
    let mut out: Vec<char> = Vec::new();
    append_str(&mut out, "---\n");
    append_quoted(&mut out, "title: \"", Some(title));
    append_quoted(&mut out, "icon: \"", icon);
    let kind_name: Option<&str> = match entity_type_id {
        Some(id) => match lookup_name(type_names, id) {
            Some(k) => Some(type_names[k].1.as_str()),
            None => None,
        },
        None => None,
    };
    append_quoted(&mut out, "type: \"", kind_name);
    append_quoted(&mut out, "created: \"", Some(created));
    append_quoted(&mut out, "updated: \"", Some(updated));
    let fields = field_lines(values, field_names);
    append_str(&mut out, fields.as_str());
    append_str(&mut out, "---\n\n");
    match text {
        Some(t) => append_str(&mut out, t),
        None => {
            assert(out@ =~= out@ + Seq::<char>::empty());
        },
    }
    string_of(&out)
}

// ---------------------------------------------------------------------------
// Importing a JSON export
// ---------------------------------------------------------------------------

/// A page of a JSON export as it is read: each of its title, icon and
/// entity type id when that member is a string.
pub struct ExportedPage {
    pub title: Option<String>,
    pub icon: Option<String>,
    pub entity_type_id: Option<String>,
}

pub open spec fn exported_page_view(p: ExportedPage) -> (Option<Seq<char>>, Option<Seq<char>>, Option<Seq<char>>) {
    (string_opt(p.title), string_opt(p.icon), string_opt(p.entity_type_id))
}

/// What `serde_json` makes of an export's text: the parser's error text,
/// or the pages of its `pages` array (`None` when there is no such array).
pub uninterp spec fn export_pages_of(text: Seq<char>) -> Result<
    Option<Seq<(Option<Seq<char>>, Option<Seq<char>>, Option<Seq<char>>)>>,
    Seq<char>,
>;

/// `serde_json::from_str::<serde_json::Value>` on an export, then
/// `get("pages")` with `as_array`, and of each element the `title`, `icon`
/// and `entity_type_id` members with `as_str`. The error's displayed text
/// is passed on. The result is named.
#[verifier::external_body]
fn export_pages(json: &str) -> (r: Result<Option<Vec<ExportedPage>>, String>)
    ensures
        match r {
            Ok(None) => export_pages_of(json@) == Ok::<_, Seq<char>>(None::<Seq<(Option<Seq<char>>, Option<Seq<char>>, Option<Seq<char>>)>>),
            Ok(Some(ps)) => export_pages_of(json@) == Ok::<_, Seq<char>>(Some(ps@.map_values(|p: ExportedPage| exported_page_view(p)))),
            Err(e) => export_pages_of(json@) == Err::<Option<Seq<(Option<Seq<char>>, Option<Seq<char>>, Option<Seq<char>>)>>, Seq<char>>(e@),
        },
{
    let v: serde_json::Value = serde_json::from_str(json).map_err(|e| e.to_string())?;
    let text = |p: &serde_json::Value, k: &str| p.get(k).and_then(|x| x.as_str()).map(String::from);
    Ok(v.get("pages").and_then(|p| p.as_array()).map(|ps| {
        ps.iter().map(|p| ExportedPage { title: text(p, "title"), icon: text(p, "icon"), entity_type_id: text(p, "entity_type_id") }).collect()
    }))
}

/// A page to create from an export: its title (`Untitled` when the export
/// has none), icon and entity type.
pub struct ImportedPage {
    pub title: String,
    pub icon: Option<String>,
    pub entity_type_id: Option<String>,
}

/// The page an exported page becomes.
pub open spec fn imported_page(p: (Option<Seq<char>>, Option<Seq<char>>, Option<Seq<char>>)) -> (Seq<char>, Option<Seq<char>>, Option<Seq<char>>) {
    (match p.0 {
        Some(t) => t,
        None => UNTITLED@,
    }, p.1, p.2)
}

pub open spec fn imported_page_view(p: ImportedPage) -> (Seq<char>, Option<Seq<char>>, Option<Seq<char>>) {
    (p.title@, string_opt(p.icon), string_opt(p.entity_type_id))
}

/// The pages a JSON export imports, in order: one per element of its
/// `pages` array (none when it has no such array), titled `Untitled` when
/// the element has no string title, with its icon and entity type when
/// they are strings; or `Invalid JSON: ` and the parser's message.
pub fn import_pages_of(json: &str) -> (r: Result<Vec<ImportedPage>, String>)
    ensures
        match export_pages_of(json@) {
            Err(e) => r matches Err(m) && m@ == "Invalid JSON: "@ + e,
            Ok(None) => r matches Ok(v) && v@.len() == 0,
            Ok(Some(ps)) => r matches Ok(v) && v@.map_values(|p: ImportedPage| imported_page_view(p))
                == ps.map_values(|p: (Option<Seq<char>>, Option<Seq<char>>, Option<Seq<char>>)| imported_page(p)),
        },
{
    let pages = match export_pages(json) {
        Err(e) => return Err(cat("Invalid JSON: ", e.as_str())),
        Ok(None) => return Ok(Vec::new()),
        Ok(Some(ps)) => ps,
    };
    let ghost src = pages@.map_values(|p: ExportedPage| exported_page_view(p));
    let mut out: Vec<ImportedPage> = Vec::new();
    let mut i: usize = 0;
    while i < pages.len()
        invariant
            i <= pages@.len(),
            src == pages@.map_values(|p: ExportedPage| exported_page_view(p)),
            out@.len() == i,
            forall|j: int| 0 <= j < i ==> imported_page_view(#[trigger] out@[j]) == imported_page(src[j]),
        decreases pages.len() - i,
    {
        let p = &pages[i];
        let title = match &p.title {
            Some(t) => t.clone(),
            None => owned(UNTITLED),
        };
        let icon = match &p.icon {
            Some(t) => Some(t.clone()),
            None => None,
        };
        let entity_type_id = match &p.entity_type_id {
            Some(t) => Some(t.clone()),
            None => None,
        };
        out.push(ImportedPage { title, icon, entity_type_id });
        i = i + 1;
    }
    assert(out@.map_values(|p: ImportedPage| imported_page_view(p)) =~= src.map_values(
        |p: (Option<Seq<char>>, Option<Seq<char>>, Option<Seq<char>>)| imported_page(p),
    ));
    Ok(out)
}

} // verus!
