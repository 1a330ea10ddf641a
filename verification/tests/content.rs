use vaelorium::codec::base64_encode;
use vaelorium::content::{
    export_content_base64, field_lines, front_matter_key, markdown_file_name, markdown_stem, merge_search_results,
    mime_from_extension, new_image_info, parse_markdown, render_markdown_page, search_patterns, underscore_spaces,
    SearchResult, import_pages_of,
};

#[test]
fn markdown_with_front_matter_title() {
    let (title, body) = parse_markdown("---\ntitle: \"Dragon Lair\"\ntags: x\n---\n\n  Body text.\n", Some("file"));
    assert_eq!(title, "Dragon Lair");
    assert_eq!(body, "Body text.");
}

#[test]
fn markdown_without_front_matter_uses_stem() {
    let (title, body) = parse_markdown("# Heading\ntext", Some("notes"));
    assert_eq!(title, "notes");
    assert_eq!(body, "# Heading\ntext");
    let (title, _) = parse_markdown("plain", None);
    assert_eq!(title, "Untitled");
}

#[test]
fn markdown_empty_title_falls_through_to_later_line_or_stem() {
    let (title, body) = parse_markdown("---\ntitle: \"\"\ntitle: Second\n---\nB", Some("s"));
    assert_eq!(title, "Second");
    assert_eq!(body, "B");
    let (title, body) = parse_markdown("---\ntitle:   \n---\nB", Some("stem"));
    assert_eq!(title, "stem");
    assert_eq!(body, "B");
}

#[test]
fn markdown_unclosed_front_matter_is_body() {
    let (title, body) = parse_markdown("---\ntitle: X\nno end", Some("s"));
    assert_eq!(title, "s");
    assert_eq!(body, "---\ntitle: X\nno end");
}

#[test]
fn markdown_crlf_lines() {
    let (title, body) = parse_markdown("---\r\ntitle: Win\r\n---\r\nText\r\n", Some("s"));
    assert_eq!(title, "Win");
    assert_eq!(body, "Text");
}

#[test]
fn markdown_file_stems() {
    assert_eq!(markdown_stem("notes.md"), Some("notes".to_string()));
    assert_eq!(markdown_stem("a.b.md"), Some("a.b".to_string()));
    assert_eq!(markdown_stem(".md"), None);
    assert_eq!(markdown_stem("notes.MD"), None);
    assert_eq!(markdown_stem("notes.txt"), None);
}

#[test]
fn mime_types_by_extension() {
    assert_eq!(mime_from_extension("map.PNG"), "image/png");
    assert_eq!(mime_from_extension("a.b.jpeg"), "image/jpeg");
    assert_eq!(mime_from_extension("x.jpg"), "image/jpeg");
    assert_eq!(mime_from_extension("x.gif"), "image/gif");
    assert_eq!(mime_from_extension("x.webp"), "image/webp");
    assert_eq!(mime_from_extension("x.svg"), "image/svg+xml");
    assert_eq!(mime_from_extension("x.bmp"), "image/bmp");
    assert_eq!(mime_from_extension("png"), "image/png");
    assert_eq!(mime_from_extension("archive.tar.gz"), "application/octet-stream");
    assert_eq!(mime_from_extension("noext."), "application/octet-stream");
}

#[test]
fn image_info_takes_type_from_name() {
    let info = new_image_info("id1", "Castle.Webp", "2024-01-01T00:00:00Z");
    assert_eq!(info.mime_type, "image/webp");
    assert_eq!(info.filename, "Castle.Webp");
}

fn hit(id: &str, title: &str, snippet: Option<&str>) -> SearchResult {
    SearchResult {
        page_id: id.to_string(),
        title: title.to_string(),
        entity_type_id: None,
        snippet: snippet.map(|s| s.to_string()),
    }
}

#[test]
fn search_merges_title_then_new_text_hits() {
    let titles = vec![hit("p1", "Dragon", None), hit("p2", "Dragonfly", None)];
    let texts = vec![
        hit("p2", "Dragonfly", Some("<b>dragon</b>")),
        hit("p3", "Lair", Some("a <b>dragon</b> sleeps")),
        hit("p3", "Lair", Some("again")),
    ];
    let merged = merge_search_results(&titles, &texts);
    let ids: Vec<&str> = merged.iter().map(|r| r.page_id.as_str()).collect();
    assert_eq!(ids, vec!["p1", "p2", "p3"]);
    assert!(merged[1].snippet.is_none());
    assert_eq!(merged[2].snippet.as_deref(), Some("a <b>dragon</b> sleeps"));
}

#[test]
fn search_patterns_trim_and_refuse_blank() {
    assert_eq!(search_patterns("  drag "), Some(("%drag%".to_string(), "drag*".to_string())));
    assert_eq!(search_patterns(" \t "), None);
}

#[test]
fn exported_content_is_base64_when_present() {
    assert_eq!(export_content_base64(&Some(vec![1, 2, 3])), Some(base64_encode(&[1, 2, 3])));
    assert_eq!(export_content_base64(&Some(vec![1, 2, 3])), Some("AQID".to_string()));
    assert_eq!(export_content_base64(&Some(Vec::new())), None);
    assert_eq!(export_content_base64(&None), None);
}

#[test]
fn exported_file_names_replace_reserved_characters() {
    assert_eq!(markdown_file_name("A/B: C?"), "A_B_ C_.md");
    assert_eq!(markdown_file_name("plain"), "plain.md");
}

#[test]
fn front_matter_keys() {
    assert_eq!(front_matter_key("Hit Points"), "hit_points");
    assert_eq!(front_matter_key("\u{00C9}lan Vital"), "\u{00E9}lan_vital");
    assert_eq!(underscore_spaces("a b  c"), "a_b__c");
}

fn pair(a: &str, b: &str) -> (String, String) {
    (a.to_string(), b.to_string())
}

#[test]
fn markdown_page_rendering() {
    let types = vec![pair("t1", "Character")];
    let fields = vec![pair("f1", "Hit Points"), pair("f2", "Alias"), pair("f1", "HP")];
    let values = vec![
        ("f1".to_string(), Some("12".to_string())),
        ("f2".to_string(), None),
        ("f9".to_string(), Some("orphan".to_string())),
    ];
    let md = render_markdown_page(
        "Aria",
        Some("\u{1f5e1}"),
        Some("t1"),
        "2024-01-01",
        "2024-02-02",
        &types,
        &fields,
        &values,
        Some("She walks."),
    );
    assert_eq!(
        md,
        "---\ntitle: \"Aria\"\nicon: \"\u{1f5e1}\"\ntype: \"Character\"\ncreated: \"2024-01-01\"\nupdated: \"2024-02-02\"\nhp: 12\n---\n\nShe walks."
    );
    let bare = render_markdown_page("B", None, Some("missing"), "c", "u", &types, &fields, &Vec::new(), None);
    assert_eq!(bare, "---\ntitle: \"B\"\ncreated: \"c\"\nupdated: \"u\"\n---\n\n");
    assert_eq!(field_lines(&values, &fields), "hp: 12\n");
}

#[test]
fn exported_pages_import_back() {
    let names = vec![("f1".to_string(), "Home Port".to_string())];
    let types = vec![("t1".to_string(), "Ship".to_string())];
    let values = vec![("f1".to_string(), Some("Saltmarsh".to_string()))];
    let page = render_markdown_page(
        "The Sea Witch",
        Some("⚓"),
        Some("t1"),
        "2024-01-01T00:00:00Z",
        "2024-02-01T00:00:00Z",
        &types,
        &names,
        &values,
        Some("  A cursed galleon.\n"),
    );
    let (title, body) = parse_markdown(&page, Some("sea-witch"));
    assert_eq!(title, "The Sea Witch");
    assert_eq!(body, "A cursed galleon.");
    let bare = render_markdown_page("Quiet Page", None, None, "c", "u", &types, &names, &Vec::new(), None);
    assert_eq!(parse_markdown(&bare, None), ("Quiet Page".to_string(), String::new()));
}

#[test]
fn json_exports_import_their_pages() {
    let pages = import_pages_of(r#"{"pages":[{"title":"Keep","icon":"k","entity_type_id":7},{"icon":null},{"title":3}]}"#).unwrap();
    assert_eq!(pages.len(), 3);
    assert_eq!(pages[0].title, "Keep");
    assert_eq!(pages[0].icon.as_deref(), Some("k"));
    assert_eq!(pages[0].entity_type_id, None);
    assert_eq!(pages[1].title, "Untitled");
    assert_eq!(pages[1].icon, None);
    assert_eq!(pages[2].title, "Untitled");
    assert!(import_pages_of(r#"{"tags":[]}"#).unwrap().is_empty());
    assert!(import_pages_of(r#"{"pages":{}}"#).unwrap().is_empty());
    let err = import_pages_of("{oops").err().unwrap();
    assert!(err.starts_with("Invalid JSON: "), "{err}");
}
