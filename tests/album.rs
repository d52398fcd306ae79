use bunkr_uploader::album::single_file_from_markers;
use bunkr_uploader::album::{album_listing_json, classify_link, js_to_json, listing_url,
    normalize_literal, single_file_record, LinkKind};
use bunkr_uploader::error::EngineError;

#[test]
fn trailing_commas_and_bare_keys() {
    let input = "{\nid:1,\nname:\"a\",\n}";
    assert_eq!(normalize_literal(input), "{\n\"id\":1,\n\"name\":\"a\"}");
}

#[test]
fn keys_not_opening_a_line_stay_bare() {
    // Only the trailing comma goes: the keys do not open a line.
    assert_eq!(normalize_literal("{id:1,name:\"a\",}"), "{id:1,name:\"a\"}");
}

#[test]
fn normalizing_strict_text_changes_nothing() {
    let strict = "{\n  \"id\": 1,\n  \"name\": \"a\"\n}";
    assert_eq!(normalize_literal(strict), strict);
    let once = normalize_literal("[\n  {\n    id : 5 ,\n    tags: [1, 2, ],\n  },\n]");
    assert_eq!(once, "[\n  {\n    \"id\" : 5 ,\n    \"tags\": [1, 2]}]");
    assert_eq!(normalize_literal(&once), once);
}

#[test]
fn indented_keys_and_unicode_words() {
    assert_eq!(normalize_literal("  größe:3"), "  \"größe\":3");
    assert_eq!(normalize_literal("\n\tkey_1 \t:x"), "\n\t\"key_1\" \t:x");
    assert_eq!(normalize_literal("a-b:1"), "a-b:1");
    assert_eq!(normalize_literal(""), "");
}

#[test]
fn literal_is_wrapped_unless_an_array() {
    assert_eq!(js_to_json("{\nid:1,\n}"), "[{\n\"id\":1}]");
    assert_eq!(js_to_json(" [1,2,] "), " [1,2] ");
    assert_eq!(js_to_json(""), "[]");
}

#[test]
fn album_page_listing() {
    let html = "<script>var x = 1;\nwindow.albumFiles = [\n{\nid: 10,\nname: \"a.mp4\",\n}\n];\n</script>";
    assert_eq!(album_listing_json(html), Ok("[{\n\"id\": 10,\n\"name\": \"a.mp4\"}]".to_string()));
    assert_eq!(album_listing_json("<html>nothing here</html>"), Err(EngineError::Scrape));
}

#[test]
fn single_file_page() {
    let html = r#"<div id="fileTracker" data-file-id="12345"></div><h1 class="text-subs font-semibold text-base sm:text-lg truncate">clip.mp4</h1>"#;
    let f = single_file_record(html).unwrap();
    assert_eq!(f.id, 12345);
    assert_eq!(f.name, "clip.mp4");
    assert_eq!(f.original, "clip.mp4");
    assert_eq!(f.size, 0);
    assert!(f.slug.is_empty() && f.cdn_endpoint.is_empty());
    assert_eq!(single_file_record("<h1>no id</h1>").err(), Some(EngineError::Scrape));
    let no_name = r#"<div data-file-id="1"></div>"#;
    assert_eq!(single_file_record(no_name).err(), Some(EngineError::Scrape));
    let too_big = r#"<div data-file-id="99999999999999999999"></div><h1 class="text-subs font-semibold text-base sm:text-lg truncate">x</h1>"#;
    assert_eq!(single_file_record(too_big).err(), Some(EngineError::Scrape));
}

#[test]
fn link_kinds() {
    assert_eq!(classify_link("https://bunkr.cr/a/abc"), Ok(LinkKind::Album));
    assert_eq!(classify_link("https://bunkr.cr/f/abc"), Ok(LinkKind::SingleFile));
    assert_eq!(classify_link("https://bunkr.cr/v/abc"), Err(EngineError::UnsupportedLink));
    assert_eq!(listing_url("https://b/a/x"), "https://b/a/x?advanced=1");
    assert_eq!(listing_url("https://b/a/x?p=2"), "https://b/a/x?p=2&advanced=1");
}

#[test]
fn single_file_from_marker_texts() {
    let f = single_file_from_markers(Some("77"), Some("a b.txt")).unwrap();
    assert_eq!((f.id, f.name.as_str(), f.original.as_str()), (77, "a b.txt", "a b.txt"));
    assert!(f.extension.is_empty() && f.thumbnail.is_empty() && f.timestamp.is_empty());
    assert_eq!(single_file_from_markers(Some("٣"), Some("x")).err(), Some(EngineError::Scrape));
    assert_eq!(single_file_from_markers(None, Some("x")).err(), Some(EngineError::Scrape));
    assert_eq!(single_file_from_markers(Some("1"), None).err(), Some(EngineError::Scrape));
}

#[test]
fn normalizing_twice_equals_once() {
    for input in [
        "{\nid:1,\nname:\"a\",\n}",
        "[\n {\n  a : 1,\n  b_c:[1,2,],\n },\n {\n  x\n  :\n  2 }\n]",
        "\n\nfoo:1\n  bar :{\nbaz:[ ],\n}",
        "{ \"already\": \"quoted\" }",
    ] {
        let once = normalize_literal(input);
        assert_eq!(normalize_literal(&once), once);
    }
}

#[test]
fn comma_runs_need_a_second_pass() {
    // Removal is one left-to-right pass: of two commas before a bracket only the second goes.
    assert_eq!(normalize_literal(",,}"), ",}");
    assert_eq!(normalize_literal(&normalize_literal(",,}")), "}");
}
