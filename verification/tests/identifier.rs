use video_summarizer::summarizer::HuggingFaceSummarizer;
use video_summarizer::video_id::{is_id_character, VIDEO_ID_GROUP, VIDEO_ID_LENGTH, VIDEO_ID_PATTERN};

fn extract(source: &str) -> Option<String> {
    HuggingFaceSummarizer::extract_video_id(source)
}

fn accept(source: &str, capture: Option<&str>) -> Option<String> {
    HuggingFaceSummarizer::accept_video_id(source, capture.map(String::from))
}

#[test]
fn identifier_behind_the_query_marker() {
    assert_eq!(
        extract("https://www.youtube.com/watch?v=dQw4w9WgXcQ"),
        Some("dQw4w9WgXcQ".to_string())
    );
}

#[test]
fn identifier_behind_a_path_separator() {
    assert_eq!(
        extract("https://youtu.be/dQw4w9WgXcQ"),
        Some("dQw4w9WgXcQ".to_string())
    );
}

#[test]
fn identifier_in_an_embed_path() {
    assert_eq!(
        extract("https://www.youtube.com/embed/a_b-c_d-e_f?start=3"),
        Some("a_b-c_d-e_f".to_string())
    );
}

#[test]
fn identifier_with_a_line_end_behind_it() {
    assert_eq!(
        extract("https://www.youtube.com/watch?v=dQw4w9WgXcQ\n"),
        Some("dQw4w9WgXcQ".to_string())
    );
}

#[test]
fn the_identifier_is_not_the_source() {
    let source = "https://www.youtube.com/watch?v=dQw4w9WgXcQ&t=42";
    let id = extract(source).unwrap();
    assert_ne!(id, source);
    assert_eq!(id.chars().count(), VIDEO_ID_LENGTH);
}

#[test]
fn only_the_first_eleven_characters_are_taken() {
    assert_eq!(
        extract("v=0123456789ABCDEF"),
        Some("0123456789A".to_string())
    );
}

#[test]
fn the_leftmost_identifier_is_taken() {
    assert_eq!(
        extract("v=AAAAAAAAAAA&list=/BBBBBBBBBBB"),
        Some("AAAAAAAAAAA".to_string())
    );
    assert_eq!(
        extract("/BBBBBBBBBBB?v=AAAAAAAAAAA"),
        Some("BBBBBBBBBBB".to_string())
    );
}

#[test]
fn no_identifier_without_a_marker() {
    assert_eq!(extract("dQw4w9WgXcQ"), None);
    assert_eq!(extract("hello"), None);
    assert_eq!(extract(""), None);
}

#[test]
fn no_identifier_when_too_short() {
    assert_eq!(extract("https://youtu.be/dQw4w9WgXc"), None);
    assert_eq!(extract("v=short"), None);
}

#[test]
fn no_identifier_when_a_character_is_foreign() {
    assert_eq!(extract("v=dQw4w.WgXcQ"), None);
    assert_eq!(extract("v=dQw4w9WgXc\u{e9}"), None);
}

#[test]
fn a_capture_of_the_source_is_accepted() {
    assert_eq!(
        accept("x/dQw4w9WgXcQ", Some("dQw4w9WgXcQ")),
        Some("dQw4w9WgXcQ".to_string())
    );
    assert_eq!(
        accept("watch?v=dQw4w9WgXcQ&t=1", Some("dQw4w9WgXcQ")),
        Some("dQw4w9WgXcQ".to_string())
    );
}

#[test]
fn no_capture_is_no_identifier() {
    assert_eq!(accept("x/dQw4w9WgXcQ", None), None);
}

#[test]
fn a_capture_that_is_not_in_the_source_is_refused() {
    assert_eq!(accept("x/dQw4w9WgXcQ", Some("AAAAAAAAAAA")), None);
}

#[test]
fn a_capture_without_a_marker_in_front_is_refused() {
    assert_eq!(accept("dQw4w9WgXcQ", Some("dQw4w9WgXcQ")), None);
    assert_eq!(accept("v dQw4w9WgXcQ", Some("dQw4w9WgXcQ")), None);
    assert_eq!(accept("=dQw4w9WgXcQ", Some("dQw4w9WgXcQ")), None);
}

#[test]
fn a_capture_of_another_length_is_refused() {
    assert_eq!(accept("/dQw4w9WgXcQX", Some("dQw4w9WgXcQX")), None);
    assert_eq!(accept("/dQw4w9WgXc", Some("dQw4w9WgXc")), None);
    assert_eq!(accept("/", Some("")), None);
}

#[test]
fn a_capture_with_a_foreign_character_is_refused() {
    assert_eq!(accept("/dQw4w9WgXc!", Some("dQw4w9WgXc!")), None);
}

#[test]
fn a_marker_at_the_very_end_holds_nothing() {
    assert_eq!(accept("abcdefghijk/", Some("abcdefghijk")), None);
    assert_eq!(accept("abcdefghijkv=", Some("abcdefghijk")), None);
    assert_eq!(accept("abcdefghijkv", Some("abcdefghijk")), None);
}

#[test]
fn identifier_characters() {
    for c in ['0', '9', 'A', 'Z', 'a', 'z', '_', '-'] {
        assert!(is_id_character(c));
    }
    for c in ['/', ':', '@', '[', '`', '{', ' ', '=', '.', '\u{e9}'] {
        assert!(!is_id_character(c));
    }
}

#[test]
fn the_pattern_has_one_group_of_eleven() {
    assert_eq!(VIDEO_ID_PATTERN, r"(?:v=|/)([0-9A-Za-z_-]{11}).*");
    assert_eq!(VIDEO_ID_GROUP, 1);
    assert_eq!(VIDEO_ID_LENGTH, 11);
}
