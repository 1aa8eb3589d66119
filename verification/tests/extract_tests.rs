use mastodon_diary::chars::{collapse_chars, string_from_chars, trim_chars};
use mastodon_diary::extract::{diary_entry_text, process_diary_content};

#[test]
fn non_diary_content_produces_no_entry() {
    assert_eq!(process_diary_content("<p>Hello world</p>"), None);
    assert_eq!(process_diary_content("Just some text"), None);
    assert_eq!(diary_entry_text("<p>nothing here</p>"), None);
}

#[test]
fn marker_must_lead_the_text() {
    assert_eq!(process_diary_content("<p>prefix #Diary x</p>"), None);
}

#[test]
fn runs_collapse_to_single_spaces() {
    assert_eq!(
        process_diary_content("#Diary  Hello,,, world!!"),
        Some(String::from("Hello world"))
    );
}

#[test]
fn entities_decode() {
    assert_eq!(diary_entry_text("#Diary a &amp; b"), Some(String::from("a & b")));
}

#[test]
fn tags_are_stripped_from_the_body_text() {
    assert_eq!(
        process_diary_content("<p>#Diary went <strong>hiking</strong> today</p>"),
        Some(String::from("went hiking today"))
    );
}

#[test]
fn repeated_markers_are_stripped() {
    assert_eq!(process_diary_content("#Diary#Diary twice"), Some(String::from("twice")));
}

#[test]
fn marker_alone_gives_empty_entry() {
    assert_eq!(process_diary_content("#Diary"), Some(String::from("")));
    assert_eq!(process_diary_content("#Diary   "), Some(String::from("")));
}

#[test]
fn entities_decode_after_extraction() {
    // The HTML parse turns `&amp;amp;` into `&amp;`; the decoding stage
    // then turns that into a bare ampersand.
    assert_eq!(process_diary_content("#Diary x &amp;amp; y"), Some(String::from("x &amp; y")));
    assert_eq!(diary_entry_text("#Diary x &amp;amp; y"), Some(String::from("x & y")));
}

#[test]
fn collapse_and_trim_work_on_plain_characters() {
    let collapsed = collapse_chars(&"a!! b,,c   d".chars().collect::<Vec<char>>());
    assert_eq!(string_from_chars(&collapsed), "a b c d");
    let trimmed = trim_chars(&" \t\n x y \r ".chars().collect::<Vec<char>>());
    assert_eq!(string_from_chars(&trimmed), "x y");
    // Trimming covers the whole Unicode White_Space set, as str::trim does.
    let padded: Vec<char> = "\u{00A0}\u{2003}z\u{3000}".chars().collect();
    assert_eq!(string_from_chars(&trim_chars(&padded)), "z");
    assert_eq!("\u{00A0}\u{2003}z\u{3000}".trim(), "z");
}

#[test]
fn surrounding_whitespace_is_trimmed() {
    assert_eq!(process_diary_content("#Diary   spaced out   "), Some(String::from("spaced out")));
}
