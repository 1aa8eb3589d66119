use mastodon_diary::chars::string_from_chars;
use mastodon_diary::render::{apply_template, render_document, render_entries, Entry};
use mastodon_diary::timefmt::{format_date, format_time, LocalStamp};

fn stamp(year: i32, month: u8, day: u8, hour: u8, minute: u8) -> LocalStamp {
    LocalStamp { year, month, day, hour, minute }
}

fn entry(st: LocalStamp, text: &str) -> Entry {
    Entry { stamp: st, text: String::from(text) }
}

#[test]
fn dates_format_zero_padded() {
    let d = string_from_chars(&format_date(&stamp(2024, 1, 2, 0, 0)));
    assert_eq!(d, "02/01/2024");
    let d = string_from_chars(&format_date(&stamp(42, 12, 25, 0, 0)));
    assert_eq!(d, "25/12/0042");
}

#[test]
fn times_format_on_the_twelve_hour_clock() {
    assert_eq!(string_from_chars(&format_time(&stamp(2024, 1, 1, 0, 0))), "12:00 AM");
    assert_eq!(string_from_chars(&format_time(&stamp(2024, 1, 1, 12, 0))), "12:00 PM");
    assert_eq!(string_from_chars(&format_time(&stamp(2024, 1, 1, 13, 7))), "01:07 PM");
    assert_eq!(string_from_chars(&format_time(&stamp(2024, 1, 1, 9, 59))), "09:59 AM");
}

#[test]
fn two_days_give_two_headers_and_one_separator() {
    let entries = vec![
        entry(stamp(2024, 1, 1, 9, 5), "first"),
        entry(stamp(2024, 1, 1, 10, 0), "second"),
        entry(stamp(2024, 1, 2, 8, 30), "third"),
    ];
    let body = render_entries(&entries);
    let expected = "<p><strong>01/01/2024</strong></p>\n\
         <article><p class='post-time'>09:05 AM</p><p>first</p></article>\n\
         <article><p class='post-time'>10:00 AM</p><p>second</p></article>\n\
         <hr>\n\
         <p><strong>02/01/2024</strong></p>\n\
         <article><p class='post-time'>08:30 AM</p><p>third</p></article>";
    assert_eq!(body, expected);
    assert_eq!(body.matches("<hr>").count(), 1);
    assert_eq!(body.matches("<strong>").count(), 2);
}

#[test]
fn empty_entries_render_the_no_posts_block() {
    let entries: Vec<Entry> = Vec::new();
    let body = render_entries(&entries);
    assert_eq!(body, "<p>No posts with content found.</p>");
    assert_eq!(body.matches("<strong>").count(), 0);
    assert_eq!(body.matches("<hr>").count(), 0);
}

#[test]
fn rendering_twice_is_byte_identical() {
    let entries = vec![
        entry(stamp(2024, 3, 4, 5, 6), "alpha"),
        entry(stamp(2024, 3, 5, 6, 7), "beta"),
    ];
    let once = render_document(&entries, "<html>{{posts}}</html>");
    let twice = render_document(&entries, "<html>{{posts}}</html>");
    assert_eq!(once, twice);
}

#[test]
fn template_round_trip_replaces_only_the_token() {
    assert_eq!(apply_template("A{{posts}}B", "X"), "AXB");
    assert_eq!(apply_template("no token here", "X"), "no token here");
    assert_eq!(apply_template("{{posts}}", "body"), "body");
    assert_eq!(apply_template("{{posts}}-{{posts}}", "X"), "X-{{posts}}");
    let template = "<html><head></head><body>{{posts}}</body></html>";
    let out = apply_template(template, "CONTENT");
    assert_eq!(out, "<html><head></head><body>CONTENT</body></html>");
}
