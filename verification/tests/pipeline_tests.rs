use mastodon_diary::fetch::Post;
use mastodon_diary::pipeline::{build_entries, render_posts};
use mastodon_diary::timefmt::{current_stamp, post_stamp, LocalStamp};

fn post(created_at: &str, content: &str) -> Post {
    Post { id: 1, created_at: String::from(created_at), content: String::from(content) }
}

#[test]
fn timestamps_convert_to_the_display_timezone() {
    let fallback = LocalStamp { year: 2000, month: 1, day: 1, hour: 0, minute: 0 };
    let st = post_stamp("2024-01-02T03:04:05Z", "UTC", fallback);
    assert_eq!((st.year, st.month, st.day, st.hour, st.minute), (2024, 1, 2, 3, 4));

    let st = post_stamp("2024-06-01T12:00:00Z", "Europe/Berlin", fallback);
    assert_eq!((st.hour, st.minute), (14, 0));

    // An unparseable timestamp falls back to the given stamp.
    let st = post_stamp("not a timestamp", "UTC", fallback);
    assert_eq!((st.year, st.month, st.day), (2000, 1, 1));

    // An unknown timezone name also falls back.
    let st = post_stamp("2024-01-02T03:04:05Z", "Nowhere/City", fallback);
    assert_eq!(st.year, 2000);
}

#[test]
fn the_current_stamp_is_a_valid_calendar_time() {
    let st = current_stamp("UTC").unwrap();
    assert!((1..=12).contains(&st.month));
    assert!((1..=31).contains(&st.day));
    assert!(st.hour <= 23);
    assert!(st.minute <= 59);
}

#[test]
fn only_marked_posts_become_entries() {
    let fallback = LocalStamp { year: 2000, month: 1, day: 1, hour: 0, minute: 0 };
    let posts = vec![
        post("2024-01-01T08:00:00Z", "<p>#Diary kept one</p>"),
        post("2024-01-01T09:00:00Z", "<p>not a diary post</p>"),
        post("2024-01-01T10:00:00Z", "   "),
        post("2024-01-02T11:00:00Z", "<p>#Diary kept two</p>"),
    ];
    let entries = build_entries(&posts, "UTC", fallback);
    assert_eq!(entries.len(), 2);
    assert_eq!(entries[0].text, "kept one");
    assert_eq!(entries[1].text, "kept two");
    assert_eq!(entries[0].stamp.hour, 8);
    assert_eq!(entries[1].stamp.day, 2);
}

#[test]
fn the_whole_pipeline_fills_the_template() {
    let posts = vec![
        post("2024-01-01T08:00:00Z", "<p>#Diary morning &amp; evening</p>"),
    ];
    let doc = render_posts(&posts, "UTC", "<html>{{posts}}</html>").unwrap();
    let expected = "<html><p><strong>01/01/2024</strong></p>\n\
         <article><p class='post-time'>08:00 AM</p><p>morning & evening</p></article></html>";
    assert_eq!(doc, expected);
}

#[test]
fn the_pipeline_renders_the_no_posts_block_when_nothing_survives() {
    let posts = vec![post("2024-01-01T08:00:00Z", "<p>plain</p>")];
    let doc = render_posts(&posts, "UTC", "[{{posts}}]").unwrap();
    assert_eq!(doc, "[<p>No posts with content found.</p>]");
}
