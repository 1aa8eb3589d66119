use mastodon_diary::config::{
    account_id_from_json, config_from_json, post_from_fields, posts_from_json,
};
use mastodon_diary::errors::DiaryError;
use mastodon_diary::numfmt::parse_decimal_i64;
use mastodon_diary::profile::resolve_profile;

#[test]
fn config_parses_all_four_fields() {
    let text = "{\"mastodon_url\":\"https://h/@u\",\"output_file\":\"out.html\",\
         \"template_file\":\"tpl.html\",\"timezone\":\"Europe/Berlin\"}";
    let c = config_from_json(text).unwrap();
    assert_eq!(c.mastodon_url, "https://h/@u");
    assert_eq!(c.output_file, "out.html");
    assert_eq!(c.template_file, "tpl.html");
    assert_eq!(c.timezone, "Europe/Berlin");
}

#[test]
fn config_missing_field_fails_to_load() {
    let text = "{\"mastodon_url\":\"https://h/@u\"}";
    assert!(matches!(config_from_json(text), Err(DiaryError::ConfigLoadFailure)));
    assert!(matches!(config_from_json("not json"), Err(DiaryError::ConfigLoadFailure)));
    let non_string = "{\"mastodon_url\":5,\"output_file\":\"o\",\"template_file\":\"t\",\"timezone\":\"z\"}";
    assert!(matches!(config_from_json(non_string), Err(DiaryError::ConfigLoadFailure)));
}

#[test]
fn account_id_is_read_from_the_lookup_response() {
    assert_eq!(account_id_from_json("{\"id\":\"12345\"}"), Ok(String::from("12345")));
    assert_eq!(account_id_from_json("{\"name\":\"x\"}"), Err(DiaryError::UserNotFound));
    assert_eq!(account_id_from_json("###"), Err(DiaryError::NetworkOrDecodeFailure));
}

#[test]
fn posts_decode_with_defaults_for_missing_fields() {
    let text = "[{\"id\":\"10\",\"created_at\":\"2024-01-01T00:00:00Z\",\
         \"content\":\"<p>#Diary hi</p>\"},{}]";
    let posts = posts_from_json(text).unwrap();
    assert_eq!(posts.len(), 2);
    assert_eq!(posts[0].id, 10);
    assert_eq!(posts[0].created_at, "2024-01-01T00:00:00Z");
    assert_eq!(posts[0].content, "<p>#Diary hi</p>");
    assert_eq!(posts[1].id, 0);
    assert_eq!(posts[1].created_at, "");
    assert_eq!(posts[1].content, "");
    assert!(matches!(posts_from_json("{}"), Err(DiaryError::NetworkOrDecodeFailure)));
}

#[test]
fn post_ids_parse_as_decimal() {
    let p = post_from_fields(Some(String::from("987")), None, None);
    assert_eq!(p.id, 987);
    let p = post_from_fields(Some(String::from("12a")), None, None);
    assert_eq!(p.id, 0);

    assert_eq!(parse_decimal_i64(&vec!['1', '2', '3']), Some(123));
    assert_eq!(parse_decimal_i64(&Vec::new()), None);
    assert_eq!(
        parse_decimal_i64(&"9223372036854775807".chars().collect::<Vec<char>>()),
        Some(i64::MAX)
    );
    assert_eq!(parse_decimal_i64(&"9223372036854775808".chars().collect::<Vec<char>>()), None);
}

#[test]
fn profile_urls_resolve_to_host_and_username() {
    let (host, user) = resolve_profile("https://mastodon.social/@alice").unwrap();
    assert_eq!(host, "mastodon.social");
    assert_eq!(user, "@alice");
    let (host, user) = resolve_profile("https://user@example.org:8080/@bob").unwrap();
    assert_eq!(host, "example.org");
    assert_eq!(user, "@bob");
    assert_eq!(resolve_profile("no separator"), Err(DiaryError::InvalidUrl));
    assert_eq!(resolve_profile("http://"), Err(DiaryError::InvalidUrl));
    // Repeated slashes after the scheme are tolerated by URL parsing.
    let (host, user) = resolve_profile("https:///@alice").unwrap();
    assert_eq!(host, "alice");
    assert_eq!(user, "@alice");
}

#[test]
fn error_messages_name_each_failure() {
    assert_eq!(DiaryError::ConfigLoadFailure.message(), "could not load the configuration");
    assert_eq!(DiaryError::InvalidUrl.message(), "invalid profile URL");
    assert_eq!(DiaryError::UserNotFound.message(), "this user does not exist");
    assert_eq!(DiaryError::NetworkOrDecodeFailure.message(), "a request to the server failed");
    assert_eq!(DiaryError::TemplateReadFailure.message(), "template file not found");
    assert_eq!(DiaryError::InvalidTimezone.message(), "invalid timezone name");
    assert_eq!(DiaryError::OutputWriteFailure.message(), "could not write the output file");
}
