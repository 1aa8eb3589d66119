//! Trusted JSON reading: each reader decodes one response shape of the
//! pipeline into plain optional strings, and its result carries a name,
//! so that the verified decoders above can state exactly what they
//! return for every text.

use vstd::prelude::*;

verus! {

/// The view of an optional string.
pub open spec fn opt_view(o: Option<String>) -> Option<Seq<char>> {
    match o {
        Some(s) => Some(s@),
        None => None,
    }
}

/// The four string fields `mastodon_url`, `output_file`, `template_file`
/// and `timezone` of a configuration text: `None` unless the text is a
/// JSON object holding all four as strings.
pub uninterp spec fn config_fields_of(text: Seq<char>) -> Option<
    (Seq<char>, Seq<char>, Seq<char>, Seq<char>),
>;

/// Relies on `serde_json::from_str`, `Value::get` and `Value::as_str`:
/// the decoded fields are a function of the text alone; malformed input
/// returns `Err`, never a panic.
#[verifier::external_body]
pub(crate) fn read_config_fields(text: &str) -> (r: Option<(String, String, String, String)>)
    ensures
        (r is Some) == (config_fields_of(text@) is Some),
        r matches Some(f) ==> config_fields_of(text@) == Some((f.0@, f.1@, f.2@, f.3@)),
{
    let v: serde_json::Value = serde_json::from_str(text).ok()?;
    Some((
        v.get("mastodon_url")?.as_str()?.to_string(),
        v.get("output_file")?.as_str()?.to_string(),
        v.get("template_file")?.as_str()?.to_string(),
        v.get("timezone")?.as_str()?.to_string(),
    ))
}

/// The account id field of a lookup response text: `None` when the text
/// is not a JSON document; `Some(None)` when the document has no `id`
/// field; otherwise the field's text, empty for a non-string field.
pub uninterp spec fn lookup_id_of(text: Seq<char>) -> Option<Option<Seq<char>>>;

/// The view of a decoded lookup result.
pub open spec fn lookup_view(r: Option<Option<String>>) -> Option<Option<Seq<char>>> {
    match r {
        Some(inner) => Some(opt_view(inner)),
        None => None,
    }
}

/// Relies on `serde_json::from_str`, `Value::get` and `Value::as_str`:
/// the decoded id field is a function of the text alone.
#[verifier::external_body]
pub(crate) fn read_lookup_id(text: &str) -> (r: Option<Option<String>>)
    ensures
        lookup_view(r) == lookup_id_of(text@),
{
    let v: serde_json::Value = serde_json::from_str(text).ok()?;
    Some(v.get("id").map(|f| f.as_str().unwrap_or("").to_string()))
}

/// The `id`, `created_at` and `content` fields of each element of a
/// timeline page text, in order: `None` unless the text is a JSON array;
/// a missing or non-string field of an element is `None` there.
pub uninterp spec fn page_fields_of(text: Seq<char>) -> Option<
    Seq<(Option<Seq<char>>, Option<Seq<char>>, Option<Seq<char>>)>,
>;

/// The views of a decoded page.
pub open spec fn page_view(v: Seq<(Option<String>, Option<String>, Option<String>)>) -> Seq<
    (Option<Seq<char>>, Option<Seq<char>>, Option<Seq<char>>),
> {
    v.map_values(
        |t: (Option<String>, Option<String>, Option<String>)|
            (opt_view(t.0), opt_view(t.1), opt_view(t.2)),
    )
}

/// Relies on `serde_json::from_str`, `Value::as_array`, `Value::get` and
/// `Value::as_str`: the decoded fields are a function of the text alone.
#[verifier::external_body]
pub(crate) fn read_page_fields(text: &str) -> (r: Option<
    Vec<(Option<String>, Option<String>, Option<String>)>,
>)
    ensures
        (r is Some) == (page_fields_of(text@) is Some),
        r matches Some(v) ==> page_fields_of(text@) == Some(page_view(v@)),
{
    let v: serde_json::Value = serde_json::from_str(text).ok()?;
    Some(v.as_array()?.iter().map(|e| (
        e.get("id").and_then(|f| f.as_str()).map(|s| s.to_string()),
        e.get("created_at").and_then(|f| f.as_str()).map(|s| s.to_string()),
        e.get("content").and_then(|f| f.as_str()).map(|s| s.to_string()),
    )).collect())
}

} // verus!
