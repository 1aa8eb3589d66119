//! The diary extractor: take one post's HTML content, pull out the body
//! text, keep it only when it starts with the diary marker, and normalise
//! it into the entry's displayable text.

use vstd::prelude::*;

use crate::chars::{
    collapse_chars, collapse_spec, str_to_chars, string_from_chars, sub_chars, trim_chars,
    trim_spec,
};

verus! {

/// The concatenated text of the body nodes of an HTML fragment.
pub uninterp spec fn body_text_of(html: Seq<char>) -> Seq<char>;

/// The text with its HTML entities decoded.
pub uninterp spec fn decoded_of(text: Seq<char>) -> Seq<char>;

/// Relies on select's `Document` parsing (`Document::from`, `find` with the
/// `Name("body")` predicate, `Node::text`): the concatenated body text is a
/// function of the HTML fragment alone.
#[verifier::external_body]
fn extract_body_text(content: &str) -> (r: String)
    ensures
        r@ == body_text_of(content@),
{
    let document = select::document::Document::from(content);
    let mut text = String::new();
    for node in document.find(select::predicate::Name("body")) {
        text.push_str(&node.text());
    }
    text
}

/// Relies on `html_escape::decode_html_entities`: the decoded text is a
/// function of the input text alone.
#[verifier::external_body]
fn decode_entities(s: &str) -> (r: String)
    ensures
        r@ == decoded_of(s@),
{
    html_escape::decode_html_entities(s).into_owned()
}

/// The diary marker that opens every kept post.
pub open spec fn marker() -> Seq<char> {
    "#Diary"@
}

/// Whether the text starts with the diary marker.
pub open spec fn has_marker(s: Seq<char>) -> bool {
    s.len() >= marker().len() && s.take(marker().len() as int) == marker()
}

/// The text with every leading repetition of the marker removed.
pub open spec fn strip_markers(s: Seq<char>) -> Seq<char>
    decreases s.len(),
{
    if has_marker(s) && marker().len() > 0 {
        strip_markers(s.skip(marker().len() as int))
    } else {
        s
    }
}

/// The entry's raw text: markers stripped, whitespace trimmed, collapsible
/// runs collapsed, and the result trimmed again.
pub open spec fn entry_raw_spec(text: Seq<char>) -> Seq<char> {
    trim_spec(collapse_spec(trim_spec(strip_markers(text))))
}

/// Whether the marker stands at position `off` of `s`.
fn marker_at(s: &Vec<char>, off: usize) -> (r: bool)
    requires
        off <= s@.len(),
    ensures
        r == has_marker(s@.skip(off as int)),
{
    proof {
        reveal_strlit("#Diary");
    }
    if s.len() - off >= 6 {
        let hit = s[off] == '#' && s[off + 1] == 'D' && s[off + 2] == 'i' && s[off + 3] == 'a'
            && s[off + 4] == 'r' && s[off + 5] == 'y';
        proof {
            let rest = s@.skip(off as int);
            if hit {
                assert(rest.take(6) =~= marker());
            } else {
                assert(rest.take(6) != marker()) by {
                    if rest.take(6) == marker() {
                        assert(rest.take(6)[0] == '#');
                        assert(rest.take(6)[1] == 'D');
                        assert(rest.take(6)[2] == 'i');
                        assert(rest.take(6)[3] == 'a');
                        assert(rest.take(6)[4] == 'r');
                        assert(rest.take(6)[5] == 'y');
                    }
                }
            }
        }
        hit
    } else {
        false
    }
}

/// The normalised text of the kept part: [`entry_raw_spec`] made
/// executable.
fn normalise_marked(chars: &Vec<char>) -> (r: Vec<char>)
    requires
        has_marker(chars@),
    ensures
        r@ == entry_raw_spec(chars@),
{
    proof {
        reveal_strlit("#Diary");
    }
    let n = chars.len();
    let mut off: usize = 0;
    let mut go = marker_at(chars, 0);
    proof {
        assert(chars@.skip(0) =~= chars@);
    }
    while go
        invariant
            n == chars@.len(),
            off <= n,
            go == has_marker(chars@.skip(off as int)),
            strip_markers(chars@) == strip_markers(chars@.skip(off as int)),
        decreases chars@.len() - off,
    {
        proof {
            reveal_strlit("#Diary");
            assert(off + 6 <= chars@.len());
            assert(chars@.skip(off as int).skip(6) =~= chars@.skip(off as int + 6));
        }
        off += 6;
        go = marker_at(chars, off);
    }
    proof {
        assert(strip_markers(chars@.skip(off as int)) == chars@.skip(off as int));
        assert(chars@.subrange(off as int, chars@.len() as int) =~= chars@.skip(off as int));
    }
    let rest = sub_chars(chars, off, chars.len());
    let trimmed = trim_chars(&rest);
    let collapsed = collapse_chars(&trimmed);
    trim_chars(&collapsed)
}

/// Extract a diary entry's raw text from one post's HTML content.
///
/// The result is `Some` exactly when the body text of the fragment starts
/// with the diary marker; the kept text has the markers stripped and its
/// runs of spaces, commas and exclamation marks collapsed to single
/// spaces, with surrounding whitespace trimmed.
pub fn process_diary_content(content: &str) -> (r: Option<String>)
    ensures
        (r is Some) <==> has_marker(body_text_of(content@)),
        r matches Some(t) ==> t@ == entry_raw_spec(body_text_of(content@)),
{
    let text = extract_body_text(content);
    let chars = str_to_chars(text.as_str());
    if marker_at(&chars, 0) {
        proof {
            assert(chars@.skip(0) =~= chars@);
        }
        let raw = normalise_marked(&chars);
        Some(string_from_chars(&raw))
    } else {
        proof {
            assert(chars@.skip(0) =~= chars@);
        }
        None
    }
}

/// The final displayable text of a post, if the post is a diary entry: the
/// raw entry text with its HTML entities decoded.
pub fn diary_entry_text(content: &str) -> (r: Option<String>)
    ensures
        (r is Some) <==> has_marker(body_text_of(content@)),
        r matches Some(t) ==> t@ == decoded_of(entry_raw_spec(body_text_of(content@))),
{
    match process_diary_content(content) {
        Some(raw) => Some(decode_entities(raw.as_str())),
        None => None,
    }
}

} // verus!
