//! The configuration and the decoded shapes of the server's responses:
//! each decoder states, over the named result of the JSON read, exactly
//! which texts it accepts and what it returns for them.

use vstd::prelude::*;

use crate::chars::str_to_chars;
use crate::errors::DiaryError;
use crate::fetch::Post;
use crate::jsonio::{
    config_fields_of, lookup_id_of, opt_view, page_fields_of, page_view, read_config_fields,
    read_lookup_id, read_page_fields,
};
use crate::numfmt::{all_digits, dec_value, parse_decimal_i64};

verus! {

/// The run's configuration: the profile to fetch, where to write, the
/// template, and the display timezone.
pub struct Config {
    pub mastodon_url: String,
    pub output_file: String,
    pub template_file: String,
    pub timezone: String,
}

/// The configuration from the text of the configuration file.
///
/// `Ok` exactly when the text is a JSON object holding the four string
/// fields `mastodon_url`, `output_file`, `template_file` and `timezone`;
/// the configuration then holds exactly those values.
pub fn config_from_json(text: &str) -> (r: Result<Config, DiaryError>)
    ensures
        (r is Ok) <==> (config_fields_of(text@) is Some),
        r matches Ok(c) ==> config_fields_of(text@) == Some(
            (c.mastodon_url@, c.output_file@, c.template_file@, c.timezone@),
        ),
        r matches Err(e) ==> e == DiaryError::ConfigLoadFailure,
{
    match read_config_fields(text) {
        Some(f) => {
            let (u, o, t, z) = f;
            Ok(Config { mastodon_url: u, output_file: o, template_file: t, timezone: z })
        },
        None => Err(DiaryError::ConfigLoadFailure),
    }
}

/// The account id from the lookup response's JSON text.
///
/// A text that is no JSON document is a network-or-decode failure; a
/// document without an `id` field means the user does not exist; any
/// other document gives the field's text, empty for a non-string field.
pub fn account_id_from_json(text: &str) -> (r: Result<String, DiaryError>)
    ensures
        ({
            match lookup_id_of(text@) {
                None => r == Err::<String, DiaryError>(DiaryError::NetworkOrDecodeFailure),
                Some(None) => r == Err::<String, DiaryError>(DiaryError::UserNotFound),
                Some(Some(t)) => r matches Ok(s) && s@ == t,
            }
        }),
{
    match read_lookup_id(text) {
        None => Err(DiaryError::NetworkOrDecodeFailure),
        Some(None) => Err(DiaryError::UserNotFound),
        Some(Some(s)) => Ok(s),
    }
}

/// What one decoded post holds, given its optional wire fields: the text
/// fields default to empty, and an id that is not a digit string fitting
/// an `i64` defaults to zero.
pub open spec fn post_matches_fields(
    p: Post,
    f: (Option<Seq<char>>, Option<Seq<char>>, Option<Seq<char>>),
) -> bool {
    &&& p.id as int == (match f.0 {
        Some(t) => if t.len() > 0 && all_digits(t) && dec_value(t) <= i64::MAX {
            dec_value(t)
        } else {
            0
        },
        None => 0,
    })
    &&& p.created_at@ == (match f.1 {
        Some(c) => c,
        None => Seq::<char>::empty(),
    })
    &&& p.content@ == (match f.2 {
        Some(c) => c,
        None => Seq::<char>::empty(),
    })
}

/// One post from its decoded fields, missing fields tolerated as
/// [`post_matches_fields`] states.
pub fn post_from_fields(
    id_text: Option<String>,
    created_at: Option<String>,
    content: Option<String>,
) -> (r: Post)
    ensures
        post_matches_fields(r, (opt_view(id_text), opt_view(created_at), opt_view(content))),
{
    let id: i64 = match &id_text {
        Some(t) => {
            let cs = str_to_chars(t.as_str());
            match parse_decimal_i64(&cs) {
                Some(v) => v,
                None => 0,
            }
        },
        None => 0,
    };
    let created_at = match created_at {
        Some(c) => c,
        None => String::new(),
    };
    let content = match content {
        Some(c) => c,
        None => String::new(),
    };
    Post { id, created_at, content }
}

/// An optional string, cloned.
fn clone_opt_string(o: &Option<String>) -> (r: Option<String>)
    ensures
        r == *o,
{
    match o {
        Some(s) => Some(s.clone()),
        None => None,
    }
}

/// The posts of one timeline page from its JSON text.
///
/// `Ok` exactly when the text is a JSON array; then one post per element
/// in order, decoded from its fields as [`post_matches_fields`] states.
pub fn posts_from_json(text: &str) -> (r: Result<Vec<Post>, DiaryError>)
    ensures
        (r is Ok) <==> (page_fields_of(text@) is Some),
        r matches Ok(ps) ==> page_fields_of(text@) matches Some(fs) && ps@.len() == fs.len()
            && forall|i: int| #![auto] 0 <= i < ps@.len() ==> post_matches_fields(ps@[i], fs[i]),
        r matches Err(e) ==> e == DiaryError::NetworkOrDecodeFailure,
{
    let arr = match read_page_fields(text) {
        Some(a) => a,
        None => {
            return Err(DiaryError::NetworkOrDecodeFailure);
        },
    };
    let n = arr.len();
    let mut posts: Vec<Post> = Vec::new();
    let mut i: usize = 0;
    while i < n
        invariant
            i <= n,
            n == arr@.len(),
            page_fields_of(text@) == Some(page_view(arr@)),
            posts@.len() == i,
            forall|k: int| #![auto] 0 <= k < i ==> post_matches_fields(
                posts@[k],
                page_view(arr@)[k],
            ),
        decreases n - i,
    {
        let f = &arr[i];
        let id_text = clone_opt_string(&f.0);
        let created = clone_opt_string(&f.1);
        let content = clone_opt_string(&f.2);
        let p = post_from_fields(id_text, created, content);
        proof {
            assert(page_view(arr@)[i as int] == (
                opt_view(arr@[i as int].0),
                opt_view(arr@[i as int].1),
                opt_view(arr@[i as int].2),
            ));
        }
        posts.push(p);
        i += 1;
    }
    Ok(posts)
}

} // verus!
