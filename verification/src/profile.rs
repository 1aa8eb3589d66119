//! The profile resolver: take a profile URL of the form
//! `scheme://host/@username`, and parse out the host and the username
//! (the last path segment, kept as it stands).

use vstd::prelude::*;

use crate::chars::{str_to_chars, string_from_chars, sub_chars};
use crate::errors::DiaryError;

verus! {

/// The host of a URL: `None` exactly when the text is not a valid URL;
/// empty text for a URL without a host component.
pub uninterp spec fn url_host_of(s: Seq<char>) -> Option<Seq<char>>;

/// Relies on `url::Url::parse` and `Url::host_str`: the host of a URL is
/// a function of its text alone; parsing fails on malformed text with
/// `Err`, never a panic.
#[verifier::external_body]
fn parse_url_host(url: &str) -> (r: Option<String>)
    ensures
        (r is Some) == (url_host_of(url@) is Some),
        r matches Some(h) ==> url_host_of(url@) == Some(h@),
{
    match url::Url::parse(url) {
        Ok(u) => Some(u.host_str().unwrap_or("").to_string()),
        Err(_) => None,
    }
}

/// The last `/`-separated segment of the URL: the whole text when it has
/// no `/`.
pub open spec fn last_segment(s: Seq<char>) -> Seq<char>
    decreases s.len(),
{
    if s.len() == 0 {
        s
    } else if s.last() == '/' {
        Seq::empty()
    } else {
        last_segment(s.drop_last()).push(s.last())
    }
}

/// The last segment starts exactly after the last slash.
proof fn lemma_last_segment_at(s: Seq<char>, k: int)
    requires
        0 <= k <= s.len(),
        forall|t: int| k <= t < s.len() ==> s[t] != '/',
        k == 0 || s[k - 1] == '/',
    ensures
        last_segment(s) == s.skip(k),
    decreases s.len(),
{
    if k == s.len() {
        if s.len() > 0 {
            assert(s.last() == '/');
        }
        assert(s.skip(k) =~= Seq::<char>::empty());
        if s.len() == 0 {
            assert(last_segment(s) =~= s.skip(k));
        }
    } else {
        assert(s.last() != '/');
        assert(forall|t: int| k <= t < s.drop_last().len() ==> s.drop_last()[t] != '/');
        lemma_last_segment_at(s.drop_last(), k);
        assert(s.drop_last().skip(k).push(s.last()) =~= s.skip(k));
    }
}

/// Resolve a profile URL into its host and its username (the last path
/// segment).
///
/// `Ok` exactly when the text parses as a URL; any other text is an
/// invalid URL.
pub fn resolve_profile(url: &str) -> (r: Result<(String, String), DiaryError>)
    ensures
        (r is Ok) <==> (url_host_of(url@) is Some),
        r matches Ok(hu) ==> url_host_of(url@) == Some(hu.0@) && hu.1@ == last_segment(url@),
        r matches Err(e) ==> e == DiaryError::InvalidUrl,
{
    let host = match parse_url_host(url) {
        Some(h) => h,
        None => {
            return Err(DiaryError::InvalidUrl);
        },
    };

    // The username is the last `/`-separated segment of the whole URL.
    let chars = str_to_chars(url);
    let n = chars.len();
    let mut k: usize = n;
    while k > 0 && chars[k - 1] != '/'
        invariant
            n == chars@.len(),
            k <= n,
            forall|t: int| k <= t < n ==> chars@[t] != '/',
        decreases k,
    {
        k -= 1;
    }
    proof {
        lemma_last_segment_at(chars@, k as int);
        assert(chars@.subrange(k as int, n as int) =~= chars@.skip(k as int));
    }
    let user = sub_chars(&chars, k, n);

    Ok((host, string_from_chars(&user)))
}

} // verus!
