//! The timeline fetcher's decisions: cursor pagination over a timeline,
//! one page at a time, stopping at the first empty page. The caller
//! performs each HTTP request and hands the decoded page back; every
//! decision about the cursor and about termination is made here.

use vstd::prelude::*;

use crate::chars::{append_chars, push_str_chars, string_from_chars};
use crate::numfmt::{dec_int, i64_to_dec_chars};

verus! {

/// One post as retrieved from the timeline: its numeric id, its wire
/// timestamp, and its HTML content.
pub struct Post {
    pub id: i64,
    pub created_at: String,
    pub content: String,
}

/// The fetcher's state across pages: the posts accumulated so far, the
/// pagination cursor for the next request, and whether the fetch is done.
pub struct FetchState {
    pub posts: Vec<Post>,
    pub next_max_id: Option<i64>,
    pub done: bool,
}

impl FetchState {
    /// The state before the first request: nothing fetched, no cursor.
    pub fn new() -> (r: FetchState)
        ensures
            r.posts@ == Seq::<Post>::empty(),
            r.next_max_id is None,
            !r.done,
    {
        FetchState { posts: Vec::new(), next_max_id: None, done: false }
    }
}

/// Fold one fetched page into the state: an empty page ends the fetch;
/// otherwise the posts are appended in order and the cursor moves to one
/// less than the oldest (last) post's id.
pub fn apply_page(st: &mut FetchState, page: Vec<Post>)
    requires
        !old(st).done,
        page@.len() > 0 ==> page@.last().id > i64::MIN,
    ensures
        final(st).done == (page@.len() == 0),
        final(st).posts@ == old(st).posts@ + page@,
        page@.len() > 0 ==> final(st).next_max_id == Some((page@.last().id - 1) as i64),
        page@.len() == 0 ==> final(st).next_max_id == old(st).next_max_id,
{
    if page.len() == 0 {
        st.done = true;
        proof {
            assert(st.posts@ + page@ =~= st.posts@);
        }
    } else {
        let last_id = page[page.len() - 1].id;
        st.next_max_id = Some(last_id - 1);
        let mut p = page;
        st.posts.append(&mut p);
    }
}

/// The next request to issue: `None` when the fetch is done, otherwise
/// the cursor to send with the request, if any.
pub fn next_request(st: &FetchState) -> (r: Option<Option<i64>>)
    ensures
        st.done ==> r is None,
        !st.done ==> r == Some(st.next_max_id),
{
    if st.done {
        None
    } else {
        Some(st.next_max_id)
    }
}

/// The account-lookup URL for a host and a username.
pub fn lookup_url(host: &str, username: &str) -> (r: String)
    ensures
        r@ == "https://"@ + host@ + "/api/v1/accounts/lookup?acct="@ + username@,
{
    let mut v: Vec<char> = Vec::new();
    push_str_chars(&mut v, "https://");
    push_str_chars(&mut v, host);
    push_str_chars(&mut v, "/api/v1/accounts/lookup?acct=");
    push_str_chars(&mut v, username);
    string_from_chars(&v)
}

/// The statuses URL for a host and an account id, with the pagination
/// cursor appended when there is one.
pub fn timeline_url(host: &str, account_id: &str, max_id: Option<i64>) -> (r: String)
    requires
        max_id matches Some(m) ==> m > i64::MIN,
    ensures
        ({
            let base = "https://"@ + host@ + "/api/v1/accounts/"@ + account_id@ + "/statuses"@;
            match max_id {
                None => r@ == base,
                Some(m) => r@ == base + "?max_id="@ + dec_int(m as int),
            }
        }),
{
    let mut v: Vec<char> = Vec::new();
    push_str_chars(&mut v, "https://");
    push_str_chars(&mut v, host);
    push_str_chars(&mut v, "/api/v1/accounts/");
    push_str_chars(&mut v, account_id);
    push_str_chars(&mut v, "/statuses");
    match max_id {
        None => {},
        Some(m) => {
            push_str_chars(&mut v, "?max_id=");
            let mut digits = i64_to_dec_chars(m);
            append_chars(&mut v, &digits);
        },
    }
    string_from_chars(&v)
}

/// The concatenation of the pages, in order.
pub open spec fn concat_pages(pages: Seq<Seq<Post>>) -> Seq<Post>
    decreases pages.len(),
{
    if pages.len() == 0 {
        Seq::empty()
    } else {
        pages[0] + concat_pages(pages.skip(1))
    }
}

/// The posts the fetcher holds after folding the pages in order, each
/// step as [`apply_page`] does it.
pub open spec fn run_posts(pages: Seq<Seq<Post>>) -> Seq<Post>
    decreases pages.len(),
{
    if pages.len() == 0 {
        Seq::empty()
    } else {
        run_posts(pages.drop_last()) + pages.last()
    }
}

/// Whether the fetcher is done after folding the pages in order: done as
/// soon as some page was empty.
pub open spec fn run_done(pages: Seq<Seq<Post>>) -> bool
    decreases pages.len(),
{
    if pages.len() == 0 {
        false
    } else {
        run_done(pages.drop_last()) || pages.last().len() == 0
    }
}

/// Concatenation distributes over appending one page at the end.
proof fn lemma_concat_snoc(pages: Seq<Seq<Post>>, page: Seq<Post>)
    ensures
        concat_pages(pages.push(page)) == concat_pages(pages) + page,
    decreases pages.len(),
{
    if pages.len() == 0 {
        assert(pages.push(page).skip(1) =~= Seq::<Seq<Post>>::empty());
        assert(pages.push(page)[0] == page);
        assert(concat_pages(Seq::<Seq<Post>>::empty()) == Seq::<Post>::empty());
        assert(concat_pages(pages.push(page)) == page + Seq::<Post>::empty());
        assert(concat_pages(pages.push(page)) =~= concat_pages(pages) + page);
    } else {
        assert(pages.push(page).skip(1) =~= pages.skip(1).push(page));
        lemma_concat_snoc(pages.skip(1), page);
        assert(pages.push(page)[0] == pages[0]);
        assert(concat_pages(pages.push(page)) =~= concat_pages(pages) + page);
    }
}

/// The folded run accumulates exactly the concatenation of the pages.
proof fn lemma_run_posts_concat(pages: Seq<Seq<Post>>)
    ensures
        run_posts(pages) == concat_pages(pages),
    decreases pages.len(),
{
    if pages.len() > 0 {
        lemma_run_posts_concat(pages.drop_last());
        lemma_concat_snoc(pages.drop_last(), pages.last());
        assert(pages.drop_last().push(pages.last()) =~= pages);
    }
}

/// A run over non-empty pages alone never ends the fetch.
proof fn lemma_run_not_done(pages: Seq<Seq<Post>>)
    requires
        forall|i: int| 0 <= i < pages.len() ==> pages[i].len() > 0,
    ensures
        !run_done(pages),
    decreases pages.len(),
{
    if pages.len() > 0 {
        assert(forall|i: int| 0 <= i < pages.drop_last().len() ==> pages.drop_last()[i].len()
            > 0);
        lemma_run_not_done(pages.drop_last());
        assert(pages.last().len() > 0);
    }
}

/// Law: a fetch that sees the given pages in order — every page but the
/// last non-empty, the last one empty — accumulates exactly the
/// concatenation of the non-empty pages, in order; it is not done before
/// any of the pages, so it issues one request per page: exactly one more
/// request than there are non-empty pages; and the empty page ends it.
pub proof fn lemma_pagination(pages: Seq<Seq<Post>>)
    requires
        pages.len() > 0,
        pages.last().len() == 0,
        forall|i: int| 0 <= i < pages.len() - 1 ==> pages[i].len() > 0,
    ensures
        run_posts(pages) == concat_pages(pages.drop_last()),
        forall|k: int| 0 <= k < pages.len() ==> !run_done(#[trigger] pages.take(k)),
        run_done(pages),
{
    lemma_run_posts_concat(pages.drop_last());
    assert(run_posts(pages) =~= run_posts(pages.drop_last()) + pages.last());
    assert(run_posts(pages) =~= run_posts(pages.drop_last()));
    assert forall|k: int| 0 <= k < pages.len() implies !run_done(#[trigger] pages.take(k)) by {
        assert(forall|i: int| 0 <= i < pages.take(k).len() ==> pages.take(k)[i].len() > 0);
        lemma_run_not_done(pages.take(k));
    }
}

} // verus!
