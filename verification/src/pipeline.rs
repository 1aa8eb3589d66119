//! The pipeline from fetched posts to the rendered document: filter the
//! posts through the diary extractor, give each kept post its timestamp
//! in the display timezone, render the entries grouped by date, and
//! substitute them into the template.

use vstd::prelude::*;

use crate::chars::{str_to_chars, string_from_chars, trim_chars, trim_spec};
use crate::extract::{body_text_of, decoded_of, diary_entry_text, entry_raw_spec, has_marker};
use crate::fetch::Post;
use crate::render::{
    lemma_entries_render_equal, render_document, rendered, substituted, Entry,
};
use crate::timefmt::{current_stamp, post_stamp, shown_stamp, stamp_of, LocalStamp};

verus! {

/// Whether one post is kept: its content, trimmed, is non-empty, and the
/// body text extracted from it starts with the diary marker. A post that
/// fails this filter produces no entry.
pub open spec fn post_kept(p: Post) -> bool {
    trim_spec(p.content@).len() > 0 && has_marker(body_text_of(trim_spec(p.content@)))
}

/// The displayable text of a kept post: its entry text, decoded.
pub open spec fn post_text(p: Post) -> Seq<char> {
    decoded_of(entry_raw_spec(body_text_of(trim_spec(p.content@))))
}

/// The posts that pass the diary filter, in their fetched order.
pub open spec fn kept_posts(posts: Seq<Post>) -> Seq<Post>
    decreases posts.len(),
{
    if posts.len() == 0 {
        Seq::empty()
    } else {
        let rest = kept_posts(posts.drop_last());
        if post_kept(posts.last()) {
            rest.push(posts.last())
        } else {
            rest
        }
    }
}

/// Whether the entries are exactly the rendering of the kept posts: one
/// entry per kept post in order, with its decoded text and its converted
/// timestamp — the fallback standing in for a timestamp that does not
/// convert.
pub open spec fn valid_entries_for(
    entries: Seq<Entry>,
    posts: Seq<Post>,
    tz_name: Seq<char>,
    fallback: LocalStamp,
) -> bool {
    &&& entries.len() == kept_posts(posts).len()
    &&& forall|k: int| #![auto] 0 <= k < entries.len() ==> entries[k].text@ == post_text(
        kept_posts(posts)[k],
    ) && entries[k].stamp == shown_stamp(kept_posts(posts)[k].created_at@, tz_name, fallback)
        && entries[k].stamp.wf()
}

/// Turn the fetched posts into render-ready entries: posts with blank
/// content or without the diary marker are dropped; each kept post's text
/// is its decoded entry text, and its timestamp is the converted wire
/// timestamp in the named display timezone, or the fallback when it does
/// not convert.
pub fn build_entries(posts: &Vec<Post>, tz_name: &str, fallback: LocalStamp) -> (entries: Vec<
    Entry,
>)
    requires
        fallback.wf(),
    ensures
        valid_entries_for(entries@, posts@, tz_name@, fallback),
{
    let n = posts.len();
    let mut entries: Vec<Entry> = Vec::new();
    let mut i: usize = 0;
    while i < n
        invariant
            n == posts@.len(),
            i <= n,
            fallback.wf(),
            valid_entries_for(entries@, posts@.take(i as int), tz_name@, fallback),
        decreases n - i,
    {
        proof {
            assert(posts@.take(i as int + 1).drop_last() =~= posts@.take(i as int));
            assert(posts@.take(i as int + 1).last() == posts@[i as int]);
        }
        let ghost pre = entries@;
        let ghost kp0 = kept_posts(posts@.take(i as int));
        let p = &posts[i];
        let content_chars = str_to_chars(p.content.as_str());
        let trimmed = trim_chars(&content_chars);
        let mut kept = false;
        if trimmed.len() > 0 {
            let trimmed_str = string_from_chars(&trimmed);
            match diary_entry_text(trimmed_str.as_str()) {
                Some(text) => {
                    let stamp = post_stamp(p.created_at.as_str(), tz_name, fallback);
                    proof {
                        assert(post_kept(posts@[i as int]));
                        assert(text@ == post_text(posts@[i as int]));
                        assert(stamp == shown_stamp(
                            posts@[i as int].created_at@,
                            tz_name@,
                            fallback,
                        ));
                    }
                    entries.push(Entry { stamp, text });
                    kept = true;
                },
                None => {
                    proof {
                        assert(!post_kept(posts@[i as int]));
                    }
                },
            }
        } else {
            proof {
                assert(!post_kept(posts@[i as int]));
            }
        }
        proof {
            let kp1 = kept_posts(posts@.take(i as int + 1));
            if kept {
                assert(kp1 == kp0.push(posts@[i as int]));
                assert forall|k: int| 0 <= k < entries@.len() implies #[trigger] entries@[k].text@
                    == post_text(kp1[k]) && entries@[k].stamp == shown_stamp(
                    kp1[k].created_at@,
                    tz_name@,
                    fallback,
                ) && entries@[k].stamp.wf() by {
                    if k < pre.len() {
                        assert(entries@[k] == pre[k]);
                        assert(kp1[k] == kp0[k]);
                        assert(pre[k].text@ == post_text(kp0[k]) && pre[k].stamp == shown_stamp(
                            kp0[k].created_at@,
                            tz_name@,
                            fallback,
                        ) && pre[k].stamp.wf());
                    } else {
                        assert(entries@[k] == entries@.last());
                        assert(kp1[k] == posts@[i as int]);
                    }
                }
            } else {
                assert(kp1 == kp0);
                assert forall|k: int| 0 <= k < entries@.len() implies #[trigger] entries@[k].text@
                    == post_text(kp1[k]) && entries@[k].stamp == shown_stamp(
                    kp1[k].created_at@,
                    tz_name@,
                    fallback,
                ) && entries@[k].stamp.wf() by {
                    assert(pre[k].text@ == post_text(kp0[k]) && pre[k].stamp == shown_stamp(
                        kp0[k].created_at@,
                        tz_name@,
                        fallback,
                    ) && pre[k].stamp.wf());
                }
            }
            assert(entries@.len() == kp1.len());
            assert(valid_entries_for(entries@, posts@.take(i as int + 1), tz_name@, fallback));
        }
        i += 1;
    }
    proof {
        assert(posts@.take(n as int) =~= posts@);
    }
    entries
}

/// The whole rendering stage, driven from the fetched posts: the current
/// time in the named display timezone is the fallback timestamp; `None`
/// when the current time cannot be expressed there.
pub fn render_posts(posts: &Vec<Post>, tz_name: &str, template: &str) -> (r: Option<String>)
    ensures
        r matches Some(doc) ==> exists|entries: Seq<Entry>, fb: LocalStamp|
            #[trigger] valid_entries_for(entries, posts@, tz_name@, fb) && fb.wf() && doc@
                == substituted(template@, rendered(entries)),
{
    match current_stamp(tz_name) {
        Some(fallback) => {
            let entries = build_entries(posts, tz_name, fallback);
            proof {
                assert forall|k: int| #![auto] 0 <= k < entries@.len() implies entries@[k].stamp.wf() by {
                    assert(entries@[k].text@ == post_text(kept_posts(posts@)[k])
                        && entries@[k].stamp.wf());
                }
            }
            let doc = render_document(&entries, template);
            proof {
                assert(valid_entries_for(entries@, posts@, tz_name@, fallback));
            }
            Some(doc)
        },
        None => None,
    }
}

/// Law: the rendered document is a function of the posts, the timezone
/// name and the template alone whenever every kept post's timestamp
/// converts — two entry sets built from the same posts give byte-identical
/// documents, whatever fallback stamps their clocks supplied.
pub proof fn lemma_pipeline_deterministic(
    entries1: Seq<Entry>,
    fb1: LocalStamp,
    entries2: Seq<Entry>,
    fb2: LocalStamp,
    posts: Seq<Post>,
    tz_name: Seq<char>,
    template: Seq<char>,
)
    requires
        valid_entries_for(entries1, posts, tz_name, fb1),
        valid_entries_for(entries2, posts, tz_name, fb2),
        forall|k: int| #![auto] 0 <= k < kept_posts(posts).len() ==> stamp_of(
            kept_posts(posts)[k].created_at@,
            tz_name,
        ) is Some,
    ensures
        substituted(template, rendered(entries1)) == substituted(template, rendered(entries2)),
{
    assert forall|k: int| #![auto] 0 <= k < entries1.len() implies entries1[k].stamp
        == entries2[k].stamp && entries1[k].text@ == entries2[k].text@ by {
        assert(entries1[k].text@ == post_text(kept_posts(posts)[k]));
        assert(entries2[k].text@ == post_text(kept_posts(posts)[k]));
        assert(stamp_of(kept_posts(posts)[k].created_at@, tz_name) is Some);
        assert(entries1[k].stamp == shown_stamp(kept_posts(posts)[k].created_at@, tz_name, fb1));
        assert(entries2[k].stamp == shown_stamp(kept_posts(posts)[k].created_at@, tz_name, fb2));
    }
    lemma_entries_render_equal(entries1, entries2);
}

} // verus!
