//! The renderer: turn the accepted entries into HTML blocks — a date
//! header at each change of day, a separator between day groups, one
//! article per entry — join them with newlines, and substitute the result
//! for the template's placeholder token.

use vstd::prelude::*;

use crate::chars::{append_chars, chars_eq, push_str_chars, str_to_chars, string_from_chars, sub_chars};
use crate::timefmt::{date_str, format_date, format_time, time_str, LocalStamp};

verus! {

/// One diary entry ready for rendering: its timestamp in the display
/// timezone and its decoded text.
pub struct Entry {
    pub stamp: LocalStamp,
    pub text: String,
}

/// The date-header block above a day's entries.
pub open spec fn header_block(d: Seq<char>) -> Seq<char> {
    "<p><strong>"@ + d + "</strong></p>"@
}

/// The separator between two day groups.
pub open spec fn sep_block() -> Seq<char> {
    "<hr>"@
}

/// The block of one entry: its formatted time and its text.
pub open spec fn entry_block(e: Entry) -> Seq<char> {
    "<article><p class='post-time'>"@ + time_str(e.stamp) + "</p><p>"@ + e.text@
        + "</p></article>"@
}

/// The block shown when no entry survived filtering.
pub open spec fn no_posts_block() -> Seq<char> {
    "<p>No posts with content found.</p>"@
}

/// The blocks emitted for the entries, walked in order, given the
/// formatted date of the entry before them (`None` before the first): a
/// separator and a header at each change of date, then the entry itself.
pub open spec fn blocks_from(entries: Seq<Entry>, prev: Option<Seq<char>>) -> Seq<Seq<char>>
    decreases entries.len(),
{
    if entries.len() == 0 {
        Seq::empty()
    } else {
        let e = entries[0];
        let d = date_str(e.stamp);
        let rest = blocks_from(entries.skip(1), Some(d));
        if prev == Some(d) {
            seq![entry_block(e)] + rest
        } else if prev is Some {
            seq![sep_block(), header_block(d), entry_block(e)] + rest
        } else {
            seq![header_block(d), entry_block(e)] + rest
        }
    }
}

/// All blocks of the page body: the entry blocks, or the single no-posts
/// block when there is no entry.
pub open spec fn all_blocks(entries: Seq<Entry>) -> Seq<Seq<char>> {
    if entries.len() == 0 {
        seq![no_posts_block()]
    } else {
        blocks_from(entries, None::<Seq<char>>)
    }
}

/// The blocks joined with single newlines.
pub open spec fn join_nl(bs: Seq<Seq<char>>) -> Seq<char>
    decreases bs.len(),
{
    if bs.len() == 0 {
        Seq::empty()
    } else if bs.len() == 1 {
        bs[0]
    } else {
        bs[0] + seq!['\n'] + join_nl(bs.skip(1))
    }
}

/// The rendered page body for the entries.
pub open spec fn rendered(entries: Seq<Entry>) -> Seq<char> {
    join_nl(all_blocks(entries))
}

/// The views of a vector of character vectors.
pub open spec fn views_of(bs: Seq<Vec<char>>) -> Seq<Seq<char>> {
    bs.map_values(|b: Vec<char>| b@)
}

/// The view of the remembered previous date.
pub open spec fn prev_of(o: Option<Vec<char>>) -> Option<Seq<char>> {
    match o {
        Some(v) => Some(v@),
        None => None,
    }
}

/// Joining after appending one more block appends a newline and the block.
proof fn lemma_join_snoc(bs: Seq<Seq<char>>, b: Seq<char>)
    requires
        bs.len() >= 1,
    ensures
        join_nl(bs.push(b)) == join_nl(bs) + seq!['\n'] + b,
    decreases bs.len(),
{
    if bs.len() == 1 {
        assert(bs.push(b).skip(1) =~= seq![b]);
        assert(join_nl(seq![b]) == b);
        assert(bs.push(b)[0] == bs[0]);
        assert(join_nl(bs.push(b)) =~= join_nl(bs) + seq!['\n'] + b);
    } else {
        assert(bs.push(b).skip(1) =~= bs.skip(1).push(b));
        lemma_join_snoc(bs.skip(1), b);
        assert(bs.push(b).len() >= 2);
        assert(join_nl(bs.push(b)) == bs.push(b)[0] + seq!['\n'] + join_nl(bs.push(b).skip(1)));
        assert(bs.push(b)[0] == bs[0]);
        assert(join_nl(bs) == bs[0] + seq!['\n'] + join_nl(bs.skip(1)));
        assert(join_nl(bs.push(b)) =~= join_nl(bs) + seq!['\n'] + b);
    }
}

/// The blocks for the entries, as executable code.
fn build_blocks(entries: &Vec<Entry>) -> (blocks: Vec<Vec<char>>)
    requires
        forall|k: int| #![auto] 0 <= k < entries@.len() ==> entries@[k].stamp.wf(),
    ensures
        views_of(blocks@) == blocks_from(entries@, None::<Seq<char>>),
{
    let n = entries.len();
    let mut blocks: Vec<Vec<char>> = Vec::new();
    let mut last_date: Option<Vec<char>> = None;
    let mut i: usize = 0;
    proof {
        assert(entries@.skip(0) =~= entries@);
        assert(views_of(blocks@) =~= Seq::<Seq<char>>::empty());
    }
    while i < n
        invariant
            n == entries@.len(),
            i <= n,
            forall|k: int| #![auto] 0 <= k < entries@.len() ==> entries@[k].stamp.wf(),
            blocks_from(entries@, None::<Seq<char>>) == views_of(blocks@) + blocks_from(
                entries@.skip(i as int),
                prev_of(last_date),
            ),
        decreases n - i,
    {
        let ghost pre = blocks@;
        let ghost prev0 = prev_of(last_date);
        let e = &entries[i];
        let d = format_date(&e.stamp);
        let is_same = match &last_date {
            Some(p) => chars_eq(p, &d),
            None => false,
        };
        proof {
            assert(entries@.skip(i as int)[0] == entries@[i as int]);
            assert(entries@.skip(i as int).skip(1) =~= entries@.skip(i as int + 1));
        }
        if !is_same {
            if last_date.is_some() {
                let mut s: Vec<char> = Vec::new();
                push_str_chars(&mut s, "<hr>");
                blocks.push(s);
            }
            let mut h: Vec<char> = Vec::new();
            push_str_chars(&mut h, "<p><strong>");
            append_chars(&mut h, &d);
            push_str_chars(&mut h, "</strong></p>");
            blocks.push(h);
        }
        let t = format_time(&e.stamp);
        let mut b: Vec<char> = Vec::new();
        push_str_chars(&mut b, "<article><p class='post-time'>");
        append_chars(&mut b, &t);
        push_str_chars(&mut b, "</p><p>");
        let txt = str_to_chars(e.text.as_str());
        append_chars(&mut b, &txt);
        push_str_chars(&mut b, "</p></article>");
        blocks.push(b);
        last_date = Some(d);
        proof {
            let ent = entries@[i as int];
            let ds = date_str(ent.stamp);
            if prev0 == Some(ds) {
                assert(views_of(blocks@) =~= views_of(pre) + seq![entry_block(ent)]);
            } else if prev0 is Some {
                assert(views_of(blocks@) =~= views_of(pre) + seq![
                    sep_block(),
                    header_block(ds),
                    entry_block(ent),
                ]);
            } else {
                assert(views_of(blocks@) =~= views_of(pre) + seq![
                    header_block(ds),
                    entry_block(ent),
                ]);
            }
            assert(blocks_from(entries@, None::<Seq<char>>) == views_of(blocks@) + blocks_from(
                entries@.skip(i as int + 1),
                prev_of(last_date),
            ));
        }
        i += 1;
    }
    proof {
        assert(entries@.skip(n as int) =~= Seq::<Entry>::empty());
        assert(blocks_from(entries@, None::<Seq<char>>) =~= views_of(blocks@));
    }
    blocks
}

/// The blocks joined with single newlines, as executable code.
fn join_blocks(bs: &Vec<Vec<char>>) -> (r: Vec<char>)
    ensures
        r@ == join_nl(views_of(bs@)),
{
    let n = bs.len();
    let mut out: Vec<char> = Vec::new();
    if n == 0 {
        return out;
    }
    append_chars(&mut out, &bs[0]);
    proof {
        assert(views_of(bs@).take(1) =~= seq![bs@[0]@]);
        assert(out@ == join_nl(views_of(bs@).take(1)));
    }
    let mut i: usize = 1;
    while i < n
        invariant
            1 <= i <= n,
            n == bs@.len(),
            out@ == join_nl(views_of(bs@).take(i as int)),
        decreases n - i,
    {
        out.push('\n');
        append_chars(&mut out, &bs[i]);
        proof {
            lemma_join_snoc(views_of(bs@).take(i as int), bs@[i as int]@);
            assert(views_of(bs@).take(i as int).push(bs@[i as int]@) =~= views_of(bs@).take(
                i as int + 1,
            ));
        }
        i += 1;
    }
    proof {
        assert(views_of(bs@).take(n as int) =~= views_of(bs@));
    }
    out
}

/// The rendered page body: the entries' blocks joined with newlines, or
/// the no-posts block when there is no entry.
pub fn render_entries(entries: &Vec<Entry>) -> (r: String)
    requires
        forall|k: int| #![auto] 0 <= k < entries@.len() ==> entries@[k].stamp.wf(),
    ensures
        r@ == rendered(entries@),
{
    let mut blocks = build_blocks(entries);
    if entries.len() == 0 {
        let mut s: Vec<char> = Vec::new();
        push_str_chars(&mut s, "<p>No posts with content found.</p>");
        blocks.push(s);
        proof {
            assert(views_of(blocks@) =~= seq![no_posts_block()]);
        }
    }
    let joined = join_blocks(&blocks);
    string_from_chars(&joined)
}

/// The template's placeholder token.
pub open spec fn placeholder() -> Seq<char> {
    "{{posts}}"@
}

/// The template with its first occurrence of the placeholder replaced by
/// the body, and every other character kept; the template unchanged when
/// the placeholder does not occur.
pub open spec fn substituted(t: Seq<char>, body: Seq<char>) -> Seq<char>
    decreases t.len(),
{
    if t.len() == 0 || t.len() < placeholder().len() {
        t
    } else if t.take(placeholder().len() as int) == placeholder() {
        body + t.skip(placeholder().len() as int)
    } else {
        seq![t[0]] + substituted(t.skip(1), body)
    }
}

/// Whether the placeholder stands at position `off` of `t`.
fn ph_at(t: &Vec<char>, off: usize) -> (r: bool)
    requires
        off <= t@.len(),
    ensures
        r == (t@.len() - off >= placeholder().len() && t@.skip(off as int).take(
            placeholder().len() as int,
        ) == placeholder()),
{
    proof {
        reveal_strlit("{{posts}}");
    }
    if t.len() - off >= 9 {
        let hit = t[off] == '{' && t[off + 1] == '{' && t[off + 2] == 'p' && t[off + 3] == 'o'
            && t[off + 4] == 's' && t[off + 5] == 't' && t[off + 6] == 's' && t[off + 7] == '}'
            && t[off + 8] == '}';
        proof {
            let rest = t@.skip(off as int);
            if hit {
                assert(rest.take(9) =~= placeholder());
            } else {
                assert(rest.take(9) != placeholder()) by {
                    if rest.take(9) == placeholder() {
                        assert(rest.take(9)[0] == '{');
                        assert(rest.take(9)[1] == '{');
                        assert(rest.take(9)[2] == 'p');
                        assert(rest.take(9)[3] == 'o');
                        assert(rest.take(9)[4] == 's');
                        assert(rest.take(9)[5] == 't');
                        assert(rest.take(9)[6] == 's');
                        assert(rest.take(9)[7] == '}');
                        assert(rest.take(9)[8] == '}');
                    }
                }
            }
        }
        hit
    } else {
        false
    }
}

/// Substitute the body for the template's placeholder token: the first
/// occurrence is replaced, every other character of the template is kept,
/// and a template without the token comes back unchanged.
pub fn apply_template(template: &str, body: &str) -> (r: String)
    ensures
        r@ == substituted(template@, body@),
{
    let t = str_to_chars(template);
    let b = str_to_chars(body);
    let n = t.len();
    let mut out: Vec<char> = Vec::new();
    let mut i: usize = 0;
    proof {
        assert(t@.skip(0) =~= t@);
    }
    while n - i >= 9
        invariant
            n == t@.len(),
            i <= n,
            t@ == template@,
            b@ == body@,
            substituted(t@, b@) == out@ + substituted(t@.skip(i as int), b@),
        decreases n - i,
    {
        if ph_at(&t, i) {
            append_chars(&mut out, &b);
            let rest = sub_chars(&t, i + 9, n);
            append_chars(&mut out, &rest);
            proof {
                reveal_strlit("{{posts}}");
                assert(t@.skip(i as int).skip(9) =~= t@.subrange(i as int + 9, n as int));
                assert(substituted(t@.skip(i as int), b@) == b@ + t@.skip(i as int).skip(9));
            }
            return string_from_chars(&out);
        }
        proof {
            reveal_strlit("{{posts}}");
            assert(t@.skip(i as int).len() >= placeholder().len());
            assert(t@.skip(i as int).take(placeholder().len() as int) != placeholder());
            assert(t@.skip(i as int)[0] == t@[i as int]);
            assert(t@.skip(i as int).skip(1) =~= t@.skip(i as int + 1));
        }
        out.push(t[i]);
        i += 1;
    }
    proof {
        reveal_strlit("{{posts}}");
        assert(t@.skip(i as int).len() < placeholder().len());
        assert(t@.subrange(i as int, n as int) =~= t@.skip(i as int));
    }
    let rest = sub_chars(&t, i, n);
    append_chars(&mut out, &rest);
    string_from_chars(&out)
}

/// Render the entries and substitute the result for the template's
/// placeholder.
pub fn render_document(entries: &Vec<Entry>, template: &str) -> (r: String)
    requires
        forall|k: int| #![auto] 0 <= k < entries@.len() ==> entries@[k].stamp.wf(),
    ensures
        r@ == substituted(template@, rendered(entries@)),
{
    let body = render_entries(entries);
    apply_template(template, body.as_str())
}

/// Law: rendering is a function of the entries and the template alone, so
/// the same input rendered twice gives byte-identical output.
pub proof fn lemma_render_deterministic(
    entries1: Seq<Entry>,
    template1: Seq<char>,
    entries2: Seq<Entry>,
    template2: Seq<char>,
)
    requires
        entries1 == entries2,
        template1 == template2,
    ensures
        substituted(template1, rendered(entries1)) == substituted(template2, rendered(entries2)),
{
}

/// Law: with no surviving entries the rendered body is exactly the single
/// no-posts block — no date header, no separator, nothing else.
pub proof fn lemma_empty_render()
    ensures
        rendered(Seq::<Entry>::empty()) == no_posts_block(),
{
    assert(all_blocks(Seq::<Entry>::empty()) =~= seq![no_posts_block()]);
}

/// Entries equal in stamp and text emit equal blocks.
proof fn lemma_blocks_equal(a: Seq<Entry>, b: Seq<Entry>, prev: Option<Seq<char>>)
    requires
        a.len() == b.len(),
        forall|k: int| #![auto] 0 <= k < a.len() ==> a[k].stamp == b[k].stamp && a[k].text@
            == b[k].text@,
    ensures
        blocks_from(a, prev) == blocks_from(b, prev),
    decreases a.len(),
{
    if a.len() > 0 {
        assert(entry_block(a[0]) == entry_block(b[0]));
        assert(date_str(a[0].stamp) == date_str(b[0].stamp));
        assert(forall|k: int| #![auto] 0 <= k < a.skip(1).len() ==> a.skip(1)[k].stamp
            == b.skip(1)[k].stamp && a.skip(1)[k].text@ == b.skip(1)[k].text@);
        lemma_blocks_equal(a.skip(1), b.skip(1), Some(date_str(a[0].stamp)));
    }
}

/// Law: the rendered body depends on the entries only through their
/// stamps and their texts — entry sequences equal in both render to the
/// same body.
pub proof fn lemma_entries_render_equal(a: Seq<Entry>, b: Seq<Entry>)
    requires
        a.len() == b.len(),
        forall|k: int| #![auto] 0 <= k < a.len() ==> a[k].stamp == b[k].stamp && a[k].text@
            == b[k].text@,
    ensures
        rendered(a) == rendered(b),
{
    lemma_blocks_equal(a, b, None::<Seq<char>>);
}

/// Whether a block is a date-header block.
pub open spec fn is_header(b: Seq<char>) -> bool {
    exists|d: Seq<char>| b == header_block(d)
}

/// How many of the blocks are date headers.
pub open spec fn count_headers(bs: Seq<Seq<char>>) -> int
    decreases bs.len(),
{
    if bs.len() == 0 {
        0
    } else {
        (if is_header(bs[0]) {
            1int
        } else {
            0int
        }) + count_headers(bs.skip(1))
    }
}

/// How many of the blocks are the separator block.
pub open spec fn count_separators(bs: Seq<Seq<char>>) -> int
    decreases bs.len(),
{
    if bs.len() == 0 {
        0
    } else {
        (if bs[0] == sep_block() {
            1int
        } else {
            0int
        }) + count_separators(bs.skip(1))
    }
}

/// How many times the formatted date changes, walking the entries in
/// order after the given previous date (`None` before the first).
pub open spec fn date_changes(entries: Seq<Entry>, prev: Option<Seq<char>>) -> int
    decreases entries.len(),
{
    if entries.len() == 0 {
        0
    } else {
        let d = date_str(entries[0].stamp);
        (if prev == Some(d) {
            0int
        } else {
            1int
        }) + date_changes(entries.skip(1), Some(d))
    }
}

/// The three block shapes are distinct: a header is never the separator
/// or an entry block, and the separator is never an entry block.
proof fn lemma_block_kinds(d: Seq<char>, e: Entry)
    ensures
        is_header(header_block(d)),
        !is_header(sep_block()),
        !is_header(entry_block(e)),
        sep_block() != header_block(d),
        sep_block() != entry_block(e),
{
    reveal_strlit("<p><strong>");
    reveal_strlit("</strong></p>");
    reveal_strlit("<hr>");
    reveal_strlit("<article><p class='post-time'>");
    reveal_strlit("</p><p>");
    reveal_strlit("</p></article>");
    assert(header_block(d)[1] == 'p');
    assert(entry_block(e)[1] == 'a');
    assert(sep_block()[1] == 'h');
    assert forall|d2: Seq<char>| sep_block() != #[trigger] header_block(d2) by {
        assert(header_block(d2)[1] == 'p');
    }
    assert forall|d2: Seq<char>| entry_block(e) != #[trigger] header_block(d2) by {
        assert(header_block(d2)[1] == 'p');
    }
}

/// Law: walking the entries in order, the emitted blocks hold exactly one
/// date header per change of formatted date, and one separator per change
/// after the first date seen — two calendar days in the display timezone
/// give two headers and one separator.
pub proof fn lemma_grouping(entries: Seq<Entry>, prev: Option<Seq<char>>)
    ensures
        count_headers(blocks_from(entries, prev)) == date_changes(entries, prev),
        count_separators(blocks_from(entries, prev)) == date_changes(entries, prev) - (
        if prev is None && entries.len() > 0 {
            1int
        } else {
            0int
        }),
    decreases entries.len(),
{
    if entries.len() > 0 {
        let e = entries[0];
        let d = date_str(e.stamp);
        let rest = blocks_from(entries.skip(1), Some(d));
        lemma_grouping(entries.skip(1), Some(d));
        lemma_block_kinds(d, e);
        if prev == Some(d) {
            let bs = seq![entry_block(e)] + rest;
            assert(blocks_from(entries, prev) == bs);
            assert(date_changes(entries, prev) == 0 + date_changes(entries.skip(1), Some(d)));
            assert(bs.skip(1) =~= rest);
            assert(bs[0] == entry_block(e));
            assert(count_headers(bs) == count_headers(rest));
            assert(count_separators(bs) == count_separators(rest));
        } else if prev is Some {
            let bs = seq![sep_block(), header_block(d), entry_block(e)] + rest;
            let bs1 = seq![header_block(d), entry_block(e)] + rest;
            let bs2 = seq![entry_block(e)] + rest;
            assert(blocks_from(entries, prev) == bs);
            assert(date_changes(entries, prev) == 1 + date_changes(entries.skip(1), Some(d)));
            assert(bs.skip(1) =~= bs1);
            assert(bs1.skip(1) =~= bs2);
            assert(bs2.skip(1) =~= rest);
            assert(bs[0] == sep_block() && bs1[0] == header_block(d) && bs2[0] == entry_block(e));
            assert(count_headers(bs2) == count_headers(rest));
            assert(count_separators(bs2) == count_separators(rest));
            assert(count_headers(bs1) == 1 + count_headers(bs2));
            assert(count_separators(bs1) == count_separators(bs2));
            assert(count_headers(bs) == count_headers(bs1));
            assert(count_separators(bs) == 1 + count_separators(bs1));
        } else {
            let bs = seq![header_block(d), entry_block(e)] + rest;
            let bs2 = seq![entry_block(e)] + rest;
            assert(blocks_from(entries, prev) == bs);
            assert(date_changes(entries, prev) == 1 + date_changes(entries.skip(1), Some(d)));
            assert(bs.skip(1) =~= bs2);
            assert(bs2.skip(1) =~= rest);
            assert(bs[0] == header_block(d) && bs2[0] == entry_block(e));
            assert(count_headers(bs2) == count_headers(rest));
            assert(count_separators(bs2) == count_separators(rest));
            assert(count_headers(bs) == 1 + count_headers(bs2));
            assert(count_separators(bs) == count_separators(bs2));
        }
    }
}

/// Law: where the template is a prefix, the placeholder token, and a
/// suffix, and the token does not begin anywhere inside the prefix, the
/// substituted document is exactly the prefix, the body, and the suffix —
/// every template byte outside the token is unchanged.
pub proof fn lemma_template_round_trip(prefix: Seq<char>, suffix: Seq<char>, body: Seq<char>)
    requires
        forall|j: int| 0 <= j < prefix.len() ==> #[trigger] (prefix + placeholder()
            + suffix).subrange(j, j + placeholder().len() as int) != placeholder(),
    ensures
        substituted(prefix + placeholder() + suffix, body) == prefix + body + suffix,
    decreases prefix.len(),
{
    let t = prefix + placeholder() + suffix;
    let pl = placeholder().len() as int;
    reveal_strlit("{{posts}}");
    if prefix.len() == 0 {
        assert(t.take(pl) =~= placeholder());
        assert(t.skip(pl) =~= suffix);
        assert(prefix + body + suffix =~= body + suffix);
    } else {
        assert((prefix + placeholder() + suffix).subrange(0, 0 + placeholder().len() as int)
            != placeholder());
        assert(t.take(pl) =~= t.subrange(0, pl));
        assert(t.len() >= pl);
        let p1 = prefix.skip(1);
        assert(t.skip(1) =~= p1 + placeholder() + suffix);
        assert forall|j: int| 0 <= j < p1.len() implies #[trigger] (p1 + placeholder()
            + suffix).subrange(j, j + placeholder().len() as int) != placeholder() by {
            assert((p1 + placeholder() + suffix).subrange(j, j + pl) =~= t.subrange(
                j + 1,
                j + 1 + pl,
            ));
        }
        lemma_template_round_trip(p1, suffix, body);
        assert(seq![t[0]] + (p1 + body + suffix) =~= prefix + body + suffix);
    }
}

} // verus!
