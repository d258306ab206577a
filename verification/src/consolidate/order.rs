//! Putting posts in the order of their dates, those of one date in the order
//! they had.

use vstd::prelude::*;
use crate::consolidate::{dated_views, ids_distinct, DatedPost, DatedView};

verus! {

/// The test for being dated at a timestamp.
pub open spec fn on_date(date: int) -> spec_fn(DatedView) -> bool {
    |d: DatedView| d.date == date
}

/// Whether the posts stand in the order of their dates.
pub open spec fn sorted_by_date(posts: Seq<DatedView>) -> bool {
    forall|i: int, j: int|
        0 <= i < j < posts.len() ==> (#[trigger] posts[i]).date <= (#[trigger] posts[j]).date
}

/// Whether `out` holds the posts of `input` in the order of their dates, those
/// of one date in the order they have in `input`.
pub open spec fn is_sorted_form(out: Seq<DatedView>, input: Seq<DatedView>) -> bool {
    &&& out.len() == input.len()
    &&& sorted_by_date(out)
    &&& forall|date: int| #[trigger] out.filter(on_date(date)) == input.filter(on_date(date))
}

/// Where no post is dated at a timestamp, none is found there.
pub proof fn lemma_none_on_date(posts: Seq<DatedView>, date: int)
    requires
        forall|i: int| 0 <= i < posts.len() ==> (#[trigger] posts[i]).date != date,
    ensures
        posts.filter(on_date(date)) == Seq::<DatedView>::empty(),
    decreases posts.len(),
{
    reveal(Seq::filter);
    if posts.len() > 0 {
        lemma_none_on_date(posts.drop_last(), date);
    }
}

/// What a post put between two parts of a list does to the posts of one
/// date.
pub proof fn lemma_insert_on_date(posts: Seq<DatedView>, p: int, d: DatedView, date: int)
    requires
        0 <= p <= posts.len(),
    ensures
        posts.insert(p, d).filter(on_date(date)) == posts.take(p).filter(on_date(date)) + (if d.date
            == date {
            seq![d]
        } else {
            Seq::empty()
        }) + posts.skip(p).filter(on_date(date)),
        posts.filter(on_date(date)) == posts.take(p).filter(on_date(date)) + posts.skip(p).filter(
            on_date(date),
        ),
{
    let pred = on_date(date);
    let one = seq![d];
    assert(one.filter(pred) == if d.date == date {
        one
    } else {
        Seq::empty()
    }) by {
        reveal(Seq::filter);
        assert(one.drop_last() =~= Seq::<DatedView>::empty());
        assert(one.drop_last().filter(pred) =~= Seq::<DatedView>::empty());
        assert(one.last() == d);
        assert(Seq::<DatedView>::empty().push(d) =~= one);
    }
    assert(posts.insert(p, d) =~= posts.take(p) + one + posts.skip(p));
    assert(posts =~= posts.take(p) + posts.skip(p));
    Seq::filter_distributes_over_add(posts.take(p), one, pred);
    Seq::filter_distributes_over_add(posts.take(p) + one, posts.skip(p), pred);
    Seq::filter_distributes_over_add(posts.take(p), posts.skip(p), pred);
}

/// The place at which a post enters a list in the order of dates so that it
/// comes before all posts of its own date: the first place whose post is not
/// dated earlier.
fn entry_place(out: &Vec<DatedPost>, date: i64) -> (p: usize)
    requires
        sorted_by_date(dated_views(out@)),
    ensures
        p <= out.len(),
        forall|i: int| 0 <= i < p ==> (#[trigger] out@[i]).date < date,
        forall|i: int| p <= i < out.len() ==> (#[trigger] out@[i]).date >= date,
{
    let mut p: usize = 0;
    while p < out.len() && out[p].date < date
        invariant
            p <= out.len(),
            forall|i: int| 0 <= i < p ==> (#[trigger] out@[i]).date < date,
        decreases out.len() - p,
    {
        p += 1;
    }
    proof {
        let views = dated_views(out@);
        assert forall|i: int| p <= i < out.len() implies (#[trigger] out@[i]).date >= date by {
            assert(views[p as int].date <= views[i].date);
        }
    }
    p
}

/// Puts the posts in the order of their dates; posts of one date keep the
/// order they had.
pub fn sort_by_date(posts: Vec<DatedPost>) -> (r: Vec<DatedPost>)
    ensures
        is_sorted_form(dated_views(r@), dated_views(posts@)),
{
    let ghost input = dated_views(posts@);
    let mut rest = posts;
    let mut out: Vec<DatedPost> = Vec::new();
    proof {
        assert(input.skip(input.len() as int) =~= Seq::<DatedView>::empty());
        assert(dated_views(out@) =~= Seq::<DatedView>::empty());
        assert(input.take(input.len() as int) =~= input);
    }
    while rest.len() > 0
        invariant
            rest.len() <= input.len(),
            dated_views(rest@) == input.take(rest.len() as int),
            is_sorted_form(dated_views(out@), input.skip(rest.len() as int)),
        decreases rest.len(),
    {
        let ghost n = rest.len() as int;
        let ghost before = dated_views(out@);
        let ghost rest_before = dated_views(rest@);
        let d = rest.pop().unwrap();
        let ghost dv = d@;
        let p = entry_place(&out, d.date);
        out.insert(p, d);
        proof {
            let after = dated_views(out@);
            assert(dv == rest_before[n - 1]);
            assert(dv == input[n - 1]);
            assert(dated_views(rest@) =~= input.take(n - 1));
            assert(after =~= before.insert(p as int, dv));
            let tail = input.skip(n);
            let next = input.skip(n - 1);
            assert(next =~= tail.insert(0, dv));
            assert forall|date: int| #[trigger]
                after.filter(on_date(date)) == next.filter(on_date(date)) by {
                lemma_insert_on_date(before, p as int, dv, date);
                lemma_insert_on_date(tail, 0, dv, date);
                assert(tail.take(0) =~= Seq::<DatedView>::empty());
                assert(tail.skip(0) =~= tail);
                lemma_none_on_date(tail.take(0), date);
                assert(before.filter(on_date(date)) == tail.filter(on_date(date)));
                if dv.date == date {
                    lemma_none_on_date(before.take(p as int), date);
                }
                assert(after.filter(on_date(date)) =~= next.filter(on_date(date)));
            }
            assert(sorted_by_date(after)) by {
                assert forall|i: int, j: int| 0 <= i < j < after.len() implies (
                #[trigger] after[i]).date <= (#[trigger] after[j]).date by {
                    let a = if i < p { i } else { i - 1 };
                    let b = if j < p { j } else { j - 1 };
                    if i != p && j != p {
                        assert(before[a].date <= before[b].date);
                    }
                }
            }
        }
    }
    assert(input.skip(0) =~= input);
    out
}

/// The last post of a list is the last of the posts of its date.
proof fn lemma_last_on_date(posts: Seq<DatedView>)
    requires
        posts.len() > 0,
    ensures
        posts.filter(on_date(posts.last().date)) == posts.drop_last().filter(
            on_date(posts.last().date),
        ).push(posts.last()),
        forall|date: int|
            date != posts.last().date ==> #[trigger] posts.filter(on_date(date))
                == posts.drop_last().filter(on_date(date)),
{
    reveal(Seq::filter);
}

/// In a list in the order of dates, a date that a post has is no later than
/// the date of the last post.
proof fn lemma_dates_end_at_last(posts: Seq<DatedView>, date: int)
    requires
        sorted_by_date(posts),
        posts.filter(on_date(date)).len() > 0,
    ensures
        posts.len() > 0,
        date <= posts.last().date,
{
    let pred = on_date(date);
    let found = posts.filter(pred);
    posts.lemma_filter_pred(pred, 0);
    assert(pred(found[0]));
    assert(found.contains(found[0]));
    posts.lemma_filter_contains_rev(pred, found[0]);
    let i = choose|i: int| 0 <= i < posts.len() && posts[i] == found[0];
    if i < posts.len() - 1 {
        assert(posts[i].date <= posts[posts.len() - 1].date);
    }
}

/// Two lists in the order of dates that hold, for every date, the same posts
/// in the same order are the same list.
pub proof fn lemma_same_order_unique(a: Seq<DatedView>, b: Seq<DatedView>)
    requires
        a.len() == b.len(),
        sorted_by_date(a),
        sorted_by_date(b),
        forall|date: int| #[trigger] a.filter(on_date(date)) == b.filter(on_date(date)),
    ensures
        a == b,
    decreases a.len(),
{
    if a.len() == 0 {
        assert(a =~= b);
    } else {
        let x = a.last();
        let y = b.last();
        lemma_last_on_date(a);
        lemma_last_on_date(b);
        assert(a.filter(on_date(y.date)) == b.filter(on_date(y.date)));
        assert(a.filter(on_date(x.date)) == b.filter(on_date(x.date)));
        lemma_dates_end_at_last(a, y.date);
        lemma_dates_end_at_last(b, x.date);
        assert(x.date == y.date);
        let fa = a.drop_last().filter(on_date(x.date));
        let fb = b.drop_last().filter(on_date(x.date));
        assert(fa.push(x) == fb.push(y));
        assert(fa.push(x).last() == x);
        assert(fb.push(y).last() == y);
        assert(x == y);
        assert(fa =~= fa.push(x).drop_last());
        assert(fb =~= fb.push(y).drop_last());
        assert forall|date: int| #[trigger]
            a.drop_last().filter(on_date(date)) == b.drop_last().filter(on_date(date)) by {
            assert(a.filter(on_date(date)) == b.filter(on_date(date)));
        }
        lemma_same_order_unique(a.drop_last(), b.drop_last());
        assert(a =~= a.drop_last().push(x));
        assert(b =~= b.drop_last().push(y));
    }
}

/// Every post of a sorted form is a post of what was sorted.
pub proof fn lemma_sorted_form_members(out: Seq<DatedView>, input: Seq<DatedView>, i: int)
    requires
        is_sorted_form(out, input),
        0 <= i < out.len(),
    ensures
        input.contains(out[i]),
{
    let pred = on_date(out[i].date);
    assert(pred(out[i]));
    out.lemma_filter_contains(pred, i);
    assert(out.filter(pred) == input.filter(pred));
    input.lemma_filter_contains_rev(pred, out[i]);
}

/// Two posts found on a date stand in the list they were found in, in the
/// same order.
proof fn lemma_found_stand_in_list(posts: Seq<DatedView>, date: int, k1: int, k2: int) -> (at: (
    int,
    int,
))
    requires
        0 <= k1 < k2 < posts.filter(on_date(date)).len(),
    ensures
        0 <= at.0 < at.1 < posts.len(),
        posts[at.0] == posts.filter(on_date(date))[k1],
        posts[at.1] == posts.filter(on_date(date))[k2],
    decreases posts.len(),
{
    reveal(Seq::filter);
    let found = posts.filter(on_date(date));
    let rest = posts.drop_last();
    if on_date(date)(posts.last()) && k2 == found.len() - 1 {
        let i = lemma_found_stands_in_list(rest, date, k1);
        (i, posts.len() - 1)
    } else {
        lemma_found_stand_in_list(rest, date, k1, k2)
    }
}

/// A post found on a date stands in the list it was found in.
proof fn lemma_found_stands_in_list(posts: Seq<DatedView>, date: int, k: int) -> (at: int)
    requires
        0 <= k < posts.filter(on_date(date)).len(),
    ensures
        0 <= at < posts.len(),
        posts[at] == posts.filter(on_date(date))[k],
    decreases posts.len(),
{
    reveal(Seq::filter);
    let found = posts.filter(on_date(date));
    if on_date(date)(posts.last()) && k == found.len() - 1 {
        posts.len() - 1
    } else {
        lemma_found_stands_in_list(posts.drop_last(), date, k)
    }
}

/// A post of a list is found on its date.
proof fn lemma_stands_among_found(posts: Seq<DatedView>, i: int) -> (k: int)
    requires
        0 <= i < posts.len(),
    ensures
        0 <= k < posts.filter(on_date(posts[i].date)).len(),
        posts.filter(on_date(posts[i].date))[k] == posts[i],
    decreases posts.len(),
{
    reveal(Seq::filter);
    let date = posts[i].date;
    let rest = posts.drop_last();
    if i == posts.len() - 1 {
        rest.filter(on_date(date)).len() as int
    } else {
        lemma_stands_among_found(rest, i)
    }
}

/// Two posts of one date in a list are found on that date in the same order.
proof fn lemma_stand_among_found(posts: Seq<DatedView>, i: int, j: int) -> (at: (int, int))
    requires
        0 <= i < j < posts.len(),
        posts[i].date == posts[j].date,
    ensures
        0 <= at.0 < at.1 < posts.filter(on_date(posts[i].date)).len(),
        posts.filter(on_date(posts[i].date))[at.0] == posts[i],
        posts.filter(on_date(posts[i].date))[at.1] == posts[j],
    decreases posts.len(),
{
    reveal(Seq::filter);
    let date = posts[i].date;
    let rest = posts.drop_last();
    if j == posts.len() - 1 {
        let k = lemma_stands_among_found(rest, i);
        (k, rest.filter(on_date(date)).len() as int)
    } else {
        lemma_stand_among_found(rest, i, j)
    }
}

/// Putting posts in the order of their dates keeps their identifiers
/// distinct.
pub proof fn lemma_sorted_form_keeps_ids_distinct(out: Seq<DatedView>, input: Seq<DatedView>)
    requires
        is_sorted_form(out, input),
        ids_distinct(input),
    ensures
        ids_distinct(out),
{
    assert forall|i: int, j: int| 0 <= i < j < out.len() implies (#[trigger] out[i]).post.id != (
    #[trigger] out[j]).post.id by {
        if out[i].post.id == out[j].post.id {
            lemma_sorted_form_members(out, input, i);
            lemma_sorted_form_members(out, input, j);
            let a = choose|a: int| 0 <= a < input.len() && input[a] == out[i];
            let b = choose|b: int| 0 <= b < input.len() && input[b] == out[j];
            if a < b {
                assert(input[a].post.id != input[b].post.id);
            } else if b < a {
                assert(input[b].post.id != input[a].post.id);
            }
            assert(out[i] == out[j]);
            let date = out[i].date;
            let found = lemma_stand_among_found(out, i, j);
            assert(out.filter(on_date(date)) == input.filter(on_date(date)));
            let at = lemma_found_stand_in_list(input, date, found.0, found.1);
            assert(input[at.0].post.id != input[at.1].post.id);
        }
    }
}

} // verus!
