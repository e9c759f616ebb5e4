//! What every source does to the records that it found: collapsing repeats
//! and keeping the first few.

use crate::sources::{NewsInfo, NewsItem};
use vstd::prelude::*;

verus! {

/// The first `limit` elements of `s`, or all of `s` where it has no more.
pub open spec fn first<T>(s: Seq<T>, limit: nat) -> Seq<T> {
    if limit < s.len() {
        s.take(limit as int)
    } else {
        s
    }
}

/// `s` without the elements that repeat the one just before them: of every
/// run of equal elements the first one stays. Equal elements that stand apart
/// are left alone.
pub open spec fn dedup<T>(s: Seq<T>) -> Seq<T>
    decreases s.len(),
{
    if s.len() <= 1 {
        s
    } else if s[s.len() - 2] == s.last() {
        dedup(s.drop_last())
    } else {
        dedup(s.drop_last()).push(s.last())
    }
}

/// The records of `records` whose title holds something, in their order.
pub open spec fn with_title(records: Seq<NewsItem>) -> Seq<NewsItem> {
    records.filter(|record: NewsItem| record.title.len() > 0)
}

/// The records of `records` whose title and description both hold something,
/// in their order.
pub open spec fn filled(records: Seq<NewsItem>) -> Seq<NewsItem> {
    records.filter(|record: NewsItem| record.is_filled())
}

/// Whether every record of `records` has a title that holds something.
pub open spec fn all_titled(records: Seq<NewsItem>) -> bool {
    forall|k: int| 0 <= k < records.len() ==> (#[trigger] records[k]).title.len() > 0
}

/// Whether no element of `s` equals the one just before it.
pub open spec fn no_adjacent_repeat<T>(s: Seq<T>) -> bool {
    forall|k: int| 0 < k < s.len() ==> s[k - 1] != #[trigger] s[k]
}

/// What collapsing leaves is no longer than what went in, ends with the same
/// element, and is empty only if that was.
pub proof fn lemma_dedup_shape<T>(s: Seq<T>)
    ensures
        dedup(s).len() <= s.len(),
        s.len() > 0 ==> dedup(s).len() > 0 && dedup(s).last() == s.last() && dedup(s).first()
            == s.first(),
    decreases s.len(),
{
    if s.len() > 1 {
        lemma_dedup_shape(s.drop_last());
    }
}

/// Two equal records that stand side by side collapse to one.
pub proof fn lemma_dedup_collapses_neighbours<T>(s: Seq<T>, a: T)
    ensures
        dedup(s.push(a).push(a)) == dedup(s.push(a)),
        dedup(seq![a, a]) == seq![a],
{
    let twice = s.push(a).push(a);
    assert(twice.drop_last() =~= s.push(a));
    assert(twice[twice.len() - 2] == a);
    assert(seq![a, a].drop_last() =~= seq![a]);
    assert(dedup(seq![a]) == seq![a]);
}

/// Two equal records with a different one between them both stay.
pub proof fn lemma_dedup_keeps_separated<T>(a: T, b: T)
    requires
        a != b,
    ensures
        dedup(seq![a, b, a]) == seq![a, b, a],
{
    lemma_dedup_keeps_distinct_neighbours(seq![a, b, a]);
}

/// A sequence in which no element repeats the one before it is left as it is.
pub proof fn lemma_dedup_keeps_distinct_neighbours<T>(s: Seq<T>)
    requires
        no_adjacent_repeat(s),
    ensures
        dedup(s) == s,
    decreases s.len(),
{
    if s.len() > 1 {
        let init = s.drop_last();
        assert forall|k: int| 0 < k < init.len() implies init[k - 1] != #[trigger] init[k] by {
            assert(s[k - 1] != s[k]);
        }
        lemma_dedup_keeps_distinct_neighbours(init);
        assert(s[s.len() - 2] != s[s.len() - 1]);
        assert(init.push(s.last()) =~= s);
    }
}

/// After collapsing, no element repeats the one before it, and collapsing
/// again changes nothing.
pub proof fn lemma_dedup_leaves_no_repeat<T>(s: Seq<T>)
    ensures
        no_adjacent_repeat(dedup(s)),
        dedup(dedup(s)) == dedup(s),
    decreases s.len(),
{
    if s.len() > 1 {
        let init = s.drop_last();
        lemma_dedup_leaves_no_repeat(init);
        lemma_dedup_shape(init);
        if s[s.len() - 2] != s.last() {
            let out = dedup(init).push(s.last());
            assert forall|k: int| 0 < k < out.len() implies out[k - 1] != #[trigger] out[k] by {
                if k < out.len() - 1 {
                    assert(dedup(init)[k - 1] != dedup(init)[k]);
                }
            }
        }
    }
    lemma_dedup_keeps_distinct_neighbours(dedup(s));
}

/// Every element that collapsing leaves is an element of what went in.
pub proof fn lemma_dedup_keeps_elements<T>(s: Seq<T>)
    ensures
        forall|k: int| 0 <= k < dedup(s).len() ==> s.contains(#[trigger] dedup(s)[k]),
    decreases s.len(),
{
    if s.len() <= 1 {
        assert forall|k: int| 0 <= k < dedup(s).len() implies s.contains(#[trigger] dedup(s)[k]) by {
            assert(s[k] == dedup(s)[k]);
        }
    } else {
        let init = s.drop_last();
        lemma_dedup_keeps_elements(init);
        assert forall|k: int| 0 <= k < dedup(s).len() implies s.contains(#[trigger] dedup(s)[k]) by {
            if k < dedup(init).len() {
                assert(init.contains(dedup(init)[k]));
                let j = choose|j: int| 0 <= j < init.len() && init[j] == dedup(init)[k];
                assert(s[j] == dedup(s)[k]);
            } else {
                assert(s[s.len() - 1] == dedup(s)[k]);
            }
        }
    }
}

/// Of no records none is kept.
pub proof fn lemma_nothing_to_keep()
    ensures
        with_title(Seq::empty()) == Seq::<NewsItem>::empty(),
        filled(Seq::empty()) == Seq::<NewsItem>::empty(),
{
    reveal(Seq::filter);
}

/// One more record at the end is kept if its title holds something, and
/// changes nothing of what was kept before it.
pub proof fn lemma_with_title_push(records: Seq<NewsItem>, record: NewsItem)
    ensures
        with_title(records.push(record)) == if record.title.len() > 0 {
            with_title(records).push(record)
        } else {
            with_title(records)
        },
{
    reveal(Seq::filter);
    assert(records.push(record).drop_last() =~= records);
}

/// One more record at the end is kept if it is filled in, and changes nothing
/// of what was kept before it.
pub proof fn lemma_filled_push(records: Seq<NewsItem>, record: NewsItem)
    ensures
        filled(records.push(record)) == if record.is_filled() {
            filled(records).push(record)
        } else {
            filled(records)
        },
{
    reveal(Seq::filter);
    assert(records.push(record).drop_last() =~= records);
}

/// Every record that is kept for its title has one, and every record that is
/// kept as filled in is filled in; so it is after collapsing repeats and
/// keeping the first few.
pub proof fn lemma_kept_records_are_titled(records: Seq<NewsItem>, limit: nat)
    ensures
        all_titled(with_title(records)),
        all_titled(filled(records)),
        all_titled(first(dedup(filled(records)), limit)),
        forall|k: int|
            0 <= k < first(dedup(filled(records)), limit).len() ==> (#[trigger] first(
                dedup(filled(records)),
                limit,
            )[k]).is_filled(),
{
    let has_title = |record: NewsItem| record.title.len() > 0;
    let is_filled = |record: NewsItem| record.is_filled();
    assert forall|k: int| 0 <= k < with_title(records).len() implies (#[trigger] with_title(
        records,
    )[k]).title.len() > 0 by {
        records.lemma_filter_pred(has_title, k);
    }
    assert forall|k: int| 0 <= k < filled(records).len() implies (#[trigger] filled(
        records,
    )[k]).is_filled() by {
        records.lemma_filter_pred(is_filled, k);
    }
    lemma_dedup_keeps_elements(filled(records));
    let kept = first(dedup(filled(records)), limit);
    assert forall|k: int| 0 <= k < kept.len() implies (#[trigger] kept[k]).is_filled() by {
        assert(kept[k] == dedup(filled(records))[k]);
        assert(filled(records).contains(dedup(filled(records))[k]));
    }
}

/// Collapses the records that repeat the one just before them.
pub fn dedup_adjacent(news: Vec<NewsInfo>) -> (kept: Vec<NewsInfo>)
    ensures
        kept.deep_view() == dedup(news.deep_view()),
{
    let ghost all = news.deep_view();
    let mut kept: Vec<NewsInfo> = Vec::new();
    for item in it: news
        invariant
            it.seq() == news@,
            all == news.deep_view(),
            kept.deep_view() == dedup(all.take(it.index())),
            it.index() > 0 ==> kept.len() > 0 && kept[kept.len() - 1]@ == all[it.index() - 1],
    {
        let ghost i = it.index();
        let repeats = kept.len() > 0 && kept[kept.len() - 1] == item;
        proof {
            assert(all.take(i + 1).drop_last() =~= all.take(i));
            assert(all.take(i + 1).last() == item@);
            if i > 0 {
                assert(all.take(i + 1)[i - 1] == all[i - 1]);
            }
        }
        if !repeats {
            let ghost before = kept.deep_view();
            kept.push(item);
            assert(kept.deep_view() =~= before.push(item@));
        }
    }
    proof {
        assert(all.take(news@.len() as int) =~= all);
    }
    kept
}

/// Keeps the first `limit` records.
pub fn keep_first(news: Vec<NewsInfo>, limit: usize) -> (kept: Vec<NewsInfo>)
    ensures
        kept.deep_view() == first(news.deep_view(), limit as nat),
        kept.len() <= limit,
{
    let mut kept = news;
    let ghost all = kept.deep_view();
    kept.truncate(limit);
    assert(kept.deep_view() =~= first(all, limit as nat));
    kept
}

} // verus!
