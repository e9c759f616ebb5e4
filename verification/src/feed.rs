//! Feed sources: the items of a syndication feed, and what TechMeme and the
//! Wall Street Journal make of them.

use crate::items::{all_titled, first};
use crate::error::{Error, Failure};
use crate::sources::{outcome, NewsInfo, NewsItem, NewsSource};
use rss::Channel;
use rss::Error as FeedError;
use vstd::prelude::*;

verus! {

/// An item of a feed as contracts see it.
pub struct FeedEntry {
    pub title: Option<Seq<char>>,
    pub description: Option<Seq<char>>,
}

/// An item of a feed, as far as the extraction reads it.
#[derive(Debug)]
pub struct FeedItem {
    pub title: Option<String>,
    pub description: Option<String>,
}

impl FeedEntry {
    /// A title that is there holds something: the reader takes an empty title
    /// for none.
    pub open spec fn well_formed(self) -> bool {
        self.title matches Some(title) ==> title.len() > 0
    }
}

/// Whether every item of `items` is well formed.
pub open spec fn well_formed(items: Seq<FeedEntry>) -> bool {
    forall|k: int| 0 <= k < items.len() ==> (#[trigger] items[k]).well_formed()
}

impl View for FeedItem {
    type V = FeedEntry;

    open spec fn view(&self) -> FeedEntry {
        FeedEntry {
            title: match self.title {
                Some(title) => Some(title@),
                None => None,
            },
            description: match self.description {
                Some(description) => Some(description@),
                None => None,
            },
        }
    }
}

impl DeepView for FeedItem {
    type V = FeedEntry;

    open spec fn deep_view(&self) -> FeedEntry {
        self@
    }
}

/// What the feed reader makes of `bytes`: the items in the order in which the
/// reader hands them out (those inside the channel element as the document has
/// them, then those that stand beside it), or `None` where it rejects the
/// document.
pub uninterp spec fn feed_items(bytes: Seq<u8>) -> Option<Seq<FeedEntry>>;

/// `rss::Channel::read_from` reads a channel from the bytes of a feed document
/// and `into_items` hands out its items. What comes back depends on the bytes
/// alone; [`feed_items`] names it. A document that the reader rejects gives
/// its error. The reader trims the text of a title and takes an empty one for
/// none, so a title that is there holds something.
///
/// The reader descends into nested extension elements without a bound on
/// their depth, so a document can exhaust the stack as it can exhaust memory;
/// of neither does the contract speak.
#[verifier::external_body]
fn read_feed(bytes: &[u8]) -> (res: Result<Vec<FeedItem>, FeedError>)
    ensures
        feed_items(bytes@) == match res {
            Ok(items) => Some(items.deep_view()),
            Err(_) => None,
        },
        res matches Ok(items) ==> well_formed(items.deep_view()),
{
    let channel = Channel::read_from(bytes)?;
    Ok(
        channel.into_items().into_iter().map(
            |item| FeedItem { title: item.title, description: item.description },
        ).collect(),
    )
}

/// The records of the items that have a title, in the order of the items:
/// each one holds the title and no description.
pub open spec fn titled(items: Seq<FeedEntry>) -> Seq<NewsItem>
    decreases items.len(),
{
    if items.len() == 0 {
        Seq::empty()
    } else {
        match items.last().title {
            Some(title) => titled(items.drop_last()).push(
                NewsItem { title, description: None },
            ),
            None => titled(items.drop_last()),
        }
    }
}

/// What TechMeme gives for a feed: the first `limit` of the records of its
/// titled items. An item without a title is passed over.
pub open spec fn tech_meme_news(items: Seq<FeedEntry>, limit: nat) -> Seq<NewsItem> {
    first(titled(items), limit)
}

/// Whether each of the first `limit` items has a title.
pub open spec fn has_titles(items: Seq<FeedEntry>, limit: nat) -> bool {
    forall|k: int| 0 <= k < first(items, limit).len() ==> (#[trigger] items[k]).title is Some
}

/// What the Wall Street Journal gives for a feed: the records of the first
/// `limit` items, each with the item's title and its description as it came.
pub open spec fn wsj_news(items: Seq<FeedEntry>, limit: nat) -> Seq<NewsItem> {
    Seq::new(
        first(items, limit).len(),
        |k: int| NewsItem { title: items[k].title->0, description: items[k].description },
    )
}

/// The records of the titled items among the first `n` items are the first
/// records of the titled items of the whole feed.
pub proof fn lemma_titled_prefix(items: Seq<FeedEntry>, n: int)
    requires
        0 <= n <= items.len(),
    ensures
        titled(items.take(n)).len() <= titled(items).len(),
        titled(items.take(n)) == titled(items).take(titled(items.take(n)).len() as int),
    decreases items.len() - n,
{
    if n == items.len() {
        assert(items.take(n) =~= items);
        assert(titled(items).take(titled(items).len() as int) =~= titled(items));
    } else {
        lemma_titled_prefix(items.drop_last(), n);
        assert(items.drop_last().take(n) =~= items.take(n));
        let part = titled(items.take(n));
        assert(part =~= titled(items).take(part.len() as int));
    }
}

/// Every record that TechMeme gives has the title of an item of the feed and no
/// description. A feed without items, or without an item that has a title,
/// gives no records.
pub proof fn lemma_tech_meme_passes_over_untitled(items: Seq<FeedEntry>, limit: nat)
    ensures
        forall|k: int|
            0 <= k < tech_meme_news(items, limit).len() ==> {
                let record = #[trigger] tech_meme_news(items, limit)[k];
                &&& record.description is None
                &&& exists|j: int|
                    0 <= j < items.len() && (#[trigger] items[j]).title == Some(record.title)
            },
        tech_meme_news(items, limit).len() <= titled(items).len() <= items.len(),
        items.len() == 0 ==> tech_meme_news(items, limit) == Seq::<NewsItem>::empty(),
        (forall|j: int| 0 <= j < items.len() ==> (#[trigger] items[j]).title is None)
            ==> tech_meme_news(items, limit) == Seq::<NewsItem>::empty(),
{
    lemma_titled_come_from_items(items);
}

/// Every record of the titled items has the title of an item and no
/// description; there are no more of them than items, and none where no item
/// has a title.
pub proof fn lemma_titled_come_from_items(items: Seq<FeedEntry>)
    ensures
        titled(items).len() <= items.len(),
        forall|k: int|
            0 <= k < titled(items).len() ==> {
                let record = #[trigger] titled(items)[k];
                &&& record.description is None
                &&& exists|j: int|
                    0 <= j < items.len() && (#[trigger] items[j]).title == Some(record.title)
            },
        (forall|j: int| 0 <= j < items.len() ==> (#[trigger] items[j]).title is None) ==> titled(
            items,
        ).len() == 0,
    decreases items.len(),
{
    if items.len() > 0 {
        let init = items.drop_last();
        lemma_titled_come_from_items(init);
        assert forall|k: int| 0 <= k < titled(items).len() implies {
            let record = #[trigger] titled(items)[k];
            &&& record.description is None
            &&& exists|j: int|
                0 <= j < items.len() && (#[trigger] items[j]).title == Some(record.title)
        } by {
            let record = titled(items)[k];
            if k < titled(init).len() {
                assert(record == titled(init)[k]);
                let j = choose|j: int|
                    0 <= j < init.len() && (#[trigger] init[j]).title == Some(record.title);
                assert(items[j] == init[j]);
            } else {
                assert(items[items.len() - 1].title == Some(record.title));
            }
        }
        if forall|j: int| 0 <= j < items.len() ==> (#[trigger] items[j]).title is None {
            assert forall|j: int| 0 <= j < init.len() implies (#[trigger] init[j]).title is None by {
                assert(items[j] == init[j]);
            }
            assert(items[items.len() - 1].title is None);
        }
    }
}

/// Where the titles of the items hold something, so do those of the records
/// that either feed source gives.
pub proof fn lemma_feed_news_is_titled(items: Seq<FeedEntry>, limit: nat)
    requires
        well_formed(items),
    ensures
        all_titled(tech_meme_news(items, limit)),
        has_titles(items, limit) ==> all_titled(wsj_news(items, limit)),
{
    lemma_titled_come_from_items(items);
    assert forall|k: int| 0 <= k < tech_meme_news(items, limit).len() implies (
    #[trigger] tech_meme_news(items, limit)[k]).title.len() > 0 by {
        let record = titled(items)[k];
        let j = choose|j: int|
            0 <= j < items.len() && (#[trigger] items[j]).title == Some(record.title);
        assert(items[j].well_formed());
    }
    if has_titles(items, limit) {
        assert forall|k: int| 0 <= k < wsj_news(items, limit).len() implies (#[trigger] wsj_news(
            items,
            limit,
        )[k]).title.len() > 0 by {
            assert(items[k].well_formed());
        }
    }
}

/// The records that TechMeme gives for the items of its feed.
pub fn tech_meme(items: &Vec<FeedItem>, limit: usize) -> (news: Vec<NewsInfo>)
    ensures
        news.deep_view() == tech_meme_news(items.deep_view(), limit as nat),
        news.len() <= limit,
{
    let ghost all = items.deep_view();
    let mut news: Vec<NewsInfo> = Vec::new();
    let mut i: usize = 0;
    while i < items.len() && news.len() < limit
        invariant
            i <= items.len(),
            all == items.deep_view(),
            news.len() <= limit,
            news.deep_view() == titled(all.take(i as int)),
        decreases items.len() - i,
    {
        proof {
            assert(all.take(i + 1).drop_last() =~= all.take(i as int));
            assert(all.take(i + 1).last() == items[i as int]@);
        }
        match &items[i].title {
            Some(title) => {
                let ghost before = news.deep_view();
                let record = NewsInfo { title: title.clone(), description: None };
                news.push(record);
                assert(news.deep_view() =~= before.push(record@));
            },
            None => {},
        }
        i += 1;
    }
    proof {
        lemma_titled_prefix(all, i as int);
        if i == items.len() {
            assert(all.take(i as int) =~= all);
        }
    }
    news
}

/// Whether each of the first `limit` items has a title.
pub fn titles_present(items: &Vec<FeedItem>, limit: usize) -> (present: bool)
    ensures
        present == has_titles(items.deep_view(), limit as nat),
{
    let ghost all = items.deep_view();
    let mut i: usize = 0;
    while i < items.len() && i < limit
        invariant
            i <= items.len(),
            i <= limit,
            all == items.deep_view(),
            forall|k: int| 0 <= k < i ==> (#[trigger] all[k]).title is Some,
        decreases items.len() - i,
    {
        if items[i].title.is_none() {
            assert(all[i as int].title is None);
            return false;
        }
        i += 1;
    }
    true
}

/// The records that the Wall Street Journal gives for the items of its feed.
/// Each item that is read must have a title.
pub fn wsj(items: &Vec<FeedItem>, limit: usize) -> (news: Vec<NewsInfo>)
    requires
        has_titles(items.deep_view(), limit as nat),
    ensures
        news.deep_view() == wsj_news(items.deep_view(), limit as nat),
        news.len() <= limit,
{
    let ghost all = items.deep_view();
    let mut news: Vec<NewsInfo> = Vec::new();
    let mut i: usize = 0;
    while i < items.len() && i < limit
        invariant
            i <= items.len(),
            i <= limit,
            all == items.deep_view(),
            has_titles(all, limit as nat),
            news.len() == i,
            forall|k: int| 0 <= k < i ==> (#[trigger] news[k])@ == wsj_news(all, limit as nat)[k],
        decreases items.len() - i,
    {
        assert(all[i as int].title is Some);
        let title = items[i].title.as_ref().unwrap().clone();
        let description = match &items[i].description {
            Some(description) => Some(description.clone()),
            None => None,
        };
        news.push(NewsInfo { title, description });
        i += 1;
    }
    assert(news.deep_view() =~= wsj_news(all, limit as nat));
    news
}

/// What a feed source gives for the bytes of its feed: the records of its
/// strategy for the items that the reader finds, or the failure of a document
/// that the reader rejects. `None` for a page source, and for the Wall Street
/// Journal where an item that it reads has no title.
pub open spec fn feed_news(source: NewsSource, bytes: Seq<u8>, limit: nat) -> Option<
    Result<Seq<NewsItem>, Failure>,
> {
    match source {
        NewsSource::TechMeme => match feed_items(bytes) {
            Some(items) => Some(Ok(tech_meme_news(items, limit))),
            None => Some(Err(Failure::FeedParse)),
        },
        NewsSource::WSJ => match feed_items(bytes) {
            Some(items) => if has_titles(items, limit) {
                Some(Ok(wsj_news(items, limit)))
            } else {
                None
            },
            None => Some(Err(Failure::FeedParse)),
        },
        NewsSource::HackerNews | NewsSource::ProductHunt | NewsSource::GithubTrending => None,
    }
}

/// Reads the records of a feed source from the bytes of its feed.
pub fn scrap_feed(source: NewsSource, bytes: &[u8], limit: usize) -> (res: Option<
    Result<Vec<NewsInfo>, Error>,
>)
    ensures
        outcome(res) == feed_news(source, bytes@, limit as nat),
        res matches Some(Ok(news)) ==> news.len() <= limit && all_titled(news.deep_view()),
{
    match source {
        NewsSource::TechMeme => match read_feed(bytes) {
            Ok(items) => {
                proof {
                    lemma_feed_news_is_titled(items.deep_view(), limit as nat);
                }
                Some(Ok(tech_meme(&items, limit)))
            },
            Err(e) => Some(Err(Error::RssError(e))),
        },
        NewsSource::WSJ => match read_feed(bytes) {
            Ok(items) => if titles_present(&items, limit) {
                proof {
                    lemma_feed_news_is_titled(items.deep_view(), limit as nat);
                }
                Some(Ok(wsj(&items, limit)))
            } else {
                None
            },
            Err(e) => Some(Err(Error::RssError(e))),
        },
        NewsSource::HackerNews | NewsSource::ProductHunt | NewsSource::GithubTrending => None,
    }
}

} // verus!
