//! Page sources: the elements that a query finds in a page of HTML, and what
//! Hacker News, Product Hunt and GitHub Trending make of them.

use crate::items::{
    all_titled, dedup, dedup_adjacent, filled, first, keep_first, lemma_filled_push,
    lemma_kept_records_are_titled, lemma_nothing_to_keep, lemma_with_title_push, with_title,
};
use crate::sources::{NewsInfo, NewsItem, NewsSource};
use crate::text::{joined, joined_text};
use scraper::{Html, Selector};
use vstd::prelude::*;
use vstd::string::StringSliceAdditionalSpecFns;
use vstd::utf8::encode_utf8;

verus! {

/// The selector of the links that hold one story of Hacker News each.
pub const HACKER_NEWS_ITEM: &'static str = "a[class=\"storylink\"]";

/// The selector of the cards that hold one product of Product Hunt each.
pub const PRODUCT_HUNT_ITEM: &'static str =
    "div[class^=\"styles_container\"]:nth-child(2) div[class^=\"styles_content\"]";

/// The selector of a product's name, inside its card.
pub const PRODUCT_HUNT_TITLE: &'static str = "h3 a[data-test]";

/// The selector of a product's tagline, inside its card.
pub const PRODUCT_HUNT_DESCRIPTION: &'static str = "p a";

/// The selector of the rows that hold one repository of GitHub Trending each.
pub const GITHUB_TRENDING_ITEM: &'static str = "article[class=\"Box-row\"]";

/// The selector of a repository's name, inside its row.
pub const GITHUB_TRENDING_TITLE: &'static str = "h1";

/// The selector of a repository's description, inside its row.
pub const GITHUB_TRENDING_DESCRIPTION: &'static str = "p";

/// The longest page that a query reads, in bytes of its text as UTF-8.
///
/// The parser keeps what it reads in buffers of the `tendril` crate, which
/// panic where one of them would pass 2^31 bytes, and it writes up to three
/// bytes for one byte that it reads. A page that is no longer than this stays
/// clear of that with room to spare.
pub const PAGE_LIMIT: usize = 0x2000_0000;

/// An element as contracts see it.
pub struct ElementView {
    pub text: Seq<Seq<char>>,
    pub fields: Seq<Seq<Seq<Seq<char>>>>,
}

impl ElementView {
    /// The text of field `k`: that of the first descendant that the field's
    /// selector matches, and nothing where it matches none.
    pub open spec fn field(self, k: int) -> Seq<char> {
        if 0 <= k < self.fields.len() && self.fields[k].len() > 0 {
            joined(self.fields[k][0])
        } else {
            Seq::empty()
        }
    }
}

/// An element that a page query matched, as the text that it holds.
#[derive(Debug)]
pub struct Element {
    /// The text nodes below the element, in the order in which a walk of the
    /// tree below it meets them.
    pub text: Vec<String>,
    /// For each field selector of the query, the descendants of the element
    /// that it matches, each as the text nodes below it.
    pub fields: Vec<Vec<Vec<String>>>,
}

impl View for Element {
    type V = ElementView;

    open spec fn view(&self) -> ElementView {
        ElementView { text: self.text.deep_view(), fields: self.fields.deep_view() }
    }
}

impl DeepView for Element {
    type V = ElementView;

    open spec fn deep_view(&self) -> ElementView {
        self@
    }
}

/// Whether `selector` is a selector: whether `Selector::parse` accepts it.
pub uninterp spec fn is_selector(selector: Seq<char>) -> bool;

/// What a query finds in the page `html`, where its selectors are selectors:
/// the elements that the selector `element` matches, in the order in which
/// `Html::select` yields them (that in which the parser made them), each with
/// its text nodes and with what each selector of `fields` matches below it.
pub uninterp spec fn selected(
    html: Seq<char>,
    element: Seq<char>,
    fields: Seq<Seq<char>>,
) -> Seq<ElementView>;

/// Whether every selector of a query is a selector.
pub open spec fn accepted(element: Seq<char>, fields: Seq<Seq<char>>) -> bool {
    &&& is_selector(element)
    &&& forall|k: int| 0 <= k < fields.len() ==> is_selector(#[trigger] fields[k])
}

/// Whether the parser takes the page: whether its text, encoded as UTF-8, has
/// no more than [`PAGE_LIMIT`] bytes.
pub open spec fn fits(html: Seq<char>) -> bool {
    encode_utf8(html).len() <= PAGE_LIMIT
}

/// What a query gives for the page `html`: what it finds there, or `None` where
/// the parser does not take the page or one of the selectors is no selector.
pub open spec fn found(html: Seq<char>, element: Seq<char>, fields: Seq<Seq<char>>) -> Option<
    Seq<ElementView>,
> {
    if fits(html) && accepted(element, fields) {
        Some(selected(html, element, fields))
    } else {
        None
    }
}

/// Runs a query with the `scraper` crate. `Selector::parse` reads each
/// selector, `Html::parse_document` reads the page, `Html::select` walks the
/// elements that match `element`, `ElementRef::select` those below one of them
/// that match a field, and `ElementRef::text` the text nodes below an element.
///
/// `Html::parse_document` takes any text, malformed markup too, but it panics
/// where a buffer of text grows too long: `Tendril::from_slice` refuses more
/// than `u32::MAX` bytes, and `Buf32::grow` a capacity beyond 2^31. The
/// tokenizer writes at most three bytes for one that it reads (U+FFFD in place
/// of a NUL), so no buffer of a page within [`PAGE_LIMIT`] comes near that;
/// longer pages are left out.
///
/// Whether `Selector::parse` accepts a selector depends on the selector alone,
/// and [`is_selector`] names it; the query gives `None` exactly where one of
/// its selectors is rejected, whatever the page. What it finds otherwise
/// depends on the three arguments alone, and [`selected`] names it.
#[verifier::external_body]
fn select(html: &str, element: &str, fields: &Vec<&str>) -> (res: Option<Vec<Element>>)
    requires
        html.spec_bytes().len() <= PAGE_LIMIT,
    ensures
        res is Some <==> is_selector(element@) && forall|k: int|
            0 <= k < fields.len() ==> is_selector(#[trigger] fields.deep_view()[k]),
        res matches Some(elements) ==> elements.deep_view() == selected(
            html@,
            element@,
            fields.deep_view(),
        ),
{
    let element = Selector::parse(element).ok()?;
    let fields: Vec<Selector> = fields.iter().map(|f| Selector::parse(f)).collect::<Result<_, _>>().ok()?;
    let document = Html::parse_document(html);
    let texts = |below: scraper::ElementRef| below.text().map(String::from).collect::<Vec<_>>();
    Some(document.select(&element).map(|matched| Element {
        text: texts(matched),
        fields: fields.iter().map(|f| matched.select(f).map(texts).collect()).collect(),
    }).collect())
}

/// Runs a query on the page `html`: the elements that the selector `element`
/// matches, each with its text nodes and with what each selector of `fields`
/// matches below it. `None` where the page is longer than the parser takes, or
/// where one of the selectors is no selector.
pub fn query(html: &str, element: &str, fields: &Vec<&str>) -> (res: Option<Vec<Element>>)
    ensures
        found(html@, element@, fields.deep_view()) == match res {
            Some(elements) => Some(elements.deep_view()),
            None => None,
        },
{
    if html.as_bytes().len() > PAGE_LIMIT {
        None
    } else {
        select(html, element, fields)
    }
}

/// The text of field `k` of `element`.
pub fn field_text(element: &Element, k: usize) -> (text: String)
    ensures
        text@ == element@.field(k as int),
{
    if k < element.fields.len() && element.fields[k].len() > 0 {
        proof {
            let fields = element.fields.deep_view();
            assert(fields[k as int] == element.fields[k as int].deep_view());
            assert(fields[k as int][0] == element.fields[k as int][0].deep_view());
        }
        joined_text(&element.fields[k][0])
    } else {
        proof {
            let fields = element.fields.deep_view();
            if k < element.fields.len() {
                assert(fields[k as int] == element.fields[k as int].deep_view());
            }
        }
        String::new()
    }
}

/// The record of a link of Hacker News: the link's text as title, and no
/// description.
pub open spec fn story(element: ElementView) -> NewsItem {
    NewsItem { title: joined(element.text), description: None }
}

/// The record of a card or row with two fields: the first field as title, the
/// second as description.
pub open spec fn entry(element: ElementView) -> NewsItem {
    NewsItem { title: element.field(0), description: Some(element.field(1)) }
}

/// The records of `elements` as links of Hacker News.
pub open spec fn stories(elements: Seq<ElementView>) -> Seq<NewsItem> {
    elements.map_values(|element: ElementView| story(element))
}

/// The records of `elements` as cards or rows with two fields.
pub open spec fn entries(elements: Seq<ElementView>) -> Seq<NewsItem> {
    elements.map_values(|element: ElementView| entry(element))
}

/// What Hacker News gives for the links of its page: the records of the first
/// `limit` links, without those whose title is empty. The limit counts links,
/// not the records that are left.
pub open spec fn hacker_news_news(elements: Seq<ElementView>, limit: nat) -> Seq<NewsItem> {
    with_title(stories(first(elements, limit)))
}

/// What GitHub Trending gives for the rows of its page: the records of the
/// first `limit` rows, without those whose title is empty. The limit counts
/// rows, not the records that are left, and a description may be empty.
pub open spec fn github_trending_news(elements: Seq<ElementView>, limit: nat) -> Seq<NewsItem> {
    with_title(entries(first(elements, limit)))
}

/// What Product Hunt gives for the cards of its page: the records of the
/// cards whose title and description both hold something, then without those
/// that repeat the record just before them, then the first `limit` of what is
/// left.
pub open spec fn product_hunt_news(elements: Seq<ElementView>, limit: nat) -> Seq<NewsItem> {
    first(dedup(filled(entries(elements))), limit)
}

/// The records that Hacker News gives for the links of its page.
pub fn hacker_news(elements: &Vec<Element>, limit: usize) -> (news: Vec<NewsInfo>)
    ensures
        news.deep_view() == hacker_news_news(elements.deep_view(), limit as nat),
        news.len() <= limit,
{
    let ghost read = first(elements.deep_view(), limit as nat);
    let mut news: Vec<NewsInfo> = Vec::new();
    let mut i: usize = 0;
    proof {
        lemma_nothing_to_keep();
        assert(stories(read.take(0)) =~= Seq::<NewsItem>::empty());
    }
    while i < elements.len() && i < limit
        invariant
            i <= read.len(),
            read == first(elements.deep_view(), limit as nat),
            news.len() <= i,
            news.deep_view() == with_title(stories(read.take(i as int))),
        decreases elements.len() - i,
    {
        let title = joined_text(&elements[i].text);
        proof {
            assert(read[i as int] == elements[i as int]@);
            assert(read.take(i + 1) =~= read.take(i as int).push(read[i as int]));
            assert(stories(read.take(i + 1)) =~= stories(read.take(i as int)).push(
                story(read[i as int]),
            ));
            lemma_with_title_push(stories(read.take(i as int)), story(read[i as int]));
        }
        if !title.as_str().is_empty() {
            let ghost before = news.deep_view();
            let record = NewsInfo { title, description: None };
            news.push(record);
            assert(news.deep_view() =~= before.push(record@));
        }
        i += 1;
    }
    proof {
        assert(read.take(i as int) =~= read);
    }
    news
}

/// The records that GitHub Trending gives for the rows of its page.
pub fn github_trending(elements: &Vec<Element>, limit: usize) -> (news: Vec<NewsInfo>)
    ensures
        news.deep_view() == github_trending_news(elements.deep_view(), limit as nat),
        news.len() <= limit,
{
    let ghost read = first(elements.deep_view(), limit as nat);
    let mut news: Vec<NewsInfo> = Vec::new();
    let mut i: usize = 0;
    proof {
        lemma_nothing_to_keep();
        assert(entries(read.take(0)) =~= Seq::<NewsItem>::empty());
    }
    while i < elements.len() && i < limit
        invariant
            i <= read.len(),
            read == first(elements.deep_view(), limit as nat),
            news.len() <= i,
            news.deep_view() == with_title(entries(read.take(i as int))),
        decreases elements.len() - i,
    {
        let title = field_text(&elements[i], 0);
        let description = field_text(&elements[i], 1);
        proof {
            assert(read[i as int] == elements[i as int]@);
            assert(read.take(i + 1) =~= read.take(i as int).push(read[i as int]));
            assert(entries(read.take(i + 1)) =~= entries(read.take(i as int)).push(
                entry(read[i as int]),
            ));
            lemma_with_title_push(entries(read.take(i as int)), entry(read[i as int]));
        }
        if !title.as_str().is_empty() {
            let ghost before = news.deep_view();
            let record = NewsInfo { title, description: Some(description) };
            news.push(record);
            assert(news.deep_view() =~= before.push(record@));
        }
        i += 1;
    }
    proof {
        assert(read.take(i as int) =~= read);
    }
    news
}

/// The records that Product Hunt gives for the cards of its page.
pub fn product_hunt(elements: &Vec<Element>, limit: usize) -> (news: Vec<NewsInfo>)
    ensures
        news.deep_view() == product_hunt_news(elements.deep_view(), limit as nat),
        news.len() <= limit,
{
    let ghost all = elements.deep_view();
    let mut kept: Vec<NewsInfo> = Vec::new();
    let mut i: usize = 0;
    proof {
        lemma_nothing_to_keep();
        assert(entries(all.take(0)) =~= Seq::<NewsItem>::empty());
    }
    while i < elements.len()
        invariant
            i <= elements.len(),
            all == elements.deep_view(),
            kept.deep_view() == filled(entries(all.take(i as int))),
        decreases elements.len() - i,
    {
        let title = field_text(&elements[i], 0);
        let description = field_text(&elements[i], 1);
        proof {
            assert(all[i as int] == elements[i as int]@);
            assert(all.take(i + 1) =~= all.take(i as int).push(all[i as int]));
            assert(entries(all.take(i + 1)) =~= entries(all.take(i as int)).push(
                entry(all[i as int]),
            ));
            lemma_filled_push(entries(all.take(i as int)), entry(all[i as int]));
        }
        if !title.as_str().is_empty() && !description.as_str().is_empty() {
            let ghost before = kept.deep_view();
            let record = NewsInfo { title, description: Some(description) };
            kept.push(record);
            assert(kept.deep_view() =~= before.push(record@));
        }
        i += 1;
    }
    proof {
        assert(all.take(elements.len() as int) =~= all);
    }
    keep_first(dedup_adjacent(kept), limit)
}

/// Whether the selectors of the query of `source` are selectors. A feed source
/// has no query.
pub open spec fn selectors_accepted(source: NewsSource) -> bool {
    match source {
        NewsSource::HackerNews => accepted(HACKER_NEWS_ITEM@, seq![]),
        NewsSource::ProductHunt => accepted(
            PRODUCT_HUNT_ITEM@,
            seq![PRODUCT_HUNT_TITLE@, PRODUCT_HUNT_DESCRIPTION@],
        ),
        NewsSource::GithubTrending => accepted(
            GITHUB_TRENDING_ITEM@,
            seq![GITHUB_TRENDING_TITLE@, GITHUB_TRENDING_DESCRIPTION@],
        ),
        NewsSource::TechMeme | NewsSource::WSJ => false,
    }
}

/// What a page source gives for the text of its page: the records of its
/// strategy for what its query finds there. `None` for a feed source, where
/// the page is longer than the parser takes, and where a selector of the
/// query is no selector.
pub open spec fn page_news(source: NewsSource, html: Seq<char>, limit: nat) -> Option<
    Seq<NewsItem>,
> {
    match source {
        NewsSource::HackerNews => match found(html, HACKER_NEWS_ITEM@, seq![]) {
            Some(elements) => Some(hacker_news_news(elements, limit)),
            None => None,
        },
        NewsSource::ProductHunt => match found(
            html,
            PRODUCT_HUNT_ITEM@,
            seq![PRODUCT_HUNT_TITLE@, PRODUCT_HUNT_DESCRIPTION@],
        ) {
            Some(elements) => Some(product_hunt_news(elements, limit)),
            None => None,
        },
        NewsSource::GithubTrending => match found(
            html,
            GITHUB_TRENDING_ITEM@,
            seq![GITHUB_TRENDING_TITLE@, GITHUB_TRENDING_DESCRIPTION@],
        ) {
            Some(elements) => Some(github_trending_news(elements, limit)),
            None => None,
        },
        NewsSource::TechMeme | NewsSource::WSJ => None,
    }
}

/// A page source does not fail on what its page holds: it gives records for
/// every page that the parser takes, exactly when the selectors of its query
/// are selectors.
pub proof fn lemma_page_news_is_owed(source: NewsSource, html: Seq<char>, limit: nat)
    ensures
        page_news(source, html, limit) is Some <==> fits(html) && selectors_accepted(source),
{
}

/// Every record that a page source gives has a title that holds something, and
/// there are no more of them than the limit; those of Product Hunt have a
/// description that holds something too.
pub proof fn lemma_page_news_is_titled(source: NewsSource, html: Seq<char>, limit: nat)
    ensures
        page_news(source, html, limit) matches Some(news) ==> {
            &&& all_titled(news)
            &&& news.len() <= limit
            &&& source == NewsSource::ProductHunt ==> forall|k: int|
                0 <= k < news.len() ==> (#[trigger] news[k]).is_filled()
        },
{
    match source {
        NewsSource::HackerNews => {
            let elements = selected(html, HACKER_NEWS_ITEM@, seq![]);
            let read = first(elements, limit);
            lemma_kept_records_are_titled(stories(read), limit);
            stories(read).lemma_filter_len(|record: NewsItem| record.title.len() > 0);
        },
        NewsSource::ProductHunt => {
            let elements = selected(
                html,
                PRODUCT_HUNT_ITEM@,
                seq![PRODUCT_HUNT_TITLE@, PRODUCT_HUNT_DESCRIPTION@],
            );
            lemma_kept_records_are_titled(entries(elements), limit);
        },
        NewsSource::GithubTrending => {
            let elements = selected(
                html,
                GITHUB_TRENDING_ITEM@,
                seq![GITHUB_TRENDING_TITLE@, GITHUB_TRENDING_DESCRIPTION@],
            );
            let read = first(elements, limit);
            lemma_kept_records_are_titled(entries(read), limit);
            entries(read).lemma_filter_len(|record: NewsItem| record.title.len() > 0);
        },
        NewsSource::TechMeme | NewsSource::WSJ => {},
    }
}

/// Reads the records of a page source from the text of its page.
pub fn scrap_page(source: NewsSource, html: &str, limit: usize) -> (res: Option<Vec<NewsInfo>>)
    ensures
        page_news(source, html@, limit as nat) == match res {
            Some(news) => Some(news.deep_view()),
            None => None,
        },
        res matches Some(news) ==> news.len() <= limit && all_titled(news.deep_view()),
{
    proof {
        lemma_page_news_is_titled(source, html@, limit as nat);
    }
    match source {
        NewsSource::HackerNews => {
            let fields: Vec<&str> = Vec::new();
            assert(fields.deep_view() =~= seq![]);
            match query(html, HACKER_NEWS_ITEM, &fields) {
                Some(elements) => Some(hacker_news(&elements, limit)),
                None => None,
            }
        },
        NewsSource::ProductHunt => {
            let fields: Vec<&str> = vec![PRODUCT_HUNT_TITLE, PRODUCT_HUNT_DESCRIPTION];
            assert(fields.deep_view() =~= seq![PRODUCT_HUNT_TITLE@, PRODUCT_HUNT_DESCRIPTION@]);
            match query(html, PRODUCT_HUNT_ITEM, &fields) {
                Some(elements) => Some(product_hunt(&elements, limit)),
                None => None,
            }
        },
        NewsSource::GithubTrending => {
            let fields: Vec<&str> = vec![GITHUB_TRENDING_TITLE, GITHUB_TRENDING_DESCRIPTION];
            assert(fields.deep_view() =~= seq![
                GITHUB_TRENDING_TITLE@,
                GITHUB_TRENDING_DESCRIPTION@,
            ]);
            match query(html, GITHUB_TRENDING_ITEM, &fields) {
                Some(elements) => Some(github_trending(&elements, limit)),
                None => None,
            }
        },
        NewsSource::TechMeme | NewsSource::WSJ => None,
    }
}

} // verus!
