//! The catalog of sources.

use crate::error::{Error, Failure};
use crate::feed::{feed_items, feed_news, has_titles, scrap_feed, tech_meme_news};
use crate::items::all_titled;
use crate::page::{page_news, scrap_page};
use crate::text::str_eq;
use vstd::prelude::*;
use vstd::std_specs::cmp::PartialEqSpecImpl;
use vstd::string::StringExecFns;

verus! {

/// A site whose top items can be read.
#[derive(Copy, Clone, PartialEq, Eq, Debug, Structural)]
pub enum NewsSource {
    HackerNews,
    ProductHunt,
    TechMeme,
    WSJ,
    GithubTrending,
}

/// How a source publishes its items.
#[derive(Copy, Clone, PartialEq, Eq, Debug, Structural)]
pub enum Format {
    /// A page of HTML, read as text and queried with selectors.
    Page,
    /// A syndication feed, read as bytes.
    Feed,
}

impl NewsSource {
    /// The token that names the source on input.
    pub open spec fn spec_token(self) -> &'static str {
        match self {
            NewsSource::HackerNews => "hackernews",
            NewsSource::ProductHunt => "producthunt",
            NewsSource::TechMeme => "techmeme",
            NewsSource::WSJ => "wsj",
            NewsSource::GithubTrending => "github-trending",
        }
    }

    /// The token that names the source on input.
    #[verifier::when_used_as_spec(spec_token)]
    pub fn token(self) -> (token: &'static str)
        ensures
            token == self.spec_token(),
    {
        match self {
            NewsSource::HackerNews => "hackernews",
            NewsSource::ProductHunt => "producthunt",
            NewsSource::TechMeme => "techmeme",
            NewsSource::WSJ => "wsj",
            NewsSource::GithubTrending => "github-trending",
        }
    }

    /// The source that `token` names, if it names one: the match is exact, with
    /// no trimming and no folding of case.
    pub open spec fn parse(token: Seq<char>) -> Option<NewsSource> {
        if token == NewsSource::HackerNews.token()@ {
            Some(NewsSource::HackerNews)
        } else if token == NewsSource::ProductHunt.token()@ {
            Some(NewsSource::ProductHunt)
        } else if token == NewsSource::TechMeme.token()@ {
            Some(NewsSource::TechMeme)
        } else if token == NewsSource::WSJ.token()@ {
            Some(NewsSource::WSJ)
        } else if token == NewsSource::GithubTrending.token()@ {
            Some(NewsSource::GithubTrending)
        } else {
            None
        }
    }

    /// Reads a source from its token. Any other string is refused, and the
    /// error holds it.
    pub fn from_str(s: &str) -> (res: Result<NewsSource, Error>)
        ensures
            match NewsSource::parse(s@) {
                Some(source) => res == Ok::<NewsSource, Error>(source),
                None => res matches Err(e) && e@ == Failure::UnrecognizedSource(s@),
            },
    {
        if str_eq(s, NewsSource::HackerNews.token()) {
            Ok(NewsSource::HackerNews)
        } else if str_eq(s, NewsSource::ProductHunt.token()) {
            Ok(NewsSource::ProductHunt)
        } else if str_eq(s, NewsSource::TechMeme.token()) {
            Ok(NewsSource::TechMeme)
        } else if str_eq(s, NewsSource::WSJ.token()) {
            Ok(NewsSource::WSJ)
        } else if str_eq(s, NewsSource::GithubTrending.token()) {
            Ok(NewsSource::GithubTrending)
        } else {
            Err(Error::ParseError(s.to_owned()))
        }
    }

    /// The label under which the source is shown.
    pub open spec fn label(self) -> &'static str {
        match self {
            NewsSource::HackerNews => "HACKER NEWS",
            NewsSource::ProductHunt => "PRODUCT HUNT",
            NewsSource::TechMeme => "TECHMEME",
            NewsSource::WSJ => "WALL STREET JOURNAL",
            NewsSource::GithubTrending => "GITHUB TRENDING",
        }
    }

    /// The source as it is shown: its label.
    pub fn to_string(&self) -> (shown: String)
        ensures
            shown@ == self.label()@,
    {
        match self {
            NewsSource::HackerNews => "HACKER NEWS".to_owned(),
            NewsSource::ProductHunt => "PRODUCT HUNT".to_owned(),
            NewsSource::TechMeme => "TECHMEME".to_owned(),
            NewsSource::WSJ => "WALL STREET JOURNAL".to_owned(),
            NewsSource::GithubTrending => "GITHUB TRENDING".to_owned(),
        }
    }

    /// The address that the source is fetched from.
    pub open spec fn spec_url(self) -> &'static str {
        match self {
            NewsSource::HackerNews => "https://news.ycombinator.com/",
            NewsSource::ProductHunt => "https://www.producthunt.com/",
            NewsSource::TechMeme => "https://www.techmeme.com/feed.xml",
            NewsSource::WSJ => "https://feeds.a.dj.com/rss/RSSWSJD.xml",
            NewsSource::GithubTrending => "https://github.com/trending",
        }
    }

    /// The address that the source is fetched from, with one GET.
    #[verifier::when_used_as_spec(spec_url)]
    pub fn url(self) -> (url: &'static str)
        ensures
            url == self.spec_url(),
    {
        match self {
            NewsSource::HackerNews => "https://news.ycombinator.com/",
            NewsSource::ProductHunt => "https://www.producthunt.com/",
            NewsSource::TechMeme => "https://www.techmeme.com/feed.xml",
            NewsSource::WSJ => "https://feeds.a.dj.com/rss/RSSWSJD.xml",
            NewsSource::GithubTrending => "https://github.com/trending",
        }
    }

    /// How the source publishes its items.
    pub open spec fn spec_format(self) -> Format {
        match self {
            NewsSource::HackerNews | NewsSource::ProductHunt | NewsSource::GithubTrending => {
                Format::Page
            },
            NewsSource::TechMeme | NewsSource::WSJ => Format::Feed,
        }
    }

    /// How the source publishes its items, and so how its response is to be read.
    #[verifier::when_used_as_spec(spec_format)]
    pub fn format(self) -> (format: Format)
        ensures
            format == self.spec_format(),
    {
        match self {
            NewsSource::HackerNews | NewsSource::ProductHunt | NewsSource::GithubTrending => {
                Format::Page
            },
            NewsSource::TechMeme | NewsSource::WSJ => Format::Feed,
        }
    }

    /// Every source, in the order in which they are declared.
    pub fn all() -> (sources: Vec<NewsSource>)
        ensures
            sources@ == seq![
                NewsSource::HackerNews,
                NewsSource::ProductHunt,
                NewsSource::TechMeme,
                NewsSource::WSJ,
                NewsSource::GithubTrending,
            ],
    {
        vec![
            NewsSource::HackerNews,
            NewsSource::ProductHunt,
            NewsSource::TechMeme,
            NewsSource::WSJ,
            NewsSource::GithubTrending,
        ]
    }
}

/// A record as contracts see it: the characters of its title and of its
/// description, where it has one.
pub struct NewsItem {
    pub title: Seq<char>,
    pub description: Option<Seq<char>>,
}

impl NewsItem {
    /// Whether the title and a description are there and both hold something.
    pub open spec fn is_filled(self) -> bool {
        &&& self.title.len() > 0
        &&& self.description matches Some(description)
        &&& description.len() > 0
    }

    /// The text that shows the record: the title, followed by the description
    /// behind a dash where there is one.
    pub open spec fn shown(self) -> Seq<char> {
        match self.description {
            Some(description) => self.title + " - "@ + description,
            None => self.title,
        }
    }
}

/// One item of a source: its title and, where the source gives one, a description.
#[derive(Debug)]
pub struct NewsInfo {
    pub title: String,
    pub description: Option<String>,
}

impl View for NewsInfo {
    type V = NewsItem;

    open spec fn view(&self) -> NewsItem {
        NewsItem {
            title: self.title@,
            description: match self.description {
                Some(description) => Some(description@),
                None => None,
            },
        }
    }
}

impl DeepView for NewsInfo {
    type V = NewsItem;

    open spec fn deep_view(&self) -> NewsItem {
        self@
    }
}

impl PartialEq for NewsInfo {
    /// Two records are equal when their titles and their descriptions are.
    fn eq(&self, other: &NewsInfo) -> (r: bool) {
        let same_description = match (&self.description, &other.description) {
            (Some(mine), Some(theirs)) => *mine == *theirs,
            (None, None) => true,
            _ => false,
        };
        same_description && self.title == other.title
    }
}

impl PartialEqSpecImpl for NewsInfo {
    open spec fn obeys_eq_spec() -> bool {
        true
    }

    open spec fn eq_spec(&self, other: &NewsInfo) -> bool {
        self@ == other@
    }
}

impl NewsInfo {
    /// The record as it is shown: `title - description`, or the title alone.
    pub fn to_string(&self) -> (shown: String)
        ensures
            shown@ == self@.shown(),
    {
        let mut shown = self.title.clone();
        match &self.description {
            Some(description) => {
                shown.append(" - ");
                shown.append(description.as_str());
            },
            None => {},
        }
        shown
    }
}

/// What came of an extraction, as contracts see it.
pub open spec fn outcome(res: Option<Result<Vec<NewsInfo>, Error>>) -> Option<
    Result<Seq<NewsItem>, Failure>,
> {
    match res {
        Some(Ok(news)) => Some(Ok(news.deep_view())),
        Some(Err(e)) => Some(Err(e@)),
        None => None,
    }
}

/// What the one GET of a source's address came to.
#[derive(Debug)]
pub enum Response {
    /// The body as text: what a page source is read from.
    Text(String),
    /// The body as bytes: what a feed source is read from.
    Bytes(Vec<u8>),
    /// The transport failed, and this is its account of why.
    Failed(String),
}

/// Reads the top items of a source from the response to its request.
pub struct Scraper {
    max_page: usize,
}

impl Scraper {
    /// The most items that one extraction gives.
    pub closed spec fn max_page(&self) -> usize {
        self.max_page
    }

    /// A scraper that gives at most `max_page` items of a source.
    pub fn new(max_page: usize) -> (scraper: Scraper)
        ensures
            scraper.max_page() == max_page,
    {
        Scraper { max_page }
    }

    /// What `source` gives for `response`.
    ///
    /// A failed request gives the transport's failure, whatever the source. A
    /// page source reads text and a feed source reads bytes, each by its own
    /// strategy. `None` stands for what the extraction cannot go on from: a
    /// body in the form that the source does not read, a page longer than the
    /// parser takes, a selector that is no selector, an item of the Wall
    /// Street Journal without a title.
    pub open spec fn news(&self, source: NewsSource, response: Response) -> Option<
        Result<Seq<NewsItem>, Failure>,
    > {
        match response {
            Response::Failed(account) => Some(Err(Failure::Transport(account@))),
            Response::Text(html) => match page_news(source, html@, self.max_page() as nat) {
                Some(items) => Some(Ok(items)),
                None => None,
            },
            Response::Bytes(bytes) => feed_news(source, bytes@, self.max_page() as nat),
        }
    }

    /// Extracts the items of `source` from the response to the GET of
    /// `source.url()`: at most `max_page` records, in the order in which the
    /// page query or the feed reader gives what they are made from, or the
    /// failure. `None` where the extraction cannot go on.
    pub fn scrap(&self, source: NewsSource, response: &Response) -> (res: Option<
        Result<Vec<NewsInfo>, Error>,
    >)
        ensures
            outcome(res) == self.news(source, *response),
            res matches Some(Ok(news)) ==> news.len() <= self.max_page() && all_titled(
                news.deep_view(),
            ),
    {
        match response {
            Response::Failed(account) => Some(Err(Error::HttpError(account.clone()))),
            Response::Text(html) => match scrap_page(source, html.as_str(), self.max_page) {
                Some(news) => Some(Ok(news)),
                None => None,
            },
            Response::Bytes(bytes) => scrap_feed(source, bytes.as_slice(), self.max_page),
        }
    }
}

impl std::str::FromStr for NewsSource {
    type Err = Error;

    /// Reads a source from its token, as [`NewsSource::from_str`] does: the
    /// match is exact, and any other string is refused with an error that
    /// holds it.
    fn from_str(s: &str) -> (res: Result<NewsSource, Error>)
        ensures
            match NewsSource::parse(s@) {
                Some(source) => res == Ok::<NewsSource, Error>(source),
                None => res matches Err(e) && e@ == Failure::UnrecognizedSource(s@),
            },
    {
        NewsSource::from_str(s)
    }
}

/// Reading a source's own token gives that source back.
pub proof fn lemma_token_round_trip(source: NewsSource)
    ensures
        NewsSource::parse(source.token()@) == Some(source),
{
    reveal_tokens();
}

/// A string is read as a source exactly when it is the token of one, and then
/// as the source whose token it is.
pub proof fn lemma_parse_accepts_tokens_only(token: Seq<char>)
    ensures
        NewsSource::parse(token) is Some <==> exists|source: NewsSource|
            token == #[trigger] source.token()@,
        forall|source: NewsSource|
            NewsSource::parse(token) == Some(source) <==> token == #[trigger] source.token()@,
{
    reveal_tokens();
    assert forall|source: NewsSource|
        NewsSource::parse(token) == Some(source) <==> token == #[trigger] source.token()@ by {
        lemma_token_round_trip(source);
    }
    if NewsSource::parse(token) is Some {
        let source = NewsSource::parse(token)->0;
        assert(token == source.token()@);
    }
}

/// No label is a token: a source is not read back from the text that shows it.
pub proof fn lemma_labels_are_not_tokens(source: NewsSource)
    ensures
        NewsSource::parse(source.label()@) is None,
{
    reveal_tokens();
    reveal_strlit("HACKER NEWS");
    reveal_strlit("PRODUCT HUNT");
    reveal_strlit("TECHMEME");
    reveal_strlit("WALL STREET JOURNAL");
    reveal_strlit("GITHUB TRENDING");
}

/// What the five tokens hold.
proof fn reveal_tokens()
    ensures
        NewsSource::HackerNews.token()@ == seq!['h', 'a', 'c', 'k', 'e', 'r', 'n', 'e', 'w', 's'],
        NewsSource::ProductHunt.token()@ == seq![
            'p', 'r', 'o', 'd', 'u', 'c', 't', 'h', 'u', 'n', 't',
        ],
        NewsSource::TechMeme.token()@ == seq!['t', 'e', 'c', 'h', 'm', 'e', 'm', 'e'],
        NewsSource::WSJ.token()@ == seq!['w', 's', 'j'],
        NewsSource::GithubTrending.token()@ == seq![
            'g', 'i', 't', 'h', 'u', 'b', '-', 't', 'r', 'e', 'n', 'd', 'i', 'n', 'g',
        ],
{
    reveal_strlit("hackernews");
    reveal_strlit("producthunt");
    reveal_strlit("techmeme");
    reveal_strlit("wsj");
    reveal_strlit("github-trending");
    assert(NewsSource::HackerNews.token()@ =~= seq![
        'h', 'a', 'c', 'k', 'e', 'r', 'n', 'e', 'w', 's',
    ]);
    assert(NewsSource::ProductHunt.token()@ =~= seq![
        'p', 'r', 'o', 'd', 'u', 'c', 't', 'h', 'u', 'n', 't',
    ]);
    assert(NewsSource::TechMeme.token()@ =~= seq!['t', 'e', 'c', 'h', 'm', 'e', 'm', 'e']);
    assert(NewsSource::WSJ.token()@ =~= seq!['w', 's', 'j']);
    assert(NewsSource::GithubTrending.token()@ =~= seq![
        'g', 'i', 't', 'h', 'u', 'b', '-', 't', 'r', 'e', 'n', 'd', 'i', 'n', 'g',
    ]);
}

/// Whatever the source and the response, an extraction gives no more records
/// than the limit.
pub proof fn lemma_news_within_limit(scraper: Scraper, source: NewsSource, response: Response)
    ensures
        scraper.news(source, response) matches Some(Ok(items)) ==> items.len()
            <= scraper.max_page(),
{
}

/// A failed request fails the extraction with the transport's account, for
/// every source and every limit.
pub proof fn lemma_failure_is_the_transports(scraper: Scraper, source: NewsSource, account: String)
    ensures
        scraper.news(source, Response::Failed(account)) == Some(
            Err::<Seq<NewsItem>, Failure>(Failure::Transport(account@)),
        ),
{
}

/// An item without a title among those that are read stops the Wall Street
/// Journal, where TechMeme passes it over: for the same feed the one gives no
/// outcome and the other one its records.
pub proof fn lemma_wsj_needs_titles(scraper: Scraper, bytes: Vec<u8>)
    ensures
        feed_items(bytes@) matches Some(items) ==> !has_titles(items, scraper.max_page() as nat)
            ==> {
            &&& scraper.news(NewsSource::WSJ, Response::Bytes(bytes)) is None
            &&& scraper.news(NewsSource::TechMeme, Response::Bytes(bytes)) == Some(
                Ok::<Seq<NewsItem>, Failure>(tech_meme_news(items, scraper.max_page() as nat)),
            )
        },
{
}

} // verus!
