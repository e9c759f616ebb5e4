use newsroom::feed::{scrap_feed, tech_meme, titles_present, wsj, FeedItem};
use newsroom::{Error, NewsInfo, NewsSource};

fn item(title: Option<&str>, description: Option<&str>) -> FeedItem {
    FeedItem { title: title.map(|t| t.to_string()), description: description.map(|d| d.to_string()) }
}

fn record(title: &str, description: Option<&str>) -> NewsInfo {
    NewsInfo { title: title.to_string(), description: description.map(|d| d.to_string()) }
}

fn feed(items: &str) -> Vec<u8> {
    format!(
        "<?xml version=\"1.0\" encoding=\"UTF-8\"?>\n<rss version=\"2.0\"><channel>\
         <title>Feed</title><link>http://example.org/</link><description>About</description>\
         {}</channel></rss>",
        items
    )
    .into_bytes()
}

#[test]
fn tech_meme_passes_over_an_item_without_title() {
    let items = vec![item(Some("A"), Some("a")), item(None, Some("b")), item(Some("C"), None)];
    assert_eq!(tech_meme(&items, 10), vec![record("A", None), record("C", None)]);
}

#[test]
fn tech_meme_counts_records_not_items() {
    let items = vec![item(None, None), item(Some("A"), None), item(None, None), item(Some("B"), None), item(Some("C"), None)];
    assert_eq!(tech_meme(&items, 2), vec![record("A", None), record("B", None)]);
    assert_eq!(tech_meme(&items, 1), vec![record("A", None)]);
    assert_eq!(tech_meme(&items, 3).len(), 3);
    assert_eq!(tech_meme(&items, 4).len(), 3);
}

#[test]
fn tech_meme_drops_the_description() {
    assert_eq!(tech_meme(&vec![item(Some("A"), Some("kept out"))], 5), vec![record("A", None)]);
}

#[test]
fn tech_meme_of_no_items_is_empty() {
    assert_eq!(tech_meme(&Vec::new(), 5), Vec::new());
    assert_eq!(tech_meme(&vec![item(None, None), item(None, Some("d"))], 5), Vec::new());
}

#[test]
fn tech_meme_with_limit_zero_is_empty() {
    assert_eq!(tech_meme(&vec![item(Some("A"), None)], 0), Vec::new());
}

#[test]
fn wsj_keeps_title_and_description() {
    let items = vec![item(Some("A"), Some(" a <b>raw</b> ")), item(Some("B"), None)];
    assert_eq!(wsj(&items, 10), vec![record("A", Some(" a <b>raw</b> ")), record("B", None)]);
}

#[test]
fn wsj_reads_the_first_items_only() {
    let items = vec![item(Some("A"), None), item(Some("B"), None), item(None, None)];
    assert!(titles_present(&items, 2));
    assert_eq!(wsj(&items, 2), vec![record("A", None), record("B", None)]);
    assert_eq!(wsj(&items, 1), vec![record("A", None)]);
    assert_eq!(wsj(&items, 0), Vec::new());
}

#[test]
fn titles_present_looks_at_the_items_that_are_read() {
    let items = vec![item(Some("A"), None), item(None, None), item(Some("C"), None)];
    assert!(titles_present(&items, 0));
    assert!(titles_present(&items, 1));
    assert!(!titles_present(&items, 2));
    assert!(!titles_present(&items, 3));
    assert!(!titles_present(&items, 100));
    assert!(titles_present(&Vec::new(), 100));
}

#[test]
fn tech_meme_scenario_with_an_empty_title() {
    let bytes = feed(
        "<item><title>A</title></item><item><title></title></item><item><title>C</title></item>",
    );
    let news = scrap_feed(NewsSource::TechMeme, &bytes, 10).unwrap().unwrap();
    assert_eq!(news, vec![record("A", None), record("C", None)]);
}

#[test]
fn tech_meme_feed_without_items_is_empty_not_failed() {
    let news = scrap_feed(NewsSource::TechMeme, &feed(""), 10).unwrap().unwrap();
    assert_eq!(news, Vec::new());
}

#[test]
fn tech_meme_feed_is_cut_at_the_limit() {
    let bytes = feed(
        "<item><title>A</title></item><item><link>http://x/</link></item>\
         <item><title>B</title></item><item><title>C</title></item>",
    );
    let news = scrap_feed(NewsSource::TechMeme, &bytes, 2).unwrap().unwrap();
    assert_eq!(news, vec![record("A", None), record("B", None)]);
}

#[test]
fn wsj_feed_gives_titles_and_descriptions() {
    let bytes = feed(
        "<item><title>A</title><description>first</description></item>\
         <item><title> B </title></item>\
         <item><title>C</title><description>&lt;p&gt;third&lt;/p&gt;</description></item>",
    );
    let news = scrap_feed(NewsSource::WSJ, &bytes, 10).unwrap().unwrap();
    assert_eq!(
        news,
        vec![record("A", Some("first")), record("B", None), record("C", Some("<p>third</p>"))]
    );
}

#[test]
fn wsj_feed_is_cut_at_the_limit() {
    let bytes = feed("<item><title>A</title></item><item><title>B</title></item>");
    let news = scrap_feed(NewsSource::WSJ, &bytes, 1).unwrap().unwrap();
    assert_eq!(news, vec![record("A", None)]);
}

#[test]
fn wsj_item_without_title_is_fatal_not_skipped() {
    let bytes = feed(
        "<item><title>A</title></item><item><description>no title</description></item>\
         <item><title>C</title></item>",
    );
    assert!(scrap_feed(NewsSource::WSJ, &bytes, 10).is_none());
    let skipped = scrap_feed(NewsSource::TechMeme, &bytes, 10).unwrap().unwrap();
    assert_eq!(skipped, vec![record("A", None), record("C", None)]);
}

#[test]
fn wsj_item_without_title_beyond_the_limit_is_not_read() {
    let bytes = feed("<item><title>A</title></item><item><description>d</description></item>");
    let news = scrap_feed(NewsSource::WSJ, &bytes, 1).unwrap().unwrap();
    assert_eq!(news, vec![record("A", None)]);
    assert!(scrap_feed(NewsSource::WSJ, &bytes, 2).is_none());
}

#[test]
fn wsj_feed_without_items_is_empty() {
    assert_eq!(scrap_feed(NewsSource::WSJ, &feed(""), 10).unwrap().unwrap(), Vec::new());
}

#[test]
fn what_is_no_feed_is_a_feed_error() {
    for source in [NewsSource::TechMeme, NewsSource::WSJ] {
        assert!(matches!(scrap_feed(source, b"", 10), Some(Err(Error::RssError(_)))));
        assert!(matches!(scrap_feed(source, b"not a feed", 10), Some(Err(Error::RssError(_)))));
        assert!(matches!(
            scrap_feed(source, b"<html><body>page</body></html>", 10),
            Some(Err(Error::RssError(_)))
        ));
        assert!(matches!(
            scrap_feed(source, b"<rss version=\"2.0\"><channel><item><title>A</item></channel></rss>", 10),
            Some(Err(Error::RssError(_)))
        ));
    }
}

#[test]
fn a_page_source_reads_no_feed() {
    let bytes = feed("<item><title>A</title></item>");
    assert!(scrap_feed(NewsSource::HackerNews, &bytes, 10).is_none());
    assert!(scrap_feed(NewsSource::ProductHunt, &bytes, 10).is_none());
    assert!(scrap_feed(NewsSource::GithubTrending, &bytes, 10).is_none());
}
