use newsroom::{Error, NewsInfo, NewsSource, Response, Scraper};

fn record(title: &str, description: Option<&str>) -> NewsInfo {
    NewsInfo { title: title.to_string(), description: description.map(|d| d.to_string()) }
}

fn feed(titles: &[&str]) -> Response {
    let mut document = String::from("<rss version=\"2.0\"><channel><title>Feed</title>");
    for title in titles {
        document.push_str(&format!("<item><title>{}</title><description>about {}</description></item>", title, title));
    }
    document.push_str("</channel></rss>");
    Response::Bytes(document.into_bytes())
}

fn stories(titles: &[&str]) -> Response {
    let mut page = String::from("<html><body>");
    for title in titles {
        page.push_str(&format!("<p><a class=\"storylink\" href=\"#\">{}</a></p>", title));
    }
    page.push_str("</body></html>");
    Response::Text(page)
}

fn rows(titles: &[&str]) -> Response {
    let mut page = String::from("<html><body>");
    for title in titles {
        page.push_str(&format!("<article class=\"Box-row\"><h1>{}</h1><p>about {}</p></article>", title, title));
    }
    page.push_str("</body></html>");
    Response::Text(page)
}

fn products(titles: &[&str]) -> Response {
    let mut page = String::from("<html><body><div>first</div><div class=\"styles_container_x\">");
    for title in titles {
        page.push_str(&format!(
            "<div class=\"styles_content_y\"><h3><a data-test=\"n\">{}</a></h3><p><a>about {}</a></p></div>",
            title, title
        ));
    }
    page.push_str("</div></body></html>");
    Response::Text(page)
}

fn response_for(source: NewsSource, titles: &[&str]) -> Response {
    match source {
        NewsSource::HackerNews => stories(titles),
        NewsSource::ProductHunt => products(titles),
        NewsSource::GithubTrending => rows(titles),
        NewsSource::TechMeme | NewsSource::WSJ => feed(titles),
    }
}

#[test]
fn a_failed_request_is_a_transport_failure() {
    let scraper = Scraper::new(10);
    for source in NewsSource::all() {
        let response = Response::Failed("connection refused".to_string());
        match scraper.scrap(source, &response) {
            Some(Err(Error::HttpError(account))) => assert_eq!(account, "connection refused"),
            other => panic!("{:?}", other),
        }
    }
}

#[test]
fn a_failure_for_one_source_leaves_the_others_alone() {
    let scraper = Scraper::new(10);
    let outcomes: Vec<_> = NewsSource::all()
        .into_iter()
        .map(|source| {
            let response = if source == NewsSource::ProductHunt {
                Response::Failed("unreachable".to_string())
            } else {
                response_for(source, &["A", "B"])
            };
            (source, scraper.scrap(source, &response))
        })
        .collect();
    assert_eq!(outcomes.len(), 5);
    for (position, (source, outcome)) in outcomes.iter().enumerate() {
        assert_eq!(*source, NewsSource::all()[position]);
        match outcome {
            Some(Err(Error::HttpError(_))) => assert_eq!(*source, NewsSource::ProductHunt),
            Some(Ok(news)) => {
                assert_ne!(*source, NewsSource::ProductHunt);
                assert_eq!(news.len(), 2);
                assert_eq!(news[0].title, "A");
                assert_eq!(news[1].title, "B");
            }
            other => panic!("{:?}", other),
        }
    }
}

#[test]
fn no_source_gives_more_than_the_limit() {
    let titles = ["a", "b", "c", "d", "e", "f", "g"];
    for source in NewsSource::all() {
        for limit in 0..10 {
            let news = Scraper::new(limit).scrap(source, &response_for(source, &titles)).unwrap().unwrap();
            assert_eq!(news.len(), limit.min(titles.len()), "{:?} {}", source, limit);
            for (record, title) in news.iter().zip(titles.iter()) {
                assert_eq!(record.title, *title);
            }
        }
    }
}

#[test]
fn each_source_has_its_own_shape_of_record() {
    let scraper = Scraper::new(10);
    let shape = |source: NewsSource| scraper.scrap(source, &response_for(source, &["A"])).unwrap().unwrap();
    assert_eq!(shape(NewsSource::HackerNews), vec![record("A", None)]);
    assert_eq!(shape(NewsSource::ProductHunt), vec![record("A", Some("about A"))]);
    assert_eq!(shape(NewsSource::GithubTrending), vec![record("A", Some("about A"))]);
    assert_eq!(shape(NewsSource::TechMeme), vec![record("A", None)]);
    assert_eq!(shape(NewsSource::WSJ), vec![record("A", Some("about A"))]);
}

#[test]
fn every_record_has_a_title() {
    let titles = ["a", "", " ", "b"];
    for source in [NewsSource::HackerNews, NewsSource::ProductHunt, NewsSource::GithubTrending, NewsSource::TechMeme] {
        let news = Scraper::new(10).scrap(source, &response_for(source, &titles)).unwrap().unwrap();
        assert_eq!(news.len(), 2, "{:?}", source);
        assert!(news.iter().all(|record| !record.title.is_empty()));
    }
}

#[test]
fn a_feed_that_is_none_is_a_feed_error() {
    let scraper = Scraper::new(10);
    let response = Response::Bytes(b"<html>503</html>".to_vec());
    assert!(matches!(scraper.scrap(NewsSource::TechMeme, &response), Some(Err(Error::RssError(_)))));
    assert!(matches!(scraper.scrap(NewsSource::WSJ, &response), Some(Err(Error::RssError(_)))));
}

#[test]
fn wsj_without_a_title_stops_where_tech_meme_goes_on() {
    let scraper = Scraper::new(10);
    let response = feed(&["A", "", "C"]);
    assert!(scraper.scrap(NewsSource::WSJ, &response).is_none());
    assert_eq!(
        scraper.scrap(NewsSource::TechMeme, &response).unwrap().unwrap(),
        vec![record("A", None), record("C", None)]
    );
}

#[test]
fn a_body_in_the_other_form_is_not_read() {
    let scraper = Scraper::new(10);
    assert!(scraper.scrap(NewsSource::HackerNews, &feed(&["A"])).is_none());
    assert!(scraper.scrap(NewsSource::ProductHunt, &feed(&["A"])).is_none());
    assert!(scraper.scrap(NewsSource::GithubTrending, &feed(&["A"])).is_none());
    assert!(scraper.scrap(NewsSource::TechMeme, &stories(&["A"])).is_none());
    assert!(scraper.scrap(NewsSource::WSJ, &stories(&["A"])).is_none());
}

#[test]
fn extraction_is_repeatable() {
    let scraper = Scraper::new(3);
    for source in NewsSource::all() {
        let response = response_for(source, &["a", "b", "c", "d"]);
        assert_eq!(
            scraper.scrap(source, &response).unwrap().unwrap(),
            scraper.scrap(source, &response).unwrap().unwrap()
        );
    }
}
