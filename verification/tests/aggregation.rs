//! Aggregation behaviour against real syndication documents.

use strss::feed::{Feed, FetchError};

fn doc(title: &str, link: &str, items: &str) -> Vec<u8> {
    format!(
        "<rss version=\"2.0\"><channel><title>{}</title><link>{}</link>\
         <description>d</description>{}</channel></rss>",
        title, link, items
    )
    .into_bytes()
}

fn item(title: &str, pub_date: Option<&str>, guid: Option<&str>) -> String {
    let mut s = format!("<item><title>{}</title>", title);
    if let Some(d) = pub_date {
        s.push_str(&format!("<pubDate>{}</pubDate>", d));
    }
    if let Some(g) = guid {
        s.push_str(&format!("<guid>{}</guid>", g));
    }
    s.push_str("</item>");
    s
}

fn titles(feed: &Feed) -> Vec<String> {
    feed.items
        .iter()
        .map(|i| i.title.clone().unwrap_or_default())
        .collect()
}

#[test]
fn order_across_documents() {
    // One document holds a 2020 item and an epoch item, the other an item
    // with no timestamp at all: most recent first, the undated one last.
    let d1 = doc(
        "alpha",
        "http://alpha.example",
        &(item("recent", Some("Thu, 02 Jan 2020 10:00:00 GMT"), Some("a1"))
            + &item("epoch", Some("Thu, 01 Jan 1970 00:00:00 GMT"), Some("a2"))),
    );
    let d2 = doc(
        "beta",
        "http://beta.example",
        &item("undated", None, Some("b1")),
    );
    let feed = Feed::new(String::from("reading"), vec![d1, d2]);
    assert_eq!(titles(&feed), vec!["recent", "epoch", "undated"]);
}

#[test]
fn unreadable_timestamp_sorts_after_valid() {
    let d = doc(
        "alpha",
        "http://alpha.example",
        &(item("garbled", Some("not a timestamp"), Some("g"))
            + &item("epoch", Some("Thu, 01 Jan 1970 00:00:00 GMT"), Some("e"))),
    );
    let feed = Feed::new(String::from("reading"), vec![d]);
    assert_eq!(titles(&feed), vec!["epoch", "garbled"]);
}

#[test]
fn aggregation_is_deterministic() {
    let docs = vec![
        doc(
            "alpha",
            "http://alpha.example",
            &(item("one", Some("Thu, 02 Jan 2020 10:00:00 GMT"), Some("1"))
                + &item("two", Some("Fri, 03 Jan 2020 10:00:00 GMT"), Some("2"))),
        ),
        doc("beta", "http://beta.example", &item("three", None, Some("3"))),
    ];
    let f1 = Feed::new(String::from("reading"), docs.clone());
    let f2 = Feed::new(String::from("reading"), docs);
    assert_eq!(f1.items, f2.items);
    assert_eq!(f1.channels, f2.channels);
}

#[test]
fn add_then_rederive_equals_single_derivation() {
    let d1 = doc(
        "alpha",
        "http://alpha.example",
        &item("one", Some("Thu, 02 Jan 2020 10:00:00 GMT"), Some("1")),
    );
    let d2 = doc(
        "beta",
        "http://beta.example",
        &item("two", Some("Thu, 01 Jan 1970 00:00:00 GMT"), Some("2")),
    );
    let mut grown = Feed::new(String::from("reading"), vec![d1.clone()]);
    grown.add(&d2).expect("the document parses");
    let whole = Feed::new(String::from("reading"), vec![d1, d2]);
    assert_eq!(grown.channels, whole.channels);
    assert_eq!(grown.items, whole.items);
}

#[test]
fn add_failure_leaves_feed_untouched() {
    let d1 = doc(
        "alpha",
        "http://alpha.example",
        &item("one", Some("Thu, 02 Jan 2020 10:00:00 GMT"), Some("1")),
    );
    let mut feed = Feed::new(String::from("reading"), vec![d1]);
    let before_items = feed.items.clone();
    let before_channels = feed.channels.clone();
    let r = feed.add(b"this is no syndication document");
    assert_eq!(r, Err(FetchError::Parse));
    assert_eq!(feed.items, before_items);
    assert_eq!(feed.channels, before_channels);
}

#[test]
fn documents_that_do_not_parse_are_dropped() {
    let good = doc(
        "alpha",
        "http://alpha.example",
        &item("one", None, Some("1")),
    );
    let bad = b"<html>no channel here</html>".to_vec();
    let feed = Feed::new(String::from("reading"), vec![bad, good]);
    assert_eq!(feed.channels.len(), 1);
    assert_eq!(feed.channels[0].title, "alpha");
    assert_eq!(feed.items.len(), 1);
}

#[test]
fn items_are_tagged_with_their_origin() {
    let d1 = doc(
        "alpha",
        "http://alpha.example",
        &item("one", Some("Thu, 02 Jan 2020 10:00:00 GMT"), Some("1")),
    );
    let d2 = doc("beta", "http://beta.example", &item("two", None, Some("2")));
    let feed = Feed::new(String::from("reading"), vec![d1, d2]);
    assert_eq!(feed.items.len(), 2);
    for it in &feed.items {
        let source = it.source.as_ref().expect("aggregation sets the origin");
        match it.title.as_deref() {
            Some("one") => {
                assert_eq!(source.url, "http://alpha.example");
                assert_eq!(source.title.as_deref(), Some("alpha"));
            }
            Some("two") => {
                assert_eq!(source.url, "http://beta.example");
                assert_eq!(source.title.as_deref(), Some("beta"));
            }
            other => panic!("unexpected item {:?}", other),
        }
    }
}

#[test]
fn feed_name_and_id_start_equal() {
    let feed = Feed::new(String::from("reading"), vec![]);
    assert_eq!(feed.id, "reading");
    assert_eq!(feed.name, "reading");
    assert_eq!(feed.channels.len(), 0);
    assert_eq!(feed.items.len(), 0);
}
