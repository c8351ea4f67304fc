//! Navigation state machine behaviour.

use strss::feed::{Feed, Item};
use strss::state::{Page, PageState, State};

fn doc(title: &str, link: &str, items: &str) -> Vec<u8> {
    format!(
        "<rss version=\"2.0\"><channel><title>{}</title><link>{}</link>\
         <description>d</description>{}</channel></rss>",
        title, link, items
    )
    .into_bytes()
}

fn reading_feed() -> Feed {
    let d = doc(
        "alpha",
        "http://alpha.example",
        "<item><title>one</title><guid>g1</guid>\
         <pubDate>Thu, 02 Jan 2020 10:00:00 GMT</pubDate></item>",
    );
    Feed::new(String::from("reading"), vec![d])
}

#[test]
fn missing_feed_resolves_to_empty() {
    // A lookup that fails is a valid terminal display state, not an error.
    let mut state = State::new();
    state.navigate(Page::Feed(String::from("missing-id")));
    assert!(matches!(state.page_state, PageState::Empty));
    assert_eq!(state.scroll, 0);
}

#[test]
fn navigate_resets_scroll() {
    let mut state = State::new();
    state.feeds.insert(reading_feed());
    state.scroll_down();
    state.scroll_down();
    state.scroll_down();
    assert_eq!(state.scroll, 3);
    state.navigate(Page::Feed(String::from("reading")));
    assert_eq!(state.scroll, 0);
    match &state.page_state {
        PageState::Feed { id, feed } => {
            assert_eq!(id, "reading");
            assert_eq!(feed.items.len(), 1);
        }
        other => panic!("expected a feed view, got {:?}", other),
    }
}

#[test]
fn scroll_floor_stays_at_zero() {
    let mut state = State::new();
    assert_eq!(state.scroll, 0);
    state.scroll_up();
    state.scroll_up();
    state.scroll_up();
    assert_eq!(state.scroll, 0);
    state.scroll_down();
    state.scroll_up();
    state.scroll_up();
    assert_eq!(state.scroll, 0);
}

#[test]
fn navigate_to_article_carries_item_and_identifier() {
    let mut state = State::new();
    let item = Item {
        title: Some(String::from("one")),
        content: Some(String::from("<p>body</p>")),
        pub_date: None,
        guid: Some(String::from("g1")),
        source: None,
    };
    state.navigate(Page::Article(item.clone()));
    assert_eq!(state.scroll, 0);
    match &state.page_state {
        PageState::Article { id, item: got } => {
            assert_eq!(id, "g1");
            assert_eq!(*got, item);
        }
        other => panic!("expected an article view, got {:?}", other),
    }
    assert!(matches!(state.page, Page::Article(_)));
}

#[test]
fn feed_view_is_a_snapshot() {
    // Mutating the registry after navigation leaves the resolved view as it
    // was at resolution time.
    let mut state = State::new();
    state.feeds.insert(reading_feed());
    state.navigate(Page::Feed(String::from("reading")));
    let seen_before = match &state.page_state {
        PageState::Feed { feed, .. } => feed.items.len(),
        other => panic!("expected a feed view, got {:?}", other),
    };
    let mut grown = reading_feed();
    grown
        .add(&doc(
            "beta",
            "http://beta.example",
            "<item><title>two</title><guid>g2</guid></item>",
        ))
        .expect("the document parses");
    state.feeds.insert(grown);
    match &state.page_state {
        PageState::Feed { feed, .. } => assert_eq!(feed.items.len(), seen_before),
        other => panic!("expected a feed view, got {:?}", other),
    }
}

#[test]
fn registry_insert_replaces_by_identifier() {
    let mut state = State::new();
    state.feeds.insert(reading_feed());
    let mut grown = reading_feed();
    grown
        .add(&doc(
            "beta",
            "http://beta.example",
            "<item><title>two</title><guid>g2</guid></item>",
        ))
        .expect("the document parses");
    state.feeds.insert(grown);
    let feed = state.feeds.get("reading").expect("the feed is registered");
    assert_eq!(feed.channels.len(), 2);
    assert!(state.feeds.get("other").is_none());
}

#[test]
fn registry_distinguishes_identifiers() {
    let mut state = State::new();
    state.feeds.insert(reading_feed());
    let other = Feed::new(
        String::from("other"),
        vec![doc(
            "beta",
            "http://beta.example",
            "<item><title>two</title><guid>g2</guid></item>",
        )],
    );
    state.feeds.insert(other);
    assert_eq!(state.feeds.get("reading").unwrap().channels[0].title, "alpha");
    assert_eq!(state.feeds.get("other").unwrap().channels[0].title, "beta");
    state.navigate(Page::Feed(String::from("other")));
    match &state.page_state {
        PageState::Feed { id, feed } => {
            assert_eq!(id, "other");
            assert_eq!(feed.name, "other");
        }
        other => panic!("expected a feed view, got {:?}", other),
    }
}

#[test]
fn on_tick_changes_nothing() {
    let mut state = State::new();
    state.scroll_down();
    state.on_tick();
    assert_eq!(state.scroll, 1);
}

#[test]
fn navigate_empty_clears_the_view() {
    let mut state = State::new();
    state.feeds.insert(reading_feed());
    state.navigate(Page::Feed(String::from("reading")));
    state.navigate(Page::Empty);
    assert!(matches!(state.page_state, PageState::Empty));
    assert!(matches!(state.page, Page::Empty));
    assert_eq!(state.scroll, 0);
}
