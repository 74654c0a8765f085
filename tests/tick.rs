use rss_transmission::db::Torrent;
use rss_transmission::feed::{feed_items, TickError};
use rss_transmission::poller::{Action, Event, Tick};
use rss_transmission::submit::SubmitOutcome;

fn feed(items: &str) -> Vec<u8> {
    format!(
        "<?xml version=\"1.0\"?><rss version=\"2.0\"><channel><title>f</title>\
         <link>http://x/</link><description>d</description>{}</channel></rss>",
        items
    )
    .into_bytes()
}

fn item(guid: &str, url: &str) -> String {
    format!(
        "<item><guid>{}</guid><title>{}</title><enclosure url=\"{}\" length=\"1\" type=\"application/x-bittorrent\"/></item>",
        guid, guid, url
    )
}

/// Runs one tick against a store held as a list of records and a daemon
/// given as a function; returns the result and the URLs submitted.
fn run(
    items: Vec<Torrent>,
    store: &mut Vec<Torrent>,
    daemon: &dyn Fn(&Torrent) -> SubmitOutcome,
) -> (Result<(), TickError>, Vec<String>) {
    let mut tick = Tick::new(items);
    let mut submitted = Vec::new();
    loop {
        let ev = match tick.action() {
            Action::Lookup => {
                let guid = &tick.current().guid;
                Event::Found(store.iter().any(|t| &t.guid == guid))
            }
            Action::Submit => {
                submitted.push(tick.current().torrent_url.clone());
                Event::Replied(daemon(tick.current()))
            }
            Action::Store => {
                store.push(tick.current().clone());
                Event::Stored
            }
            Action::Finish => break,
        };
        tick.advance(ev);
    }
    (tick.into_result(), submitted)
}

fn accept_all(_: &Torrent) -> SubmitOutcome {
    SubmitOutcome::Accepted
}

#[test]
fn one_item_recorded_once() {
    let body = feed(
        "<item><guid>g1</guid><title>T</title>\
         <enclosure url=\"http://x/t.torrent\" length=\"100\" type=\"application/x-bittorrent\"/></item>",
    );
    let mut store = Vec::new();
    let items = feed_items(200, &body).unwrap();
    let (r, submitted) = run(items, &mut store, &accept_all);
    assert_eq!(r, Ok(()));
    assert_eq!(submitted, vec!["http://x/t.torrent".to_string()]);
    assert_eq!(store.len(), 1);
    assert_eq!(store[0].guid, "g1");
    assert_eq!(store[0].title, "T");
    assert_eq!(store[0].torrent_url, "http://x/t.torrent");
    assert_eq!(store[0].torrent_size, 100);

    let items = feed_items(200, &body).unwrap();
    let (r, submitted) = run(items, &mut store, &accept_all);
    assert_eq!(r, Ok(()));
    assert!(submitted.is_empty());
    assert_eq!(store.len(), 1);
}

#[test]
fn same_identifier_twice_in_one_tick() {
    let body = feed(&format!("{}{}", item("g", "http://x/1"), item("g", "http://x/2")));
    let mut store = Vec::new();
    let (r, submitted) = run(feed_items(200, &body).unwrap(), &mut store, &accept_all);
    assert_eq!(r, Ok(()));
    assert_eq!(submitted, vec!["http://x/1".to_string()]);
    assert_eq!(store.len(), 1);
}

#[test]
fn failure_stops_the_batch_and_next_tick_retries() {
    let body = feed(&format!(
        "{}{}{}",
        item("a", "http://x/a"),
        item("b", "http://x/b"),
        item("c", "http://x/c")
    ));
    let mut store = Vec::new();
    let reject_b = |t: &Torrent| {
        if t.guid == "b" {
            SubmitOutcome::Rejected { reason: "duplicate torrent".to_string() }
        } else {
            SubmitOutcome::Accepted
        }
    };
    let (r, submitted) = run(feed_items(200, &body).unwrap(), &mut store, &reject_b);
    assert_eq!(r, Err(TickError::Rejected { reason: "duplicate torrent".to_string() }));
    assert_eq!(submitted, vec!["http://x/a".to_string(), "http://x/b".to_string()]);
    assert_eq!(store.len(), 1);
    assert_eq!(store[0].guid, "a");

    let (r, submitted) = run(feed_items(200, &body).unwrap(), &mut store, &accept_all);
    assert_eq!(r, Ok(()));
    assert_eq!(submitted, vec!["http://x/b".to_string(), "http://x/c".to_string()]);
    assert_eq!(store.len(), 3);
}

#[test]
fn transport_error_stops_the_tick() {
    let body = feed(&item("a", "http://x/a"));
    let mut store = Vec::new();
    let (r, _) = run(feed_items(200, &body).unwrap(), &mut store, &|_: &Torrent| {
        SubmitOutcome::TransportError
    });
    assert_eq!(r, Err(TickError::Transport));
    assert!(store.is_empty());
}

#[test]
fn store_failures_stop_the_tick() {
    let mut tick = Tick::new(feed_items(200, &feed(&item("a", "http://x/a"))).unwrap());
    tick.advance(Event::LookupFailed);
    assert_eq!(tick.action(), Action::Finish);
    assert_eq!(tick.into_result(), Err(TickError::Lookup));

    let mut tick = Tick::new(feed_items(200, &feed(&item("a", "http://x/a"))).unwrap());
    tick.advance(Event::Found(false));
    assert_eq!(tick.action(), Action::Submit);
    tick.advance(Event::Replied(SubmitOutcome::Accepted));
    assert_eq!(tick.action(), Action::Store);
    tick.advance(Event::StoreFailed);
    assert_eq!(tick.into_result(), Err(TickError::Store));
}

#[test]
fn missing_fields_take_defaults() {
    let body = feed(
        "<item><title>no guid</title><enclosure url=\"http://x/n\" length=\"\" type=\"t\"/></item>\
         <item><title>no enclosure</title></item>\
         <item><guid>z</guid><enclosure url=\"http://x/z\" length=\"big\" type=\"t\"/></item>",
    );
    let items = feed_items(200, &body).unwrap();
    assert_eq!(items.len(), 3);
    assert_eq!(items[0].guid, "");
    assert_eq!(items[0].torrent_size, 0);
    assert_eq!(items[1].guid, "");
    assert_eq!(items[1].link, "");
    assert_eq!(items[1].torrent_url, "");
    assert_eq!(items[1].torrent_size, 0);
    assert_eq!(items[2].title, "");
    assert_eq!(items[2].torrent_size, 0);

    let mut store = Vec::new();
    let (r, submitted) = run(items, &mut store, &accept_all);
    assert_eq!(r, Ok(()));
    assert_eq!(submitted, vec!["http://x/n".to_string(), "http://x/z".to_string()]);
    assert_eq!(store.len(), 2);
}

#[test]
fn failed_fetch_records_nothing() {
    assert_eq!(
        feed_items(404, &feed(&item("a", "http://x/a"))).err(),
        Some(TickError::Status { code: 404 })
    );
    assert_eq!(
        feed_items(200, b"this is not a feed").err(),
        Some(TickError::Parse)
    );
    let mut store = Vec::new();
    let (r, submitted) = run(
        feed_items(200, &feed(&item("a", "http://x/a"))).unwrap(),
        &mut store,
        &accept_all,
    );
    assert_eq!(r, Ok(()));
    assert_eq!(submitted.len(), 1);
    assert_eq!(store.len(), 1);
}

#[test]
fn two_feeds_do_not_interfere() {
    let mut store = Vec::new();
    let mut good_results = Vec::new();
    for n in 0..3 {
        let bad = feed_items(503, &feed(&item("shared", "http://bad/x")));
        assert_eq!(bad.err(), Some(TickError::Status { code: 503 }));
        let guid = format!("good{}", n);
        let url = format!("http://good/{}", n);
        let good = feed_items(200, &feed(&item(&guid, &url))).unwrap();
        let (r, submitted) = run(good, &mut store, &accept_all);
        good_results.push(r);
        assert_eq!(submitted, vec![url]);
    }
    assert_eq!(good_results, vec![Ok(()), Ok(()), Ok(())]);
    assert_eq!(store.len(), 3);
}

#[test]
fn empty_feed_finishes_at_once() {
    let tick = Tick::new(feed_items(200, &feed("")).unwrap());
    assert_eq!(tick.action(), Action::Finish);
    assert_eq!(tick.into_result(), Ok(()));
}
