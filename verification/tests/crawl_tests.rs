use url_crawler::data_store::{DataStore, DataStoreEntry, Store};
use url_crawler::link::url_parts;
use url_crawler::task::{acquire_work, process_page, WorkerStep};
use url_crawler::url_frontier::{Dequeue, URLFrontierBuilder};

/// The scripted site of the end-to-end scenario: the seed page links to
/// `/about`, `/contact` and an out-of-scope host; the two local pages are
/// empty; any other URL fails with a transport error.
fn scripted_links(seed: &str, url: &str) -> Option<Vec<String>> {
    if url == seed {
        Some(vec![
            format!("{}/about", seed),
            format!("{}/contact", seed),
            "http://google.com".to_owned(),
        ])
    } else if url == format!("{}/about", seed) || url == format!("{}/contact", seed) {
        Some(vec![])
    } else {
        None
    }
}

/// Drives `workers_n` worker loops round-robin over one shared frontier
/// and store, each worker doing one full iteration per turn (mirroring the
/// lock discipline under which one worker's whole iteration serializes
/// against the others), until every worker has observed an empty frontier.
fn run_crawl(seed: &str, workers_n: usize, delay_s: u64) -> Store {
    let parts = url_parts(seed).unwrap();
    let mut frontier = URLFrontierBuilder::new()
        .value(seed.to_owned())
        .delay_s(delay_s)
        .build();
    let mut store = Store::new();
    let mut done = vec![false; workers_n];
    while done.iter().any(|d| !d) {
        for w in 0..workers_n {
            if done[w] {
                continue;
            }
            match acquire_work(&mut frontier, &store) {
                WorkerStep::Done => done[w] = true,
                WorkerStep::Revisit => {}
                WorkerStep::Fetch(url) => {
                    if let Some(raw_links) = scripted_links(seed, &url) {
                        process_page(&mut store, &mut frontier, &url, &raw_links, &parts);
                    }
                }
            }
        }
    }
    store
}

#[test]
fn crawl_populates_data_store_as_expected() {
    let seed = "http://localhost:45367";
    let about = format!("{}/about", seed);
    let contact = format!("{}/contact", seed);

    let mut store = run_crawl(seed, 1, 0);

    assert_eq!(
        store.get(seed),
        Some(&DataStoreEntry {
            visited: true,
            urls_found: vec![about.clone(), contact.clone(), "http://google.com".to_owned()]
        })
    );
    assert_eq!(
        store.get(&about),
        Some(&DataStoreEntry {
            visited: true,
            urls_found: vec![]
        })
    );
    assert_eq!(
        store.get(&contact),
        Some(&DataStoreEntry {
            visited: true,
            urls_found: vec![]
        })
    );
    // The out-of-scope URL is recorded as a discovery of the seed page but
    // never fetched, so no record of its own exists.
    assert!(!store.exists_key("http://google.com"));
    // And nothing later makes it visited.
    store.visited("http://google.com");
    assert!(!store.has_visited("http://google.com"));
}

#[test]
fn pool_equivalence_one_vs_three_workers() {
    let seed = "http://localhost:45367";

    let one = run_crawl(seed, 1, 0);
    let three = run_crawl(seed, 3, 0);

    assert_eq!(one, three);
}

#[test]
fn revisit_guard_skips_already_visited_urls() {
    let seed = "http://host.example".to_owned();
    let parts = url_parts(&seed).unwrap();
    let mut frontier = URLFrontierBuilder::new()
        .value(seed.clone())
        .value(seed.clone())
        .build();
    let mut store = Store::new();

    match acquire_work(&mut frontier, &store) {
        WorkerStep::Fetch(url) => {
            let no_links: Vec<String> = vec![];
            process_page(&mut store, &mut frontier, &url, &no_links, &parts);
        }
        _ => panic!("expected the first copy of the seed"),
    }

    assert!(matches!(
        acquire_work(&mut frontier, &store),
        WorkerStep::Revisit
    ));
    assert!(matches!(acquire_work(&mut frontier, &store), WorkerStep::Done));
}

#[test]
fn failed_fetch_leaves_url_unvisited() {
    let seed = "http://host.example".to_owned();
    let mut frontier = URLFrontierBuilder::new().value(seed.clone()).build();
    let store = Store::new();

    match acquire_work(&mut frontier, &store) {
        WorkerStep::Fetch(url) => {
            assert_eq!(url, seed);
            // The transport fails here: the iteration is abandoned and the
            // store is never touched.
        }
        _ => panic!("expected work"),
    }

    assert!(!store.exists_key(&seed));
    assert!(!store.has_visited(&seed));
}

#[test]
fn out_of_scope_discoveries_are_recorded_but_not_enqueued() {
    let seed = "http://host.example".to_owned();
    let parts = url_parts(&seed).unwrap();
    let mut frontier = URLFrontierBuilder::new().build();
    let mut store = Store::new();
    let links = vec!["http://google.com".to_owned()];

    process_page(&mut store, &mut frontier, &seed, &links, &parts);

    assert_eq!(
        store.get(&seed),
        Some(&DataStoreEntry {
            visited: true,
            urls_found: vec!["http://google.com".to_owned()]
        })
    );
    assert_eq!(frontier.dequeue(), None);
}
