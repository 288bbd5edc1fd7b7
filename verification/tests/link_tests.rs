use url_crawler::link::{filter_url, process_url, url_parts, Error};

#[test]
fn url_parts_extracts_scheme_and_host() {
    let parts = url_parts("http://host.example/some/path").unwrap();

    assert_eq!(parts.scheme, "http");
    assert_eq!(parts.host, "host.example");
}

#[test]
fn url_parts_keeps_port_in_host() {
    let parts = url_parts("http://localhost:45367").unwrap();

    assert_eq!(parts.scheme, "http");
    assert_eq!(parts.host, "localhost:45367");
}

#[test]
fn url_parts_rejects_malformed_seeds() {
    assert_eq!(url_parts("no scheme here"), Err(Error::MalformedUrl));
    assert_eq!(url_parts("://missing.scheme"), Err(Error::MalformedUrl));
    assert_eq!(url_parts("http://"), Err(Error::MalformedUrl));
    assert_eq!(url_parts(""), Err(Error::MalformedUrl));
}

#[test]
fn process_url_keeps_absolute_hrefs() {
    let resolved = process_url("http://other.example/x".to_owned(), "http://host.example");

    assert_eq!(resolved, "http://other.example/x");
}

#[test]
fn process_url_resolves_path_relative_hrefs() {
    let resolved = process_url("/about".to_owned(), "http://host.example/index");

    assert_eq!(resolved, "http://host.example/about");
}

#[test]
fn process_url_resolves_protocol_relative_hrefs() {
    let resolved = process_url("//cdn.example/lib.js".to_owned(), "https://host.example");

    assert_eq!(resolved, "https://cdn.example/lib.js");
}

#[test]
fn process_url_degrades_to_literal_on_malformed_hrefs() {
    assert_eq!(
        process_url("about.html".to_owned(), "http://host.example"),
        "about.html"
    );
    // A page whose own URL has no parts cannot anchor a relative href.
    assert_eq!(process_url("/about".to_owned(), "not a url"), "/about");
}

#[test]
fn scope_filter_keeps_same_host_urls_unchanged() {
    let parts = url_parts("http://host.example").unwrap();

    assert_eq!(
        filter_url("http://host.example/about".to_owned(), &parts),
        Some("http://host.example/about".to_owned())
    );
}

#[test]
fn scope_filter_drops_other_hosts() {
    let parts = url_parts("http://host.example").unwrap();

    assert_eq!(filter_url("http://other.example".to_owned(), &parts), None);
    assert_eq!(filter_url("about.html".to_owned(), &parts), None);
}
