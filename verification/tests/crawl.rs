use webcrawler::crawler::{crawl, Crawler, PageStore, UrlSet, Verdict};
use webcrawler::domain::Domain;
use webcrawler::json::UrlsJson;

fn example_domain() -> Domain {
    Domain::new("https://example.test/").unwrap()
}

#[test]
fn crawl_discovers_reachable_in_domain_urls() {
    let domain = example_domain();
    let mut pages = PageStore::new();
    pages.add_page(
        "https://example.test/",
        r##"<a href="/a"><a href="/b"><a href="https://other.test/x">"##,
    );
    pages.add_page("https://example.test/a", r##"<a href="/c">"##);
    let result = crawl(&domain, 50, None, &pages);
    assert_eq!(result.domain_crawled, "example.test");
    assert_eq!(
        result.urls,
        vec![
            String::from("https://example.test/"),
            String::from("https://example.test/a"),
            String::from("https://example.test/b"),
            String::from("https://example.test/c"),
        ]
    );
    assert_eq!(result.nb_urls, 4);
}

#[test]
fn crawl_deduplicates_urls_and_counts_them() {
    let domain = example_domain();
    let mut pages = PageStore::new();
    pages.add_page(
        "https://example.test/",
        r##"<a href="/a"><a href="/a"><a href="/a">"##,
    );
    pages.add_page("https://example.test/a", r##"<a href="/">"##);
    let result = crawl(&domain, 50, None, &pages);
    assert_eq!(result.nb_urls, result.urls.len());
    for i in 0..result.urls.len() {
        for j in 0..i {
            assert_ne!(result.urls[i], result.urls[j]);
        }
    }
    assert_eq!(result.nb_urls, 2);
}

#[test]
fn crawl_never_exceeds_the_limit() {
    let domain = example_domain();
    let mut pages = PageStore::new();
    pages.add_page(
        "https://example.test/",
        r##"<a href="/a"><a href="/b"><a href="/c"><a href="/d">"##,
    );
    let result = crawl(&domain, 2, None, &pages);
    assert_eq!(result.nb_urls, 2);
    assert_eq!(
        result.urls,
        vec![
            String::from("https://example.test/"),
            String::from("https://example.test/a"),
        ]
    );
}

#[test]
fn cached_result_replays_without_fetching() {
    let domain = example_domain();
    let mut cached = UrlSet::new();
    cached.insert("https://example.test/kept");
    cached.insert("https://example.test/also-kept");
    // a fresh crawl over these pages would find different URLs
    let mut pages = PageStore::new();
    pages.add_page("https://example.test/", r##"<a href="/other">"##);
    let result = crawl(&domain, 50, Some(cached), &pages);
    assert_eq!(
        result.urls,
        vec![
            String::from("https://example.test/kept"),
            String::from("https://example.test/also-kept"),
        ]
    );
    assert_eq!(result.nb_urls, 2);
}

#[test]
fn out_of_domain_links_only_yield_the_seed_alone() {
    let domain = example_domain();
    let mut pages = PageStore::new();
    pages.add_page(
        "https://example.test/",
        r##"<a href="https://other.test/x"><a href="https://elsewhere.test/y">"##,
    );
    let result = crawl(&domain, 50, None, &pages);
    assert_eq!(result.urls, vec![String::from("https://example.test/")]);
    assert_eq!(result.nb_urls, 1);
}

#[test]
fn fetch_failure_contributes_no_links() {
    let domain = example_domain();
    // no page recorded at all: every fetch fails, the seed is still claimed
    let pages = PageStore::new();
    let result = crawl(&domain, 50, None, &pages);
    assert_eq!(result.urls, vec![String::from("https://example.test/")]);
}

#[test]
fn second_claim_of_a_url_is_rejected() {
    let domain = example_domain();
    let mut crawler = Crawler::new(domain, 50);
    assert_eq!(crawler.claim("https://example.test/page"), Verdict::Claimed);
    assert_eq!(
        crawler.claim("https://example.test/page"),
        Verdict::AlreadyVisited
    );
}

#[test]
fn claims_respect_scope_and_limit() {
    let domain = example_domain();
    let mut crawler = Crawler::new(domain, 1);
    assert_eq!(
        crawler.claim("https://other.test/page"),
        Verdict::OutsideDomain
    );
    assert_eq!(crawler.claim("https://example.test/"), Verdict::Claimed);
    assert_eq!(crawler.claim("https://example.test/b"), Verdict::LimitReached);
}

#[test]
fn a_url_linked_from_two_pages_is_fetched_once() {
    let domain = example_domain();
    let mut pages = PageStore::new();
    pages.add_page(
        "https://example.test/",
        r##"<a href="/a"><a href="/b">"##,
    );
    pages.add_page("https://example.test/a", r##"<a href="/shared">"##);
    pages.add_page("https://example.test/b", r##"<a href="/shared">"##);
    let result = crawl(&domain, 50, None, &pages);
    let shared: Vec<&String> = result
        .urls
        .iter()
        .filter(|u| u.as_str() == "https://example.test/shared")
        .collect();
    assert_eq!(shared.len(), 1);
}

#[test]
fn url_set_deduplicates_and_keeps_order() {
    let mut set = UrlSet::new();
    assert!(set.insert("https://example.test/a"));
    assert!(set.insert("https://example.test/b"));
    assert!(!set.insert("https://example.test/a"));
    assert_eq!(set.len(), 2);
    assert!(set.contains("https://example.test/b"));
    assert!(!set.contains("https://example.test/c"));
    assert_eq!(
        set.into_vec(),
        vec![
            String::from("https://example.test/a"),
            String::from("https://example.test/b"),
        ]
    );
}

#[test]
fn page_store_serves_first_recorded_body() {
    let mut pages = PageStore::new();
    pages.add_page("https://example.test/", "first");
    pages.add_page("https://example.test/", "second");
    assert_eq!(
        pages.fetch("https://example.test/"),
        Some(String::from("first"))
    );
    assert_eq!(pages.fetch("https://example.test/other"), None);
}

#[test]
fn urls_json_packages_a_set() {
    let mut set = UrlSet::new();
    set.insert("https://example.test/");
    set.insert("https://example.test/a");
    let json: UrlsJson = UrlsJson::new("example.test", set);
    assert_eq!(json.domain_crawled, "example.test");
    assert_eq!(json.nb_urls, 2);
    assert_eq!(
        json.urls,
        vec![
            String::from("https://example.test/"),
            String::from("https://example.test/a"),
        ]
    );
}

#[test]
fn a_zero_limit_claims_nothing() {
    let domain = example_domain();
    let mut pages = PageStore::new();
    pages.add_page("https://example.test/", r##"<a href="/a">"##);
    let result = crawl(&domain, 0, None, &pages);
    assert_eq!(result.nb_urls, 0);
    assert!(result.urls.is_empty());
}
