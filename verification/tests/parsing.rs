use std::str::FromStr;

use webcrawler::domain::Domain;
use webcrawler::error::{CrawlError, ErrorType};
use webcrawler::parsing::{parse_domain, parse_html_links};

#[test]
fn test_domain_parsing() {
    let valid_uri_query =
        hyper::Uri::from_str("https://www.webcrawler.com/nb-urls?domain=https://docs.rs").unwrap();
    let missing_parameter_uri = hyper::Uri::from_str("https://www.webcrawler.com/nb-urls").unwrap();

    assert_eq!(
        parse_domain(valid_uri_query.query()),
        Ok(String::from("docs.rs"))
    );
    assert_eq!(
        parse_domain(missing_parameter_uri.query()),
        Err(CrawlError::new(ErrorType::MissingParameter))
    );
}

#[test]
fn test_html_parsing() {
    let domain = Domain::new("https://docs.rs").unwrap();
    let html = r##"
            <a href="#">
            <a href="/someotherdocumentation">
            <p>Nothing special</p>
            <a href="https://docs.rs/hyper/0.12.32/hyper/">
            "##
    .to_owned();
    let mut links = parse_html_links(&domain, &html).into_iter();
    let first = links.next().unwrap();
    assert!(url::Url::parse(&first).unwrap().has_host());
    assert_eq!(
        links.next().unwrap(),
        url::Url::parse("https://docs.rs/hyper/0.12.32/hyper/")
            .unwrap()
            .as_str()
    );
}

#[test]
fn query_without_domain_parameter_is_missing() {
    assert_eq!(
        parse_domain(Some("other=1&more=2")),
        Err(CrawlError::new(ErrorType::MissingParameter))
    );
}

#[test]
fn domain_parameter_that_does_not_parse_gives_422() {
    let err = parse_domain(Some("domain=")).unwrap_err();
    assert_eq!(err.kind, ErrorType::WrongDomain);
    assert_eq!(err.code, 422);
}

#[test]
fn domain_parameter_without_host_gives_400() {
    let err = parse_domain(Some("domain=mailto:x@y.test")).unwrap_err();
    assert_eq!(err.kind, ErrorType::WrongDomain);
    assert_eq!(err.code, 400);
}

#[test]
fn first_domain_parameter_wins() {
    assert_eq!(
        parse_domain(Some("domain=https://first.test&domain=https://second.test")),
        Ok(String::from("first.test"))
    );
}

#[test]
fn hyperlink_resolution_and_scope_filtering() {
    // a page for domain `example.test` with a fragment link, a relative
    // path and an out-of-domain absolute link yields exactly one
    // in-domain URL once the scope guard has filtered the candidates
    let domain = Domain::new("https://example.test").unwrap();
    let html = r##"<a href="#"><a href="/docs"><a href="https://other.test/x">"##;
    let links = parse_html_links(&domain, html);
    let in_scope: Vec<String> = links
        .into_iter()
        .filter(|link| domain.is_in_domain(link))
        .collect();
    assert_eq!(in_scope, vec![String::from("https://example.test/docs")]);
}

#[test]
fn an_empty_query_has_no_domain_parameter() {
    assert_eq!(
        parse_domain(Some("")),
        Err(CrawlError::new(ErrorType::MissingParameter))
    );
}
