use webcrawler::domain::Domain;
use webcrawler::error::{CrawlError, ErrorType};

#[test]
fn test_domain() {
    let candidate_url = "https://www.theguardian.com/international";
    let domain = Domain::new(candidate_url).unwrap();
    assert_eq!(domain.get_name(), String::from("www.theguardian.com"));
    assert_eq!(
        domain.get_original_url(),
        "https://www.theguardian.com/international"
    );
    let invalid_url = "htp:/theguardian..com";
    assert_eq!(
        Domain::new(invalid_url).unwrap_err(),
        CrawlError::new(ErrorType::WrongDomain)
    );
}

#[test]
fn test_domain_api() {
    let domain = Domain::new("https://www.theguardian.com/international").unwrap();
    assert_eq!(domain.get_name(), "www.theguardian.com");
    assert_eq!(
        domain.get_original_url(),
        "https://www.theguardian.com/international"
    );

    let in_domain = "https://www.theguardian.com/uk/lifeandstyle";
    assert!(domain.is_in_domain(in_domain));
    let other_domain = "https://www.nytimes.com/section/world";
    assert!(!domain.is_in_domain(other_domain));

    assert_eq!(
        domain.create_url_from_path("uk/sports"),
        url::Url::parse("https://www.theguardian.com/uk/sports")
            .unwrap()
            .as_str()
    );
}

#[test]
fn domain_without_host_is_rejected_with_400() {
    // parses as a URL, but its scheme leaves it without a domain host
    let err = Domain::new("mailto:someone@example.test").unwrap_err();
    assert_eq!(err.kind, ErrorType::WrongDomain);
    assert_eq!(err.code, 400);
}

#[test]
fn unparsable_seed_is_a_domain_construction_failure() {
    let err = Domain::new("htp:/broken").unwrap_err();
    assert_eq!(err.kind, ErrorType::WrongDomain);
    let err = Domain::new("").unwrap_err();
    assert_eq!(err.kind, ErrorType::WrongDomain);
    assert_eq!(err.code, 422);
}

#[test]
fn domain_clone_keeps_name_and_seed() {
    let domain = Domain::new("https://example.test/start").unwrap();
    let copy = domain.clone();
    assert_eq!(copy.get_name(), domain.get_name());
    assert_eq!(copy.get_original_url(), domain.get_original_url());
}
