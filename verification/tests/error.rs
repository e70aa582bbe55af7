use webcrawler::error::{CrawlError, ErrorType};

#[test]
fn each_error_kind_has_its_status_code() {
    assert_eq!(CrawlError::new(ErrorType::Hyper).code, 500);
    assert_eq!(CrawlError::new(ErrorType::WrongDomain).code, 400);
    assert_eq!(CrawlError::new(ErrorType::DomainNotFound).code, 422);
    assert_eq!(CrawlError::new(ErrorType::DataBase).code, 500);
    assert_eq!(CrawlError::new(ErrorType::MissingParameter).code, 400);
    assert_eq!(CrawlError::new(ErrorType::DomainNotCrawled).code, 404);
    assert_eq!(CrawlError::new(ErrorType::ScrapError).code, 500);
    assert_eq!(CrawlError::new(ErrorType::FetchError).code, 502);
    assert_eq!(CrawlError::new(ErrorType::EnvError).code, 500);
}

#[test]
fn each_error_kind_has_its_message() {
    assert_eq!(
        CrawlError::new(ErrorType::DataBase).message(),
        "Internal server error"
    );
    assert_eq!(
        CrawlError::new(ErrorType::WrongDomain).message(),
        "Wrong domain, please check that the domain is well formatted"
    );
    assert_eq!(
        CrawlError::new(ErrorType::DomainNotFound).message(),
        "Domain not found"
    );
    assert_eq!(
        CrawlError::new(ErrorType::DomainNotCrawled).message(),
        "Domain not previously crawled"
    );
    assert_eq!(
        CrawlError::new(ErrorType::MissingParameter).message(),
        "Your request should contain a domain parameter"
    );
    assert_eq!(
        CrawlError::new(ErrorType::FetchError).message(),
        "Could not fetch url"
    );
    assert_eq!(
        CrawlError::new(ErrorType::EnvError).message(),
        "Error with environment variables"
    );
}

#[test]
fn errors_serialize_as_a_json_error_object() {
    assert_eq!(
        CrawlError::new(ErrorType::DomainNotFound).to_json(),
        "{\"error\":\"Domain not found\"}"
    );
}
