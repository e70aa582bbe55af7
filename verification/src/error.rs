//! The error type shared by every request: a kind, and the HTTP status
//! code under which the front end reports it.

use vstd::prelude::*;

verus! {

/// The kinds of failure a crawl request can run into.
#[derive(Clone, Copy, Debug, PartialEq, Eq, Structural)]
pub enum ErrorType {
    WrongDomain,
    DomainNotFound,
    Hyper,
    DataBase,
    MissingParameter,
    DomainNotCrawled,
    ScrapError,
    FetchError,
    EnvError,
}

/// An error together with the HTTP status code it is reported under.
#[derive(Clone, Copy, Debug, PartialEq, Eq, Structural)]
pub struct CrawlError {
    pub kind: ErrorType,
    pub code: u16,
}

/// The status code that `CrawlError::new` assigns to each kind.
pub open spec fn status_of(kind: ErrorType) -> u16 {
    match kind {
        ErrorType::Hyper => 500,
        ErrorType::WrongDomain => 400,
        ErrorType::DomainNotFound => 422,
        ErrorType::DataBase => 500,
        ErrorType::MissingParameter => 400,
        ErrorType::DomainNotCrawled => 404,
        ErrorType::ScrapError => 500,
        ErrorType::FetchError => 502,
        ErrorType::EnvError => 500,
    }
}

/// The human-readable message attached to each kind.
pub open spec fn message_of(kind: ErrorType) -> Seq<char> {
    match kind {
        ErrorType::DataBase => "Internal server error"@,
        ErrorType::Hyper => "Internal server error"@,
        ErrorType::ScrapError => "Internal server error"@,
        ErrorType::WrongDomain => "Wrong domain, please check that the domain is well formatted"@,
        ErrorType::DomainNotFound => "Domain not found"@,
        ErrorType::DomainNotCrawled => "Domain not previously crawled"@,
        ErrorType::MissingParameter => "Your request should contain a domain parameter"@,
        ErrorType::FetchError => "Could not fetch url"@,
        ErrorType::EnvError => "Error with environment variables"@,
    }
}

impl CrawlError {
    /// Builds the error for a kind, with its canonical status code.
    pub fn new(kind: ErrorType) -> (r: Self)
        ensures
            r.kind == kind,
            r.code == status_of(kind),
    {
        CrawlError {
            code: match kind {
                ErrorType::Hyper => 500,
                ErrorType::WrongDomain => 400,
                ErrorType::DomainNotFound => 422,
                ErrorType::DataBase => 500,
                ErrorType::MissingParameter => 400,
                ErrorType::DomainNotCrawled => 404,
                ErrorType::ScrapError => 500,
                ErrorType::FetchError => 502,
                ErrorType::EnvError => 500,
            },
            kind,
        }
    }

    /// The message for this error's kind.
    pub fn message(&self) -> (r: String)
        ensures
            r@ == message_of(self.kind),
    {
        match self.kind {
            ErrorType::DataBase => "Internal server error".to_owned(),
            ErrorType::Hyper => "Internal server error".to_owned(),
            ErrorType::ScrapError => "Internal server error".to_owned(),
            ErrorType::WrongDomain => "Wrong domain, please check that the domain is well formatted".to_owned(),
            ErrorType::DomainNotFound => "Domain not found".to_owned(),
            ErrorType::DomainNotCrawled => "Domain not previously crawled".to_owned(),
            ErrorType::MissingParameter => "Your request should contain a domain parameter".to_owned(),
            ErrorType::FetchError => "Could not fetch url".to_owned(),
            ErrorType::EnvError => "Error with environment variables".to_owned(),
        }
    }

    /// The message wrapped as the body of an error response,
    /// a JSON object with one `error` member.
    pub fn to_json(&self) -> (r: String)
        ensures
            r@ == "{\"error\":\""@ + message_of(self.kind) + "\"}"@,
    {
        let mut out: String = "{\"error\":\"".to_owned();
        out.append(self.message().as_str());
        out.append("\"}");
        out
    }
}

} // verus!
