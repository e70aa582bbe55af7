//! The domain scope guard: the registrable host a crawl stays inside, and
//! the seed URL whose authority resolves relative links.

use vstd::prelude::*;

use crate::error::{CrawlError, ErrorType};
use crate::urls::{in_domain, join_path, parse_url, url_host, url_join, url_norm, url_ok};

verus! {

/// A crawl's target: the domain host of the seed URL, and the seed URL
/// itself in serialized form.  Construction rejects a seed that does not
/// parse or has no domain host; a value of this type never changes.
#[derive(Debug)]
pub struct Domain {
    domain_name: String,
    original_url: String,
}

impl Domain {
    /// The domain host this crawl stays inside.
    pub closed spec fn spec_name(&self) -> Seq<char> {
        self.domain_name@
    }

    /// The serialized seed URL.
    pub closed spec fn spec_url(&self) -> Seq<char> {
        self.original_url@
    }

    /// The seed URL parses, its host is the domain name, and it is already
    /// in serialized form.
    #[verifier::type_invariant]
    pub open spec fn wf(&self) -> bool {
        &&& url_ok(self.spec_url())
        &&& url_host(self.spec_url()) == Some(self.spec_name())
        &&& url_norm(self.spec_url()) == self.spec_url()
    }

    /// Validates the requested URL and builds the crawl's domain: the URL
    /// must parse and have a domain host.  A URL that does not parse is
    /// reported under 422, one without a domain host under 400, both as
    /// `WrongDomain`.
    pub fn new(candidate_url: &str) -> (r: Result<Self, CrawlError>)
        ensures
            r is Ok <==> url_ok(candidate_url@) && url_host(candidate_url@) is Some,
            r matches Ok(d) ==> d.spec_url() == url_norm(candidate_url@) && Some(d.spec_name())
                == url_host(candidate_url@),
            !url_ok(candidate_url@) ==> r == Result::<Self, CrawlError>::Err(CrawlError {
                kind: ErrorType::WrongDomain,
                code: 422u16,
            }),
            url_ok(candidate_url@) && url_host(candidate_url@) is None ==> r == Result::<
                Self,
                CrawlError,
            >::Err(CrawlError { kind: ErrorType::WrongDomain, code: 400u16 }),
    {
        match parse_url(candidate_url) {
            None => Err(CrawlError { kind: ErrorType::WrongDomain, code: 422 }),
            Some((serialized, host)) => match host {
                None => Err(CrawlError::new(ErrorType::WrongDomain)),
                Some(name) => Ok(Domain { domain_name: name, original_url: serialized }),
            },
        }
    }

    /// The domain name, as an owned string.
    pub fn get_name(&self) -> (r: String)
        ensures
            r@ == self.spec_name(),
    {
        self.domain_name.clone()
    }

    /// The originally requested URL, serialized.
    pub fn get_original_url(&self) -> (r: &str)
        ensures
            r@ == self.spec_url(),
    {
        self.original_url.as_str()
    }

    /// Substitutes `path` onto the seed URL's authority, preserving scheme
    /// and host.
    pub fn create_url_from_path(&self, path: &str) -> (r: String)
        ensures
            r@ == url_join(self.spec_url(), path@),
    {
        proof {
            use_type_invariant(self);
        }
        join_path(self.original_url.as_str(), path)
    }

    /// Whether `link` is a URL whose domain host equals this domain's name
    /// exactly; a link without a domain host is never in scope.
    pub fn is_in_domain(&self, link: &str) -> (r: bool)
        ensures
            r == in_domain(self.spec_name(), link@),
    {
        match parse_url(link) {
            None => false,
            Some((_, host)) => match host {
                None => false,
                Some(h) => h == self.domain_name,
            },
        }
    }
}

impl Clone for Domain {
    /// A copy with the same name and seed URL.
    fn clone(&self) -> (r: Self)
        ensures
            r.spec_name() == self.spec_name(),
            r.spec_url() == self.spec_url(),
    {
        proof {
            use_type_invariant(self);
        }
        Domain { domain_name: self.domain_name.clone(), original_url: self.original_url.clone() }
    }
}

} // verus!
