//! The response bodies the service serves: the URL set discovered for a
//! domain, the bare count, and the error payload.

use vstd::prelude::*;

use crate::crawler::UrlSet;
use crate::urls::views_of;

verus! {

/// The result set of a crawl: the domain's name, the discovered URLs, and
/// how many there are.
#[derive(Debug)]
pub struct UrlsJson {
    pub nb_urls: usize,
    pub domain_crawled: String,
    pub urls: Vec<String>,
}

impl UrlsJson {
    /// Packages a visited set as the response for `domain_name`: the URLs
    /// in the order they were claimed, and their exact count.
    pub fn new(domain_name: &str, set: UrlSet) -> (r: UrlsJson)
        ensures
            r.domain_crawled@ == domain_name@,
            views_of(r.urls@) == set@,
            r.nb_urls == set@.len(),
            views_of(r.urls@).no_duplicates(),
    {
        proof {
            use_type_invariant(&set);
        }
        let urls = set.into_vec();
        UrlsJson { nb_urls: urls.len(), domain_crawled: String::from_str(domain_name), urls }
    }
}

/// A result set has set semantics: a list of URLs without duplicates, as
/// every crawl and every packaged visited set produces, counts exactly as
/// many entries as it has distinct URLs, so `nb_urls` is the cardinality
/// of the set of URLs served.
pub proof fn lemma_result_set_cardinality(urls: Seq<Seq<char>>)
    requires
        urls.no_duplicates(),
    ensures
        urls.to_set().len() == urls.len(),
{
    urls.unique_seq_to_set();
}

/// The count-only response for a domain.
#[derive(Debug)]
pub struct NbJson {
    pub nb_urls: usize,
    pub domain_crawled: String,
}

/// The payload of an error response.
#[derive(Debug)]
pub struct ErrorJson {
    pub error: String,
}

} // verus!
