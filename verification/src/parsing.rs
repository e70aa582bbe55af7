//! Turning fetched text into candidate URLs: the hyperlinks of an HTML
//! page, resolved against the crawl's seed, and the `domain` parameter of
//! a request's query string, validated as a domain.

use vstd::prelude::*;

use crate::domain::Domain;
use crate::error::{CrawlError, ErrorType};
use crate::urls::{parse_url, url_host, url_join, url_norm, url_ok, views_of};

verus! {

/// The `href` attribute values of the `a` elements of `html`, in document
/// order.
pub uninterp spec fn hrefs_of(html: Seq<char>) -> Seq<Seq<char>>;

/// Relies on `scraper::Html::parse_document`, `Selector::parse` and the
/// element iteration they drive: the `href` values of a document's `a`
/// elements, in document order, are a function of the markup alone.
#[verifier::external_body]
pub(crate) fn extract_hrefs(html: &str) -> (r: Vec<String>)
    ensures
        views_of(r@) == hrefs_of(html@),
{
    let dom = scraper::Html::parse_document(html);
    let selector = scraper::Selector::parse("a").unwrap();
    let mut hrefs = Vec::new();
    for element in dom.select(&selector) {
        if let Some(href) = element.value().attr("href") {
            hrefs.push(href.to_owned());
        }
    }
    hrefs
}

/// What one `href` value contributes: a path beginning with `/` is
/// substituted onto the seed's authority, anything else is kept only if it
/// parses as an absolute URL, in serialized form.
pub open spec fn resolve_href(base: Seq<char>, href: Seq<char>) -> Option<Seq<char>> {
    if href.len() > 0 && href[0] == '/' {
        Some(url_join(base, href))
    } else if url_ok(href) {
        Some(url_norm(href))
    } else {
        None
    }
}

/// The candidate URLs that a list of `href` values yields against the
/// seed `base`, in order, dropping values that resolve to nothing.
pub open spec fn resolved_links(base: Seq<char>, hrefs: Seq<Seq<char>>) -> Seq<Seq<char>>
    decreases hrefs.len(),
{
    if hrefs.len() == 0 {
        Seq::empty()
    } else {
        let rest = resolved_links(base, hrefs.drop_first());
        match resolve_href(base, hrefs[0]) {
            Some(u) => seq![u] + rest,
            None => rest,
        }
    }
}

/// Every hyperlink found in `html`, resolved against `domain`'s seed URL:
/// paths beginning with `/` are completed with the seed's authority, other
/// values are kept when they parse as absolute URLs.  Out-of-scope links
/// are kept here; the claim step of the crawl filters them.
pub fn parse_html_links(domain: &Domain, html: &str) -> (links: Vec<String>)
    ensures
        views_of(links@) == resolved_links(domain.spec_url(), hrefs_of(html@)),
{
    let ghost base = domain.spec_url();
    let hrefs = extract_hrefs(html);
    let ghost all = views_of(hrefs@);
    let mut links: Vec<String> = Vec::new();
    let mut i: usize = 0;
    proof {
        assert(all.skip(0) =~= all);
        assert(views_of(links@) =~= Seq::<Seq<char>>::empty());
        assert(Seq::<Seq<char>>::empty() + resolved_links(base, all) =~= resolved_links(
            base,
            all,
        ));
    }
    while i < hrefs.len()
        invariant
            i <= hrefs@.len(),
            all == views_of(hrefs@),
            all == hrefs_of(html@),
            base == domain.spec_url(),
            views_of(links@) + resolved_links(base, all.skip(i as int)) == resolved_links(
                base,
                all,
            ),
        decreases hrefs@.len() - i,
    {
        proof {
            assert(all.skip(i as int).drop_first() =~= all.skip(i as int + 1));
            assert(all.skip(i as int)[0] == all[i as int]);
            assert(all[i as int] == hrefs@[i as int]@);
        }
        let href: &String = &hrefs[i];
        let ghost links0 = views_of(links@);
        let ghost contributed = resolve_href(base, all[i as int]);
        if href.as_str().unicode_len() > 0 && href.as_str().get_char(0) == '/' {
            links.push(domain.create_url_from_path(href.as_str()));
        } else {
            match parse_url(href.as_str()) {
                Some((serialized, _)) => {
                    links.push(serialized);
                },
                None => {},
            }
        }
        proof {
            match contributed {
                Some(u) => {
                    assert(views_of(links@) =~= links0.push(u));
                    assert(links0.push(u) + resolved_links(base, all.skip(i as int + 1)) =~= links0
                        + (seq![u] + resolved_links(base, all.skip(i as int + 1))));
                },
                None => {
                    assert(views_of(links@) =~= links0);
                },
            }
        }
        i = i + 1;
    }
    proof {
        assert(all.skip(i as int) =~= Seq::<Seq<char>>::empty());
        assert(views_of(links@) =~= resolved_links(base, all));
    }
    links
}

/// The views of a vector of string pairs.
pub open spec fn pair_views(v: Seq<(String, String)>) -> Seq<(Seq<char>, Seq<char>)> {
    v.map_values(|p: (String, String)| (p.0@, p.1@))
}

/// The key/value pairs of the query string `q`, decoded as
/// `application/x-www-form-urlencoded`, in order.
pub uninterp spec fn query_params(q: Seq<char>) -> Seq<(Seq<char>, Seq<char>)>;

/// Relies on `url::form_urlencoded::parse`: the decoded key/value pairs of
/// a query string, in order, are a function of the text alone.
#[verifier::external_body]
pub(crate) fn parse_query_pairs(q: &str) -> (r: Vec<(String, String)>)
    ensures
        pair_views(r@) == query_params(q@),
{
    url::form_urlencoded::parse(q.as_bytes()).into_owned().collect()
}

/// The value of the first `domain` parameter among decoded query pairs.
pub open spec fn find_domain_param(pairs: Seq<(Seq<char>, Seq<char>)>) -> Option<Seq<char>>
    decreases pairs.len(),
{
    if pairs.len() == 0 {
        None
    } else if pairs[0].0 == "domain"@ {
        Some(pairs[0].1)
    } else {
        find_domain_param(pairs.drop_first())
    }
}

/// The `domain` parameter that a request's query string carries.
pub open spec fn domain_param_of(query: Option<Seq<char>>) -> Option<Seq<char>> {
    match query {
        Some(q) => find_domain_param(query_params(q)),
        None => None,
    }
}

/// Reads a well-formed domain name from a GET request's query string: the
/// first `domain` parameter, which must parse as a URL with a domain host;
/// its host is returned.  A missing parameter is reported as
/// `MissingParameter`, a value that does not parse or has no domain host
/// as `WrongDomain`.
pub fn parse_domain(query: Option<&str>) -> (r: Result<String, CrawlError>)
    ensures
        match domain_param_of(match query {
            Some(q) => Some(q@),
            None => None,
        }) {
            None => r == Result::<String, CrawlError>::Err(CrawlError {
                kind: ErrorType::MissingParameter,
                code: 400u16,
            }),
            Some(p) => {
                if !url_ok(p) {
                    r == Result::<String, CrawlError>::Err(CrawlError {
                        kind: ErrorType::WrongDomain,
                        code: 422u16,
                    })
                } else {
                    match url_host(p) {
                        None => r == Result::<String, CrawlError>::Err(CrawlError {
                            kind: ErrorType::WrongDomain,
                            code: 400u16,
                        }),
                        Some(h) => r matches Ok(name) && name@ == h,
                    }
                }
            },
        },
{
    if query.is_none() {
        return Err(CrawlError::new(ErrorType::MissingParameter));
    }
    let q = query.unwrap();
    let pairs = parse_query_pairs(q);
    let ghost all = pair_views(pairs@);
    let key: String = String::from_str("domain");
    let mut i: usize = 0;
    proof {
        assert(all.skip(0) =~= all);
    }
    while i < pairs.len()
        invariant
            i <= pairs@.len(),
            all == pair_views(pairs@),
            all == query_params(q@),
            query is Some && q == query.unwrap(),
            key@ == "domain"@,
            find_domain_param(all) == find_domain_param(all.skip(i as int)),
        decreases pairs@.len() - i,
    {
        proof {
            assert(all.skip(i as int).drop_first() =~= all.skip(i as int + 1));
            assert(all.skip(i as int)[0] == all[i as int]);
            assert(all[i as int] == (pairs@[i as int].0@, pairs@[i as int].1@));
        }
        if pairs[i].0 == key {
            proof {
                assert(all.skip(i as int)[0].0 == "domain"@);
                assert(find_domain_param(all.skip(i as int)) == Some(all[i as int].1));
            }
            let value: &String = &pairs[i].1;
            return match parse_url(value.as_str()) {
                None => Err(CrawlError { kind: ErrorType::WrongDomain, code: 422 }),
                Some((_, host)) => match host {
                    None => Err(CrawlError::new(ErrorType::WrongDomain)),
                    Some(h) => Ok(h),
                },
            };
        }
        i = i + 1;
    }
    proof {
        assert(all.skip(i as int) =~= Seq::<(Seq<char>, Seq<char>)>::empty());
    }
    Err(CrawlError::new(ErrorType::MissingParameter))
}

} // verus!
