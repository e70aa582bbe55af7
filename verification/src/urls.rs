//! The boundary to the `url` crate: parsing a candidate URL, reading its
//! host, and substituting a path onto a base URL.  What those calls return
//! is named by uninterpreted spec functions; everything downstream is
//! proved against those names.

use vstd::prelude::*;

verus! {

/// The views of a vector of strings.
pub open spec fn views_of(v: Seq<String>) -> Seq<Seq<char>> {
    v.map_values(|s: String| s@)
}

/// Whether `url::Url::parse` accepts `s` as an absolute URL.
pub uninterp spec fn url_ok(s: Seq<char>) -> bool;

/// The domain host of the URL parsed from `s` (`Url::domain`), where
/// `url_ok(s)` holds; `None` for URLs without a domain host.
pub uninterp spec fn url_host(s: Seq<char>) -> Option<Seq<char>>;

/// The serialization (`Url::as_str`) of the URL parsed from `s`, where
/// `url_ok(s)` holds.
pub uninterp spec fn url_norm(s: Seq<char>) -> Seq<char>;

/// The serialization of the URL parsed from `base` after `Url::set_path`
/// substituted `path`, where `url_ok(base)` holds.
pub uninterp spec fn url_join(base: Seq<char>, path: Seq<char>) -> Seq<char>;

/// Whether `u` is a URL whose domain host is exactly `name`.
pub open spec fn in_domain(name: Seq<char>, u: Seq<char>) -> bool {
    url_ok(u) && url_host(u) == Some(name)
}

/// Relies on `url::Url::parse`, `Url::as_str` and `Url::domain`: parsing
/// either fails or yields a URL with a serialization and an optional domain
/// host, all functions of `s` alone.  A serialization parses back to the
/// same URL (`as_str` documents this round trip), so its own serialization
/// and host repeat those of `s`.
#[verifier::external_body]
pub(crate) fn parse_url(s: &str) -> (r: Option<(String, Option<String>)>)
    ensures
        r is Some <==> url_ok(s@),
        r matches Some(p) ==> p.0@ == url_norm(s@),
        r matches Some(p) ==> match p.1 {
            Some(h) => url_host(s@) == Some(h@),
            None => url_host(s@) is None,
        },
        r matches Some(p) ==> url_ok(p.0@) && url_norm(p.0@) == p.0@ && url_host(p.0@) == url_host(
            s@,
        ),
{
    match url::Url::parse(s) {
        Ok(u) => Some((u.as_str().to_owned(), u.domain().map(|d| d.to_owned()))),
        Err(_) => None,
    }
}

/// Relies on `url::Url::set_path`: replacing the path of the URL parsed
/// from `base` and serializing again is a function of `base` and `path`
/// alone.
#[verifier::external_body]
pub(crate) fn join_path(base: &str, path: &str) -> (r: String)
    requires
        url_ok(base@),
    ensures
        r@ == url_join(base@, path@),
{
    let mut u = url::Url::parse(base).unwrap();
    u.set_path(path);
    String::from(u.as_str())
}

} // verus!
