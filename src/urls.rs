//! The parts of a URL that the lookups read.
use vstd::prelude::*;

verus! {

/// The host's domain and the path's segments of a parsed URL.
#[derive(Debug, Clone)]
pub struct UrlParts {
    /// `None` when the host is no domain (an IP address, or none at all).
    pub domain: Option<String>,
    /// `None` when the URL cannot be a base (`mailto:` and the like).
    pub segments: Option<Vec<String>>,
}

pub open spec fn opt_text(o: Option<String>) -> Option<Seq<char>> {
    match o {
        Some(s) => Some(s@),
        None => None,
    }
}

pub open spec fn opt_texts(o: Option<Vec<String>>) -> Option<Seq<Seq<char>>> {
    match o {
        Some(v) => Some(v.deep_view()),
        None => None,
    }
}

/// The domain and path segments of `s` read as an absolute URL, `None` when
/// it is none.
pub uninterp spec fn url_parts_of(s: Seq<char>) -> Option<(Option<Seq<char>>, Option<Seq<Seq<char>>>)>;

/// Relies on `url::Url::parse` to read the URL, and on `Url::domain` and
/// `Url::path_segments` of what it gives; an error comes with its message.
#[verifier::external_body]
pub(crate) fn parse_url(s: &str) -> (r: Result<UrlParts, String>)
    ensures
        match r {
            Ok(p) => url_parts_of(s@) == Some((opt_text(p.domain), opt_texts(p.segments))),
            Err(_) => url_parts_of(s@) is None,
        },
{
    match url::Url::parse(s) {
        Ok(u) => Ok(UrlParts {
            domain: u.domain().map(|d| d.to_string()),
            segments: u.path_segments().map(|c| c.map(|p| p.to_string()).collect()),
        }),
        Err(e) => Err(e.to_string()),
    }
}

} // verus!
