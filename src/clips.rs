//! Clips: finding the VOD a clip comes from, and the clips of a VOD.
use vstd::prelude::*;
use vstd::string::StringExecFns;
use crate::interface::{lowercase, lowercase_of};
use crate::text::text_equals;
use crate::models::{ClipQuery, ClipResponse, ClipVars};
use crate::text::{prefixed, i64_value, int_decimal, int_to_text, parse_i64};
use crate::urls::{parse_url, url_parts_of};

verus! {

/// Why the origin of a clip could not be found.
#[derive(Debug, Clone, PartialEq, Eq)]
pub enum ClipError {
    /// The broadcast id is no integer.
    IntegerParseError(String),
    /// The URL has no path segments.
    SegmentMapError,
    HeaderNameError(String),
    HeaderValueError(String),
    /// Not a clip URL, or not one of twitch.tv.
    WrongURLError(String),
    /// The request for the clip's data failed.
    UrlProcessError(String),
}

/// The slug of a clip, from a clip URL or the slug itself: `Ok(slug)`, or
/// `Err(message)` of a URL that is no clip of twitch.tv (the empty message
/// stands for one without path segments).
pub open spec fn slug_of(s: Seq<char>) -> Result<Seq<char>, Seq<char>> {
    match url_parts_of(s) {
        None => Ok(s),
        Some((domain, segments)) => match domain {
            None => Err("Only twitch.tv URLs are supported"@),
            Some(d) => {
                let host = lowercase_of(d);
                if host == "twitch.tv"@ || host == "www.twitch.tv"@ {
                    match segments {
                        None => Err(Seq::empty()),
                        Some(sg) => if sg.len() > 2 && sg[1] == "clip"@ {
                            Ok(sg[2])
                        } else {
                            Err("Not a clip URL"@)
                        },
                    }
                } else if host == "clips.twitch.tv"@ {
                    match segments {
                        Some(sg) => if sg.len() > 0 {
                            Ok(sg[0])
                        } else {
                            Err(Seq::empty())
                        },
                        None => Err(Seq::empty()),
                    }
                } else {
                    Err("Only twitch.tv URLs are supported"@)
                }
            },
        },
    }
}

/// `e` is the error that `slug_of` describes with `message`.
pub open spec fn is_slug_error(e: ClipError, message: Seq<char>) -> bool {
    if message.len() == 0 {
        e == ClipError::SegmentMapError
    } else {
        e is WrongURLError && e->WrongURLError_0@ == message
    }
}

/// The slug of a clip, given as a `twitch.tv/{user}/clip/{slug}` or
/// `clips.twitch.tv/{slug}` URL, or as the slug itself.
pub fn extract_slug(s: String) -> (r: Result<Option<String>, ClipError>)
    ensures
        match slug_of(s@) {
            Ok(slug) => r is Ok && r->Ok_0 is Some && r->Ok_0->0@ == slug,
            Err(message) => r is Err && is_slug_error(r->Err_0, message),
        },
{
    proof {
        reveal_strlit("Only twitch.tv URLs are supported");
        reveal_strlit("Not a clip URL");
    }
    let parts = match parse_url(s.as_str()) {
        Err(_) => return Ok(Some(s)),
        Ok(p) => p,
    };
    let domain = match parts.domain {
        None => return Err(ClipError::WrongURLError(String::from_str("Only twitch.tv URLs are supported"))),
        Some(d) => d,
    };
    let host = lowercase(domain.as_str());
    if text_equals(&host, "twitch.tv") || text_equals(&host, "www.twitch.tv") {
        match parts.segments {
            None => Err(ClipError::SegmentMapError),
            Some(segments) => {
                if segments.len() > 2 && text_equals(&segments[1], "clip") {
                    assert(segments.deep_view()[2] == segments@[2]@);
                    Ok(Some(String::from_str(segments[2].as_str())))
                } else {
                    proof {
                        if segments@.len() > 2 {
                            assert(segments.deep_view()[1] == segments@[1]@);
                        }
                    }
                    Err(ClipError::WrongURLError(String::from_str("Not a clip URL")))
                }
            },
        }
    } else if text_equals(&host, "clips.twitch.tv") {
        match parts.segments {
            Some(segments) => {
                if segments.len() > 0 {
                    assert(segments.deep_view()[0] == segments@[0]@);
                    Ok(Some(String::from_str(segments[0].as_str())))
                } else {
                    Err(ClipError::SegmentMapError)
                }
            },
            None => Err(ClipError::SegmentMapError),
        }
    } else {
        Err(ClipError::WrongURLError(String::from_str("Only twitch.tv URLs are supported")))
    }
}

/// The GraphQL query for the broadcaster and broadcast of the clip `slug`.
pub fn clip_query(slug: String) -> (r: ClipQuery)
    ensures
        r.query@ == "query($slug:ID!){clip(slug: $slug){broadcaster{login}broadcast{id}}}"@,
        r.variables.slug@ == slug@,
{
    ClipQuery {
        query: String::from_str("query($slug:ID!){clip(slug: $slug){broadcaster{login}broadcast{id}}}"),
        variables: ClipVars { slug },
    }
}

/// The streamer and broadcast id that a clip comes from, from the answer of
/// the GraphQL API. Fails when the broadcast id is no `i64`.
pub fn clip_origin(response: &ClipResponse) -> (r: Result<(String, i64), ClipError>)
    ensures
        match i64_value(response.data.clip.broadcast.id@) {
            Some(id) => r is Ok && (r->Ok_0).0@ == response.data.clip.broadcaster.login@ && (r->Ok_0).1
                == id,
            None => r is Err && r->Err_0 is IntegerParseError,
        },
{
    let clip = &response.data.clip;
    match parse_i64(clip.broadcast.id.as_str()) {
        Some(id) => Ok((String::from_str(clip.broadcaster.login.as_str()), id)),
        None => Err(
            ClipError::IntegerParseError(String::from_str("invalid digit found in string")),
        ),
    }
}

/// `https://clips-media-assets2.twitch.tv/AT-cm%7C{broadcastId}-offset-{offset}-360.mp4`
pub open spec fn clip_url(broadcast_id: int, offset: int) -> Seq<char> {
    "https://clips-media-assets2.twitch.tv/AT-cm%7C"@ + int_decimal(broadcast_id) + "-offset-"@
        + int_decimal(offset) + "-360.mp4"@
}

/// The URL of the clip of a VOD at each offset from `start` up to `end`, not
/// included.
pub fn clip_candidates(broadcast_id: i64, start: i64, end: i64) -> (r: Vec<String>)
    ensures
        r@.len() == (if start < end { end - start } else { 0 }),
        forall|k: int| 0 <= k < r@.len() ==> (#[trigger] r@[k])@ == clip_url(broadcast_id as int, start + k),
{
    let id = int_to_text(broadcast_id as i128);
    let mut r: Vec<String> = Vec::new();
    let mut offset = start;
    while offset < end
        invariant
            start <= offset || end <= start,
            start < end ==> start <= offset <= end,
            start < end ==> r@.len() == offset - start,
            start >= end ==> r@.len() == 0 && offset == start,
            id@ == int_decimal(broadcast_id as int),
            forall|k: int| 0 <= k < r@.len() ==> (#[trigger] r@[k])@ == clip_url(broadcast_id as int, start + k),
        decreases end - offset,
    {
        let mut url = String::from_str("https://clips-media-assets2.twitch.tv/AT-cm%7C");
        url.append(id.as_str());
        url.append("-offset-");
        url.append(int_to_text(offset as i128).as_str());
        url.append("-360.mp4");
        assert(url@ =~= clip_url(broadcast_id as int, offset as int));
        r.push(url);
        offset = offset + 1;
    }
    r
}

/// The clip URLs that answered 200, in order.
pub open spec fn clip_hits_of(urls: Seq<Seq<char>>, statuses: Seq<Option<u16>>) -> Seq<Seq<char>>
    decreases urls.len(),
{
    if urls.len() == 0 || statuses.len() == 0 {
        seq![]
    } else {
        let earlier = clip_hits_of(urls.drop_last(), statuses.drop_last());
        if statuses.last() == Some(200u16) {
            earlier.push(urls.last())
        } else {
            earlier
        }
    }
}

/// The clips that exist: the URLs whose probe answered 200 (`statuses[i]` is
/// what `urls[i]` answered, `None` when it did not).
pub fn clip_hits(urls: &Vec<String>, statuses: &Vec<Option<u16>>) -> (r: Vec<String>)
    requires
        urls@.len() == statuses@.len(),
    ensures
        r.deep_view() == clip_hits_of(urls.deep_view(), statuses@),
{
    let mut r: Vec<String> = Vec::new();
    let mut i: usize = 0;
    while i < urls.len()
        invariant
            urls@.len() == statuses@.len(),
            0 <= i <= urls@.len(),
            r.deep_view() == clip_hits_of(urls.deep_view().subrange(0, i as int), statuses@.subrange(0, i as int)),
        decreases urls@.len() - i,
    {
        let ghost uv = urls.deep_view().subrange(0, i + 1);
        let ghost sv = statuses@.subrange(0, i + 1);
        assert(uv.drop_last() =~= urls.deep_view().subrange(0, i as int));
        assert(sv.drop_last() =~= statuses@.subrange(0, i as int));
        let ghost earlier = r.deep_view();
        if statuses[i] == Some(200u16) {
            let url = String::from_str(urls[i].as_str());
            let ghost v = url@;
            r.push(url);
            assert(r.deep_view() =~= earlier.push(v));
        }
        i = i + 1;
    }
    assert(urls.deep_view().subrange(0, urls@.len() as int) =~= urls.deep_view());
    assert(statuses@.subrange(0, statuses@.len() as int) =~= statuses@);
    r
}

impl ClipError {
    /// What went wrong, in words.
    pub fn message(&self) -> (r: String)
        ensures
            r@ == (match self {
                ClipError::IntegerParseError(e) => "couldn't parse the broadcast id: "@ + e@,
                ClipError::SegmentMapError => "couldn't map the URL segments"@,
                ClipError::HeaderNameError(e) => "invalid header name: "@ + e@,
                ClipError::HeaderValueError(e) => "invalid header value: "@ + e@,
                ClipError::WrongURLError(e) => e@,
                ClipError::UrlProcessError(e) => "couldn't process the url: "@ + e@,
            }),
    {
        match self {
            ClipError::IntegerParseError(e) => prefixed("couldn't parse the broadcast id: ", e.as_str()),
            ClipError::SegmentMapError => String::from_str("couldn't map the URL segments"),
            ClipError::HeaderNameError(e) => prefixed("invalid header name: ", e.as_str()),
            ClipError::HeaderValueError(e) => prefixed("invalid header value: ", e.as_str()),
            ClipError::WrongURLError(e) => String::from_str(e.as_str()),
            ClipError::UrlProcessError(e) => prefixed("couldn't process the url: ", e.as_str()),
        }
    }
}

} // verus!
