//! Broadcasts described by the pages of stream-tracking sites
//! (TwitchTracker and StreamsCharts).
use vstd::prelude::*;
use vstd::string::StringExecFns;
use crate::config::ProcessingType;
use crate::interface::{lowercase, lowercase_of};
use crate::models::URLData;
use crate::text::{prefixed, contains, contains_text, int_decimal, int_to_text, text_equals};
use crate::timestamp::{parse_timestamp, timestamp_value, TimestampError};
use crate::urls::{parse_url, url_parts_of};

verus! {

/// Why a tracking page gave no broadcast.
#[derive(Debug, Clone, PartialEq, Eq)]
pub enum DeriveDateError {
    /// The URL has no path segments.
    SegmentMapError,
    /// The page holds no element with the start time.
    ScraperElementError,
    /// The element with the start time lacks its attribute.
    ScraperAttributeError,
    /// The selector of the element is invalid.
    SelectorError,
    /// The start time on the page cannot be read.
    TimestampParserError(TimestampError),
    /// The page could not be fetched.
    UrlProcessError(String),
    /// The URL cannot be read.
    UrlParseError(String),
    /// Not a broadcast page of a supported site.
    WrongURLError(String),
}

/// A broadcast page of a tracking site: how the lookup proceeds, whose
/// broadcast it is and its id.
#[derive(Debug, Clone)]
pub struct TrackerPage {
    pub kind: ProcessingType,
    pub username: String,
    pub broadcast_id: String,
}

pub open spec fn unsupported_site() -> Seq<char> {
    "Only twitchtracker.com and streamscharts.com URLs are supported"@
}

/// What a tracking-site URL names: `Ok((kind, username, broadcast id))`, or
/// `Err(None)` for a URL without path segments, `Err(Some(message))` for one
/// that is no broadcast page of a supported site. `None` for no URL at all.
pub open spec fn tracker_page_of(url: Seq<char>) -> Option<
    Result<(ProcessingType, Seq<char>, Seq<char>), Option<Seq<char>>>,
> {
    match url_parts_of(url) {
        None => None,
        Some((domain, segments)) => Some(
            match domain {
                None => Err(Some(unsupported_site())),
                Some(d) => {
                    let host = lowercase_of(d);
                    if host == "twitchtracker.com"@ || host == "www.twitchtracker.com"@ {
                        match segments {
                            None => Err(None),
                            Some(sg) => if sg.len() == 3 && sg[1] == "streams"@ {
                                Ok((ProcessingType::Exact, sg[0], sg[2]))
                            } else {
                                Err(Some("Not a valid TwitchTracker VOD URL"@))
                            },
                        }
                    } else if host == "streamscharts.com"@ || host == "www.streamscharts.com"@ {
                        match segments {
                            None => Err(None),
                            Some(sg) => if sg.len() == 4 && sg[0] == "channels"@ && sg[2] == "streams"@ {
                                Ok((ProcessingType::Bruteforce, sg[1], sg[3]))
                            } else {
                                Err(Some("Not a valid StreamsCharts VOD URL"@))
                            },
                        }
                    } else {
                        Err(Some(unsupported_site()))
                    }
                },
            },
        ),
    }
}

/// The broadcast page that `url` names: `twitchtracker.com/{user}/streams/{id}`
/// for an exact lookup, `streamscharts.com/channels/{user}/streams/{id}` for
/// a bruteforce one.
pub fn tracker_page(url: &str) -> (r: Result<TrackerPage, DeriveDateError>)
    ensures
        match tracker_page_of(url@) {
            None => r is Err && r->Err_0 is UrlParseError,
            Some(Ok((kind, username, id))) => r is Ok && r->Ok_0.kind == kind && r->Ok_0.username@
                == username && r->Ok_0.broadcast_id@ == id,
            Some(Err(None)) => r == Err::<TrackerPage, DeriveDateError>(DeriveDateError::SegmentMapError),
            Some(Err(Some(message))) => r is Err && r->Err_0 is WrongURLError
                && r->Err_0->WrongURLError_0@ == message,
        },
{
    let parts = match parse_url(url) {
        Err(e) => return Err(DeriveDateError::UrlParseError(e)),
        Ok(p) => p,
    };
    let domain = match parts.domain {
        None => return Err(DeriveDateError::WrongURLError(
            String::from_str("Only twitchtracker.com and streamscharts.com URLs are supported"),
        )),
        Some(d) => d,
    };
    let host = lowercase(domain.as_str());
    if text_equals(&host, "twitchtracker.com") || text_equals(&host, "www.twitchtracker.com") {
        let segments = match parts.segments {
            None => return Err(DeriveDateError::SegmentMapError),
            Some(s) => s,
        };
        if segments.len() == 3 && text_equals(&segments[1], "streams") {
            assert(segments.deep_view()[0] == segments@[0]@);
            assert(segments.deep_view()[2] == segments@[2]@);
            Ok(TrackerPage {
                kind: ProcessingType::Exact,
                username: String::from_str(segments[0].as_str()),
                broadcast_id: String::from_str(segments[2].as_str()),
            })
        } else {
            proof {
                if segments@.len() == 3 {
                    assert(segments.deep_view()[1] == segments@[1]@);
                }
            }
            Err(DeriveDateError::WrongURLError(String::from_str("Not a valid TwitchTracker VOD URL")))
        }
    } else if text_equals(&host, "streamscharts.com") || text_equals(&host, "www.streamscharts.com") {
        let segments = match parts.segments {
            None => return Err(DeriveDateError::SegmentMapError),
            Some(s) => s,
        };
        if segments.len() == 4 && text_equals(&segments[0], "channels") && text_equals(
            &segments[2],
            "streams",
        ) {
            assert(segments.deep_view()[1] == segments@[1]@);
            assert(segments.deep_view()[3] == segments@[3]@);
            Ok(TrackerPage {
                kind: ProcessingType::Bruteforce,
                username: String::from_str(segments[1].as_str()),
                broadcast_id: String::from_str(segments[3].as_str()),
            })
        } else {
            proof {
                if segments@.len() == 4 {
                    assert(segments.deep_view()[0] == segments@[0]@);
                    assert(segments.deep_view()[2] == segments@[2]@);
                }
            }
            Err(DeriveDateError::WrongURLError(String::from_str("Not a valid StreamsCharts VOD URL")))
        }
    } else {
        Err(DeriveDateError::WrongURLError(
            String::from_str("Only twitchtracker.com and streamscharts.com URLs are supported"),
        ))
    }
}

/// The text of the first element of an HTML document that a CSS selector
/// picks: `None` for an invalid selector, `Some(None)` when nothing matches.
pub uninterp spec fn first_text_of(html: Seq<char>, selector: Seq<char>) -> Option<Option<Seq<char>>>;

/// An attribute of the first element of an HTML document that a CSS
/// selector picks: `None` for an invalid selector, `Some(None)` when nothing
/// matches, `Some(Some(None))` when the element lacks the attribute.
pub uninterp spec fn first_attr_of(html: Seq<char>, selector: Seq<char>, attr: Seq<char>) -> Option<
    Option<Option<Seq<char>>>,
>;

pub open spec fn selected_text_view(r: Option<Option<String>>) -> Option<Option<Seq<char>>> {
    match r {
        None => None,
        Some(None) => Some(None),
        Some(Some(t)) => Some(Some(t@)),
    }
}

pub open spec fn selected_attr_view(r: Option<Option<Option<String>>>) -> Option<Option<Option<Seq<char>>>> {
    match r {
        None => None,
        Some(None) => Some(None),
        Some(Some(None)) => Some(Some(None)),
        Some(Some(Some(t))) => Some(Some(Some(t@))),
    }
}

/// Relies on `scraper::Html::parse_document`, `scraper::Selector::parse`,
/// `Html::select` and `ElementRef::text` (the pieces joined).
#[verifier::external_body]
fn select_first_text(html: &str, selector: &str) -> (r: Option<Option<String>>)
    ensures
        selected_text_view(r) == first_text_of(html@, selector@),
{
    let selector = scraper::Selector::parse(selector).ok()?;
    let document = scraper::Html::parse_document(html);
    let first = document.select(&selector).next();
    Some(first.map(|e| e.text().collect::<String>()))
}

/// Relies on `scraper::Html::parse_document`, `scraper::Selector::parse`,
/// `Html::select` and `Element::attr`.
#[verifier::external_body]
fn select_first_attr(html: &str, selector: &str, attr: &str) -> (r: Option<Option<Option<String>>>)
    ensures
        selected_attr_view(r) == first_attr_of(html@, selector@, attr@),
{
    let selector = scraper::Selector::parse(selector).ok()?;
    let document = scraper::Html::parse_document(html);
    let first = document.select(&selector).next();
    Some(first.map(|e| e.value().attr(attr).map(|a| a.to_string())))
}

pub open spec fn twitchtracker_date_selector() -> Seq<char> {
    ".stream-timestamp-dt.to-dowdatetime"@
}

/// What a broadcast page says, from its HTML: on TwitchTracker the start time
/// as the page writes it; on StreamsCharts the minute either side of the
/// start time, in Unix seconds.
pub open spec fn page_dates_of(kind: ProcessingType, html: Seq<char>) -> Result<
    (Seq<char>, Option<Seq<char>>),
    DeriveDateError,
> {
    match kind {
        ProcessingType::Exact => match first_text_of(html, twitchtracker_date_selector()) {
            None => Err(DeriveDateError::SelectorError),
            Some(None) => Err(DeriveDateError::ScraperElementError),
            Some(Some(t)) => Ok((t, None)),
        },
        ProcessingType::Bruteforce => match first_attr_of(html, "time"@, "datetime"@) {
            None => Err(DeriveDateError::SelectorError),
            Some(None) => Err(DeriveDateError::ScraperElementError),
            Some(Some(None)) => Err(DeriveDateError::ScraperAttributeError),
            Some(Some(Some(t))) => match timestamp_value(t) {
                Err(e) => Err(DeriveDateError::TimestampParserError(e)),
                Ok(v) => Ok((int_decimal(v - 60), Some(int_decimal(v + 60)))),
            },
        },
    }
}

/// What the broadcast page `page` says, from its HTML `html`: the lookup to
/// make and the broadcast's data.
pub fn page_data(page: &TrackerPage, html: &str) -> (r: Result<(ProcessingType, URLData), DeriveDateError>)
    ensures
        match page_dates_of(page.kind, html@) {
            Ok((start, end)) => r is Ok && (r->Ok_0).0 == page.kind && (r->Ok_0).1.username@ == page.username@
                && (r->Ok_0).1.broadcast_id@ == page.broadcast_id@ && (r->Ok_0).1.start_date@ == start
                && match end {
                Some(e) => (r->Ok_0).1.end_date is Some && (r->Ok_0).1.end_date->0@ == e,
                None => (r->Ok_0).1.end_date is None,
            },
            Err(e) => r == Err::<(ProcessingType, URLData), DeriveDateError>(e),
        },
{
    let username = String::from_str(page.username.as_str());
    let broadcast_id = String::from_str(page.broadcast_id.as_str());
    match page.kind {
        ProcessingType::Exact => {
            match select_first_text(html, ".stream-timestamp-dt.to-dowdatetime") {
                None => Err(DeriveDateError::SelectorError),
                Some(None) => Err(DeriveDateError::ScraperElementError),
                Some(Some(start_date)) => Ok(
                    (
                        ProcessingType::Exact,
                        URLData { username, broadcast_id, start_date, end_date: None },
                    ),
                ),
            }
        },
        ProcessingType::Bruteforce => {
            match select_first_attr(html, "time", "datetime") {
                None => Err(DeriveDateError::SelectorError),
                Some(None) => Err(DeriveDateError::ScraperElementError),
                Some(Some(None)) => Err(DeriveDateError::ScraperAttributeError),
                Some(Some(Some(date))) => match parse_timestamp(date.as_str()) {
                    Err(e) => Err(DeriveDateError::TimestampParserError(e)),
                    Ok(v) => {
                        let start_date = int_to_text(v as i128 - 60);
                        let end_date = int_to_text(v as i128 + 60);
                        Ok(
                            (
                                ProcessingType::Bruteforce,
                                URLData { username, broadcast_id, start_date, end_date: Some(end_date) },
                            ),
                        )
                    },
                },
            }
        },
    }
}

/// Relies on `rand::seq::SliceRandom::choose` with `rand::thread_rng`: one
/// of the items, chosen at random; `None` only when there is none.
#[verifier::external_body]
fn choose_random(items: &Vec<String>) -> (r: Option<String>)
    ensures
        items@.len() == 0 <==> r is None,
        r is Some ==> exists|i: int| 0 <= i < items@.len() && items@[i]@ == (#[trigger] r->0@),
{
    rand::seq::SliceRandom::choose(items.as_slice(), &mut rand::thread_rng()).cloned()
}

/// The user agents that StreamsCharts accepts: those that do not say `X11;`.
pub open spec fn usable_agents_of(agents: Seq<Seq<char>>) -> Seq<Seq<char>> {
    agents.filter(|a: Seq<char>| !contains(a, "X11;"@))
}

/// The user agents of a list that StreamsCharts accepts, in order.
pub fn usable_useragents(agents: &Vec<String>) -> (r: Vec<String>)
    ensures
        r.deep_view() == usable_agents_of(agents.deep_view()),
{
    let mut r: Vec<String> = Vec::new();
    let mut i: usize = 0;
    while i < agents.len()
        invariant
            0 <= i <= agents@.len(),
            r.deep_view() == usable_agents_of(agents.deep_view().subrange(0, i as int)),
        decreases agents@.len() - i,
    {
        let ghost before = r.deep_view();
        let ghost prefix = agents.deep_view().subrange(0, i + 1);
        assert(prefix.drop_last() =~= agents.deep_view().subrange(0, i as int));
        assert(prefix.last() == agents@[i as int]@);
        reveal(Seq::filter);
        if !contains_text(agents[i].as_str(), "X11;") {
            let agent = String::from_str(agents[i].as_str());
            let ghost v = agent@;
            r.push(agent);
            assert(r.deep_view() =~= before.push(v));
        }
        i = i + 1;
    }
    assert(agents.deep_view().subrange(0, agents@.len() as int) =~= agents.deep_view());
    r
}

/// The user agent for a request to a tracking site: one at random of the
/// usable ones among `agents` (see `usable_useragents`), or curl's when there
/// is none or no list could be had.
pub fn pick_useragent(agents: Option<Vec<String>>) -> (r: String)
    ensures
        match agents {
            None => r@ == crate::config::CURL_UA@,
            Some(list) => if usable_agents_of(list.deep_view()).len() == 0 {
                r@ == crate::config::CURL_UA@
            } else {
                usable_agents_of(list.deep_view()).contains(r@)
            },
        },
{
    match agents {
        None => String::from_str(crate::config::CURL_UA),
        Some(list) => {
            let usable = usable_useragents(&list);
            match choose_random(&usable) {
                Some(agent) => {
                    proof {
                        let i = choose|i: int| 0 <= i < usable@.len() && usable@[i]@ == agent@;
                        assert(usable.deep_view()[i] == agent@);
                    }
                    agent
                },
                None => String::from_str(crate::config::CURL_UA),
            }
        },
    }
}

impl DeriveDateError {
    /// What went wrong, in words.
    pub fn message(&self) -> (r: String)
        ensures
            r@ == (match self {
                DeriveDateError::SegmentMapError => "couldn't map the URL segments"@,
                DeriveDateError::ScraperElementError => "couldn't find the nth html element"@,
                DeriveDateError::ScraperAttributeError => "couldn't find the html attribute"@,
                DeriveDateError::SelectorError => "couldn't parse the selector"@,
                DeriveDateError::TimestampParserError(e) => match e {
                    TimestampError::InvalidNumber => "couldn't parse the unix timestamp"@,
                    TimestampError::InvalidDate => "couldn't parse the string timestamp"@,
                },
                DeriveDateError::UrlProcessError(e) => "couldn't process the url: "@ + e@,
                DeriveDateError::UrlParseError(e) => "couldn't parse the url: "@ + e@,
                DeriveDateError::WrongURLError(e) => e@,
            }),
    {
        match self {
            DeriveDateError::SegmentMapError => String::from_str("couldn't map the URL segments"),
            DeriveDateError::ScraperElementError => String::from_str("couldn't find the nth html element"),
            DeriveDateError::ScraperAttributeError => String::from_str("couldn't find the html attribute"),
            DeriveDateError::SelectorError => String::from_str("couldn't parse the selector"),
            DeriveDateError::TimestampParserError(e) => e.message(),
            DeriveDateError::UrlProcessError(e) => prefixed("couldn't process the url: ", e.as_str()),
            DeriveDateError::UrlParseError(e) => prefixed("couldn't parse the url: ", e.as_str()),
            DeriveDateError::WrongURLError(e) => String::from_str(e.as_str()),
        }
    }
}

} // verus!
