//! The values that the lookups build and return.
use vstd::prelude::*;

verus! {

/// One candidate playlist URL of a bruteforce search: a timestamp on one CDN.
#[derive(Debug, Clone)]
pub struct TwitchURL {
    pub full_url: String,
    pub hash: String,
    pub timestamp: i64,
}

/// The three URLs that tell whether a VOD is on one CDN: its first segment,
/// unmuted and muted, and its playlist.
#[derive(Debug, Clone)]
pub struct AvailabilityCheck {
    pub fragment: String,
    pub fragment_muted: String,
    pub playlist: String,
}

/// A playlist URL on which the VOD was found, and whether it is muted.
#[derive(Debug, Clone, PartialEq, Eq)]
pub struct ReturnURL {
    pub playlist: String,
    pub muted: bool,
}

impl DeepView for ReturnURL {
    type V = (Seq<char>, bool);

    open spec fn deep_view(&self) -> (Seq<char>, bool) {
        (self.playlist@, self.muted)
    }
}

/// What a page of a stream-tracking site says of a broadcast.
#[derive(Debug, Clone, PartialEq, Eq)]
pub struct URLData {
    pub username: String,
    pub broadcast_id: String,
    pub start_date: String,
    pub end_date: Option<String>,
}

/// A list of extra CDN hostnames, as a configuration file holds it.
#[derive(Debug, Clone)]
pub struct CDNFile {
    pub cdns: Vec<String>,
}

/// The answer of the GraphQL API to a clip query.
#[derive(Debug, Clone)]
pub struct ClipResponse {
    pub data: ClipData,
}

/// The answer of the GraphQL API to a live stream query.
#[derive(Debug, Clone)]
pub struct VodResponse {
    pub data: VodData,
}

#[derive(Debug, Clone)]
pub struct ClipData {
    pub clip: Clip,
}

#[derive(Debug, Clone)]
pub struct VodData {
    pub user: User,
}

/// Whose broadcast a clip comes from.
#[derive(Debug, Clone)]
pub struct Clip {
    pub broadcaster: Broadcaster,
    pub broadcast: Broadcast,
}

/// A streamer, and the stream that is live now, if any.
#[derive(Debug, Clone)]
pub struct User {
    pub stream: Option<Stream>,
}

/// A live stream: its broadcast id and its start time.
#[derive(Debug, Clone)]
pub struct Stream {
    pub id: String,
    pub created_at: String,
}

#[derive(Debug, Clone)]
pub struct Broadcaster {
    pub login: String,
}

#[derive(Debug, Clone)]
pub struct Broadcast {
    pub id: String,
}

#[derive(Debug, Clone)]
pub struct ClipVars {
    pub slug: String,
}

#[derive(Debug, Clone)]
pub struct VodVars {
    pub login: String,
}

/// A GraphQL query for the broadcast that a clip comes from.
#[derive(Debug, Clone)]
pub struct ClipQuery {
    pub query: String,
    pub variables: ClipVars,
}

/// A GraphQL query for the stream that a streamer has live now.
#[derive(Debug, Clone)]
pub struct VodQuery {
    pub query: String,
    pub variables: VodVars,
}

} // verus!
