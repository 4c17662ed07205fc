//! Candidate URLs of a VOD and what the probes of them mean.
use vstd::prelude::*;
use vstd::string::StringExecFns;
use crate::hash::{vod_hash, vod_hash_of};
use crate::models::{AvailabilityCheck, ReturnURL, TwitchURL, VodQuery, VodResponse, VodVars};
use crate::text::{prefixed, i64_value, int_decimal, int_to_text, parse_i64};
use crate::timestamp::{parse_timestamp, timestamp_value, TimestampError};

verus! {

/// The directory of a VOD on a CDN: `{hash}_{username}_{broadcastId}_{timestamp}`.
pub open spec fn vod_dir(hash: Seq<char>, username: Seq<char>, broadcast_id: int, timestamp: int) -> Seq<char> {
    hash + seq!['_'] + username + seq!['_'] + int_decimal(broadcast_id) + seq!['_'] + int_decimal(timestamp)
}

/// `https://{host}/{dir}/chunked/{file}`
pub open spec fn cdn_url(host: Seq<char>, dir: Seq<char>, file: Seq<char>) -> Seq<char> {
    "https://"@ + host + seq!['/'] + dir + "/chunked/"@ + file
}

pub open spec fn playlist_file() -> Seq<char> {
    "index-dvr.m3u8"@
}

pub open spec fn fragment_file() -> Seq<char> {
    "1.ts"@
}

pub open spec fn muted_fragment_file() -> Seq<char> {
    "1-muted.ts"@
}

/// `c` is the candidate of the VOD at `timestamp` on `host`.
pub open spec fn is_candidate(
    c: TwitchURL,
    username: Seq<char>,
    broadcast_id: int,
    timestamp: int,
    host: Seq<char>,
) -> bool {
    let hash = vod_hash_of(username, broadcast_id, timestamp);
    &&& c.hash@ == hash
    &&& c.timestamp == timestamp
    &&& c.full_url@ == cdn_url(host, vod_dir(hash, username, broadcast_id, timestamp), playlist_file())
}

/// `c` holds the URLs that tell whether the VOD named by `hash` is on `host`.
pub open spec fn is_check(
    c: AvailabilityCheck,
    hash: Seq<char>,
    username: Seq<char>,
    broadcast_id: int,
    timestamp: int,
    host: Seq<char>,
) -> bool {
    let dir = vod_dir(hash, username, broadcast_id, timestamp);
    &&& c.fragment@ == cdn_url(host, dir, fragment_file())
    &&& c.fragment_muted@ == cdn_url(host, dir, muted_fragment_file())
    &&& c.playlist@ == cdn_url(host, dir, playlist_file())
}

fn vod_dir_text(hash: &str, username: &str, broadcast_id: i64, timestamp: i64) -> (r: String)
    ensures
        r@ == vod_dir(hash@, username@, broadcast_id as int, timestamp as int),
{
    proof {
        reveal_strlit("_");
    }
    let mut r = String::from_str(hash);
    r.append("_");
    r.append(username);
    r.append("_");
    r.append(int_to_text(broadcast_id as i128).as_str());
    r.append("_");
    r.append(int_to_text(timestamp as i128).as_str());
    assert(r@ =~= vod_dir(hash@, username@, broadcast_id as int, timestamp as int));
    r
}

fn cdn_url_text(host: &str, dir: &str, file: &str) -> (r: String)
    ensures
        r@ == cdn_url(host@, dir@, file@),
{
    proof {
        reveal_strlit("/");
    }
    let mut r = String::from_str("https://");
    r.append(host);
    r.append("/");
    r.append(dir);
    r.append("/chunked/");
    r.append(file);
    assert(r@ =~= cdn_url(host@, dir@, file@));
    r
}

/// The playlist URL of the VOD at `timestamp` on each CDN, in the order of
/// `cdns`. The hash is computed once for all of them.
pub fn candidates_for_timestamp(
    username: &str,
    broadcast_id: i64,
    timestamp: i64,
    cdns: &Vec<String>,
) -> (r: Vec<TwitchURL>)
    ensures
        r@.len() == cdns@.len(),
        forall|i: int|
            0 <= i < cdns@.len() ==> is_candidate(
                #[trigger] r@[i],
                username@,
                broadcast_id as int,
                timestamp as int,
                cdns@[i]@,
            ),
{
    let hash = vod_hash(username, broadcast_id, timestamp);
    let dir = vod_dir_text(hash.as_str(), username, broadcast_id, timestamp);
    let mut r: Vec<TwitchURL> = Vec::new();
    let mut i: usize = 0;
    while i < cdns.len()
        invariant
            0 <= i <= cdns@.len(),
            r@.len() == i,
            hash@ == vod_hash_of(username@, broadcast_id as int, timestamp as int),
            dir@ == vod_dir(hash@, username@, broadcast_id as int, timestamp as int),
            forall|k: int|
                0 <= k < i ==> is_candidate(
                    #[trigger] r@[k],
                    username@,
                    broadcast_id as int,
                    timestamp as int,
                    cdns@[k]@,
                ),
        decreases cdns@.len() - i,
    {
        let url = cdn_url_text(cdns[i].as_str(), dir.as_str(), "index-dvr.m3u8");
        r.push(TwitchURL { full_url: url, hash: hash.clone(), timestamp });
        i = i + 1;
    }
    r
}

proof fn lemma_block_index(t: int, n: int, j: int, u: int)
    requires
        0 <= t < u,
        0 <= j < n,
    ensures
        0 <= t * n + j < u * n,
{
    assert(t * n + j < u * n) by (nonlinear_arith)
        requires
            0 <= t < u,
            0 <= j < n,
    ;
    assert(0 <= t * n) by (nonlinear_arith)
        requires
            0 <= t,
            0 <= n,
    ;
}

/// The whole search space of a bruteforce: for every timestamp from `from` to
/// `to`, both included, the candidate on every CDN. The candidate of
/// timestamp `t` on `cdns[j]` stands at `(t - from) * |cdns| + j`.
pub fn bruteforce_candidates(
    username: &str,
    broadcast_id: i64,
    from: i64,
    to: i64,
    cdns: &Vec<String>,
) -> (r: Vec<TwitchURL>)
    ensures
        r@.len() == (if from <= to { (to - from + 1) * cdns@.len() } else { 0 }),
        forall|t: int, j: int|
            from <= t <= to && 0 <= j < cdns@.len() ==> is_candidate(
                #[trigger] r@[(t - from) * cdns@.len() + j],
                username@,
                broadcast_id as int,
                t,
                #[trigger] cdns@[j]@,
            ),
{
    let mut r: Vec<TwitchURL> = Vec::new();
    if from > to {
        return r;
    }
    let ghost n = cdns@.len() as int;
    let mut t: i64 = from;
    loop
        invariant
            from <= t <= to,
            n == cdns@.len(),
            r@.len() == (t - from) * n,
            forall|u: int, j: int|
                from <= u < t && 0 <= j < n ==> is_candidate(
                    #[trigger] r@[(u - from) * n + j],
                    username@,
                    broadcast_id as int,
                    u,
                    #[trigger] cdns@[j]@,
                ),
        decreases to - t,
    {
        let mut batch = candidates_for_timestamp(username, broadcast_id, t, cdns);
        let ghost before = r@;
        let ghost added = batch@;
        r.append(&mut batch);
        assert(r@ == before + added);
        assert forall|u: int, j: int|
            from <= u <= t && 0 <= j < n implies is_candidate(
                #[trigger] r@[(u - from) * n + j],
                username@,
                broadcast_id as int,
                u,
                #[trigger] cdns@[j]@,
            ) by {
            if u < t {
                lemma_block_index(u - from, n, j, t - from);
                assert(r@[(u - from) * n + j] == before[(u - from) * n + j]);
            } else {
                assert(r@[(t - from) * n + j] == added[j]);
            }
        }
        assert(r@.len() == (t + 1 - from) * n) by (nonlinear_arith)
            requires
                r@.len() == (t - from) * n + n,
        ;
        if t == to {
            return r;
        }
        t = t + 1;
    }
}

/// The probes that tell whether the VOD named by `hash` is on each CDN, in
/// the order of `cdns`.
pub fn availability_checks(
    hash: &str,
    username: &str,
    broadcast_id: i64,
    timestamp: i64,
    cdns: &Vec<String>,
) -> (r: Vec<AvailabilityCheck>)
    ensures
        r@.len() == cdns@.len(),
        forall|i: int|
            0 <= i < cdns@.len() ==> is_check(
                #[trigger] r@[i],
                hash@,
                username@,
                broadcast_id as int,
                timestamp as int,
                cdns@[i]@,
            ),
{
    let dir = vod_dir_text(hash, username, broadcast_id, timestamp);
    let mut r: Vec<AvailabilityCheck> = Vec::new();
    let mut i: usize = 0;
    while i < cdns.len()
        invariant
            0 <= i <= cdns@.len(),
            r@.len() == i,
            dir@ == vod_dir(hash@, username@, broadcast_id as int, timestamp as int),
            forall|k: int|
                0 <= k < i ==> is_check(
                    #[trigger] r@[k],
                    hash@,
                    username@,
                    broadcast_id as int,
                    timestamp as int,
                    cdns@[k]@,
                ),
        decreases cdns@.len() - i,
    {
        let host = cdns[i].as_str();
        let fragment = cdn_url_text(host, dir.as_str(), "1.ts");
        let fragment_muted = cdn_url_text(host, dir.as_str(), "1-muted.ts");
        let playlist = cdn_url_text(host, dir.as_str(), "index-dvr.m3u8");
        r.push(AvailabilityCheck { fragment, fragment_muted, playlist });
        i = i + 1;
    }
    r
}

/// What one probe of a candidate says.
#[derive(Debug, Clone, Copy, PartialEq, Eq, Structural)]
pub enum ProbeOutcome {
    /// The URL exists: the search is over.
    Hit,
    /// 403 or 404: not this one.
    Miss,
    /// Another status, or no answer at all (`None`): possibly throttling or a
    /// dead connection. The search goes on as after a miss.
    Inconclusive,
}

pub open spec fn probe_outcome(status: Option<u16>) -> ProbeOutcome {
    match status {
        Some(code) => if code == 200 {
            ProbeOutcome::Hit
        } else if code == 403 || code == 404 {
            ProbeOutcome::Miss
        } else {
            ProbeOutcome::Inconclusive
        },
        None => ProbeOutcome::Inconclusive,
    }
}

/// What the HTTP status of a candidate's probe says; `None` stands for a
/// request that got no answer.
pub fn classify_probe(status: Option<u16>) -> (r: ProbeOutcome)
    ensures
        r == probe_outcome(status),
{
    match status {
        Some(code) => if code == 200 {
            ProbeOutcome::Hit
        } else if code == 403 || code == 404 {
            ProbeOutcome::Miss
        } else {
            ProbeOutcome::Inconclusive
        },
        None => ProbeOutcome::Inconclusive,
    }
}

/// Whether a VOD is on a CDN, from the statuses of its first segment unmuted
/// and muted: `Some(false)` when the unmuted one is there, else `Some(true)`
/// when the muted one is, else `None`. A probe that got no answer makes the
/// CDN count as not holding it.
pub open spec fn mute_state(unmuted: Option<u16>, muted: Option<u16>) -> Option<bool> {
    match (unmuted, muted) {
        (Some(u), Some(m)) => if u == 200 {
            Some(false)
        } else if m == 200 {
            Some(true)
        } else {
            None
        },
        _ => None,
    }
}

/// The playlists, with their mute flag, of the CDNs that hold the VOD, in
/// the order of the checks.
pub open spec fn available_from(
    playlists: Seq<Seq<char>>,
    probes: Seq<(Option<u16>, Option<u16>)>,
) -> Seq<(Seq<char>, bool)>
    decreases playlists.len(),
{
    if playlists.len() == 0 || probes.len() == 0 {
        seq![]
    } else {
        let earlier = available_from(playlists.drop_last(), probes.drop_last());
        match mute_state(probes.last().0, probes.last().1) {
            Some(m) => earlier.push((playlists.last(), m)),
            None => earlier,
        }
    }
}

pub open spec fn playlists_of(checks: Seq<AvailabilityCheck>) -> Seq<Seq<char>> {
    checks.map_values(|c: AvailabilityCheck| c.playlist@)
}

/// The URL to return for one CDN, from the statuses of the probes of its
/// first segment, unmuted and muted (`None`: no answer).
pub fn availability_of(check: &AvailabilityCheck, unmuted: Option<u16>, muted: Option<u16>) -> (r:
    Option<ReturnURL>)
    ensures
        match mute_state(unmuted, muted) {
            Some(m) => r is Some && r->0.playlist@ == check.playlist@ && r->0.muted == m,
            None => r is None,
        },
{
    match (unmuted, muted) {
        (Some(u), Some(m)) => if u == 200 {
            Some(ReturnURL { playlist: check.playlist.clone(), muted: false })
        } else if m == 200 {
            Some(ReturnURL { playlist: check.playlist.clone(), muted: true })
        } else {
            None
        },
        _ => None,
    }
}

/// The playlists of the CDNs that hold the VOD, with their mute flag, from
/// the probes of each check: `probes[i]` holds the statuses of the unmuted
/// and the muted first segment of `checks[i]`.
pub fn available_urls(checks: &Vec<AvailabilityCheck>, probes: &Vec<(Option<u16>, Option<u16>)>) -> (r:
    Vec<ReturnURL>)
    requires
        checks@.len() == probes@.len(),
    ensures
        r.deep_view() == available_from(playlists_of(checks@), probes@),
{
    let mut r: Vec<ReturnURL> = Vec::new();
    let mut i: usize = 0;
    while i < checks.len()
        invariant
            checks@.len() == probes@.len(),
            0 <= i <= checks@.len(),
            r.deep_view() == available_from(
                playlists_of(checks@.subrange(0, i as int)),
                probes@.subrange(0, i as int),
            ),
        decreases checks@.len() - i,
    {
        let (unmuted, muted) = probes[i];
        let found = availability_of(&checks[i], unmuted, muted);
        let ghost earlier = r.deep_view();
        let ghost pl = playlists_of(checks@.subrange(0, i + 1));
        let ghost pr = probes@.subrange(0, i + 1);
        assert(pl.drop_last() =~= playlists_of(checks@.subrange(0, i as int)));
        assert(pr.drop_last() =~= probes@.subrange(0, i as int));
        assert(pl.last() == checks@[i as int].playlist@);
        assert(pr.last() == probes@[i as int]);
        match found {
            Some(u) => {
                let ghost uv = u.deep_view();
                r.push(u);
                assert(r.deep_view() =~= earlier.push(uv));
            }
            None => {}
        }
        i = i + 1;
    }
    assert(checks@.subrange(0, checks@.len() as int) =~= checks@);
    assert(probes@.subrange(0, probes@.len() as int) =~= probes@);
    r
}

/// The probes of an exact lookup: the VOD of `username` and `broadcast_id`
/// that started at `stamp`, on every CDN. Fails when `stamp` cannot be read.
pub fn exact_checks(username: &str, broadcast_id: i64, stamp: &str, cdns: &Vec<String>) -> (r: Result<
    Vec<AvailabilityCheck>,
    TimestampError,
>)
    ensures
        match timestamp_value(stamp@) {
            Ok(t) => r is Ok && r->Ok_0@.len() == cdns@.len() && forall|i: int|
                0 <= i < cdns@.len() ==> is_check(
                    #[trigger] r->Ok_0@[i],
                    vod_hash_of(username@, broadcast_id as int, t as int),
                    username@,
                    broadcast_id as int,
                    t as int,
                    cdns@[i]@,
                ),
            Err(e) => r == Err::<Vec<AvailabilityCheck>, TimestampError>(e),
        },
{
    let timestamp = match parse_timestamp(stamp) {
        Ok(t) => t,
        Err(e) => return Err(e),
    };
    let hash = vod_hash(username, broadcast_id, timestamp);
    Ok(availability_checks(hash.as_str(), username, broadcast_id, timestamp, cdns))
}

/// The search space of a bruteforce lookup between the times `from_stamp` and
/// `to_stamp`, both included (see `bruteforce_candidates`). Fails when either
/// time cannot be read, the first one first.
pub fn bruteforce_space(
    username: &str,
    broadcast_id: i64,
    from_stamp: &str,
    to_stamp: &str,
    cdns: &Vec<String>,
) -> (r: Result<Vec<TwitchURL>, TimestampError>)
    ensures
        match (timestamp_value(from_stamp@), timestamp_value(to_stamp@)) {
            (Ok(from), Ok(to)) => r is Ok && r->Ok_0@.len() == (if from <= to {
                (to - from + 1) * cdns@.len()
            } else {
                0
            }) && forall|t: int, j: int|
                from <= t <= to && 0 <= j < cdns@.len() ==> is_candidate(
                    #[trigger] r->Ok_0@[(t - from) * cdns@.len() + j],
                    username@,
                    broadcast_id as int,
                    t,
                    #[trigger] cdns@[j]@,
                ),
            (Err(e), _) => r == Err::<Vec<TwitchURL>, TimestampError>(e),
            (Ok(_), Err(e)) => r == Err::<Vec<TwitchURL>, TimestampError>(e),
        },
{
    let from = match parse_timestamp(from_stamp) {
        Ok(t) => t,
        Err(e) => return Err(e),
    };
    let to = match parse_timestamp(to_stamp) {
        Ok(t) => t,
        Err(e) => return Err(e),
    };
    Ok(bruteforce_candidates(username, broadcast_id, from, to, cdns))
}

/// The result of a lookup: `None` when the VOD is on no CDN any more.
pub fn lookup_result(found: Vec<ReturnURL>) -> (r: Option<Vec<ReturnURL>>)
    ensures
        found@.len() == 0 ==> r is None,
        found@.len() > 0 ==> r == Some(found),
{
    if found.len() == 0 {
        None
    } else {
        Some(found)
    }
}

/// Why the stream of a streamer could not be looked up.
#[derive(Debug, Clone, PartialEq, Eq)]
pub enum VodError {
    /// The broadcast id is no integer.
    IntegerParseError(String),
    /// The start time cannot be read.
    StringParseError(TimestampError),
    HeaderNameError(String),
    HeaderValueError(String),
    /// The request failed.
    UrlProcessError(String),
}

/// The GraphQL query for the stream that `login` has live now.
pub fn vod_query(login: String) -> (r: VodQuery)
    ensures
        r.query@ == "query($login:String){user(login: $login){stream{id createdAt}}}"@,
        r.variables.login@ == login@,
{
    VodQuery {
        query: String::from_str("query($login:String){user(login: $login){stream{id createdAt}}}"),
        variables: VodVars { login },
    }
}

/// The broadcast id and start time of the stream that is live now, from the
/// answer of the GraphQL API; `None` when there is none.
pub fn live_stream(response: &VodResponse) -> (r: Result<Option<(i64, String)>, VodError>)
    ensures
        match response.data.user.stream {
            None => r == Ok::<Option<(i64, String)>, VodError>(None),
            Some(s) => match i64_value(s.id@) {
                Some(id) => r is Ok && r->Ok_0 is Some && (r->Ok_0->0).0 == id && (r->Ok_0->0).1@
                    == s.created_at@,
                None => r is Err && r->Err_0 is IntegerParseError,
            },
        },
{
    match &response.data.user.stream {
        None => Ok(None),
        Some(stream) => match parse_i64(stream.id.as_str()) {
            Some(id) => Ok(Some((id, String::from_str(stream.created_at.as_str())))),
            None => Err(VodError::IntegerParseError(String::from_str("invalid digit found in string"))),
        },
    }
}

impl VodError {
    /// What went wrong, in words.
    pub fn message(&self) -> (r: String)
        ensures
            r@ == (match self {
                VodError::IntegerParseError(e) => "couldn't parse the unix timestamp: "@ + e@,
                VodError::StringParseError(e) => "couldn't parse the string timestamp"@,
                VodError::HeaderNameError(e) => "invalid header name: "@ + e@,
                VodError::HeaderValueError(e) => "invalid header value: "@ + e@,
                VodError::UrlProcessError(e) => "couldn't process the url: "@ + e@,
            }),
    {
        match self {
            VodError::IntegerParseError(e) => prefixed("couldn't parse the unix timestamp: ", e.as_str()),
            VodError::StringParseError(_) => String::from_str("couldn't parse the string timestamp"),
            VodError::HeaderNameError(e) => prefixed("invalid header name: ", e.as_str()),
            VodError::HeaderValueError(e) => prefixed("invalid header value: ", e.as_str()),
            VodError::UrlProcessError(e) => prefixed("couldn't process the url: ", e.as_str()),
        }
    }
}

} // verus!
