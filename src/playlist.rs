//! Repair of VOD playlists whose segments were muted.
use vstd::prelude::*;
use vstd::string::{StrSliceExecFns, StringExecFns};
use crate::text::{
    chars_of, contains, contains_text, ends_with, ends_with_text, occurs_at, prefixed, split_on, split_text,
    starts_with, starts_with_text, text_equals,
};

verus! {

/// One segment of a media playlist: its URI, and its duration as the bit
/// pattern of the playlist's `f32`, which the repair never reads.
#[derive(Debug, Clone)]
pub struct PlaylistSegment {
    pub uri: String,
    pub duration_bits: u32,
}

/// Where the segments of a playlist live, and the default name of the
/// repaired file.
#[derive(Debug, Clone)]
pub struct FixTarget {
    /// `https://{host}/{vod directory}/{chunk directory}/`
    pub base_url: String,
    /// `muted_{broadcast id}.m3u8`, the broadcast id being the next to last
    /// `_`-separated field of the VOD directory `{hash}_{user}_{id}_{time}`.
    pub default_output: String,
}

/// Why a playlist could not be repaired.
#[derive(Debug, Clone, PartialEq, Eq)]
pub enum PlaylistFixError {
    /// The playlist could not be downloaded.
    RequestError(String),
    /// The downloaded text is not a media playlist.
    ParseError(String),
    /// The repaired playlist could not be written.
    IoError(String),
    /// Only twitch.tv and cloudfront.net playlist URLs are supported.
    URLError,
}

/// How the repair decides which segments are muted.
#[derive(Debug, Clone, PartialEq, Eq)]
pub enum RepairStrategy {
    /// From the segment's name alone: one that says `unmuted` is muted.
    Fast,
    /// From a probe of each segment's unmuted URL: `statuses[i]` is the HTTP
    /// status that segment `i` answered, or `None` when no answer came. 403
    /// means it is muted; anything else keeps the URL.
    Slow { statuses: Vec<Option<u16>> },
}

/// The maximal runs of characters other than `/`, from left to right.
pub open spec fn path_parts(s: Seq<char>) -> Seq<Seq<char>>
    decreases s.len(),
{
    if s.len() == 0 {
        seq![]
    } else {
        let earlier = path_parts(s.drop_last());
        let c = s.last();
        if c == '/' {
            earlier
        } else if s.len() >= 2 && s[s.len() - 2] != '/' {
            earlier.update(earlier.len() - 1, earlier.last().push(c))
        } else {
            earlier.push(seq![c])
        }
    }
}

/// The host is twitch.tv or cloudfront.net, or one of their subdomains.
pub open spec fn is_supported_host(host: Seq<char>) -> bool {
    host == "twitch.tv"@ || ends_with(host, ".twitch.tv"@) || host == "cloudfront.net"@ || ends_with(
        host,
        ".cloudfront.net"@,
    )
}

/// The broadcast id in a VOD directory `{hash}_{user}_{id}_{time}`: the next
/// to last `_`-separated field (a username may hold `_` itself). A directory
/// with fewer than three fields stands for itself.
pub open spec fn broadcast_id_of(dir: Seq<char>) -> Seq<char> {
    let fields = split_on(dir, '_');
    if fields.len() >= 3 {
        fields[fields.len() - 2]
    } else {
        dir
    }
}

/// Where the segments of the playlist at `url` live, and the default name of
/// its repaired file; `None` when the URL has fewer than four parts or its
/// host is not of twitch.tv or cloudfront.net.
pub open spec fn fix_target_of(url: Seq<char>) -> Option<(Seq<char>, Seq<char>)> {
    let parts = path_parts(url);
    if parts.len() < 4 || !is_supported_host(parts[1]) {
        None
    } else {
        Some((
            "https://"@ + parts[1] + seq!['/'] + parts[2] + seq!['/'] + parts[3] + seq!['/'],
            "muted_"@ + broadcast_id_of(parts[2]) + ".m3u8"@,
        ))
    }
}

/// A URI that names its scheme stands on its own.
pub open spec fn is_absolute(uri: Seq<char>) -> bool {
    starts_with(uri, "https://"@) || starts_with(uri, "http://"@)
}

/// A segment's URI made absolute: a relative one is taken from `base`, an
/// absolute one is kept as it is.
pub open spec fn qualified(base: Seq<char>, uri: Seq<char>) -> Seq<char> {
    if is_absolute(uri) {
        uri
    } else {
        base + uri
    }
}

/// The text up to its last `marker` characters, followed by `-muted.ts`.
pub open spec fn muted_form(url: Seq<char>, marker: int) -> Seq<char> {
    (if url.len() >= marker {
        url.subrange(0, url.len() - marker)
    } else {
        seq![]
    }) + "-muted.ts"@
}

/// A segment's URL after the fast repair: qualified with the base, and, when
/// its name says `unmuted`, with its `-unmuted.ts` ending given up for
/// `-muted.ts`.
pub open spec fn fast_repaired(base: Seq<char>, uri: Seq<char>) -> Seq<char> {
    if contains(uri, "unmuted"@) {
        muted_form(qualified(base, uri), 11)
    } else {
        qualified(base, uri)
    }
}

/// A segment's URL after a probe that answered `status` (`None`: no answer):
/// on 403 the muted file is used instead (`-unmuted.ts` or `.ts` gives way to
/// `-muted.ts`); otherwise the URL is kept.
pub open spec fn slow_repaired(url: Seq<char>, status: Option<u16>) -> Seq<char> {
    if status == Some(403u16) {
        muted_form(url, if contains(url, "unmuted"@) { 11 } else { 3 })
    } else {
        url
    }
}

pub open spec fn slow_decisions(urls: Seq<Seq<char>>, statuses: Seq<Option<u16>>) -> Seq<Seq<char>> {
    Seq::new(urls.len(), |i: int| slow_repaired(urls[i], statuses[i]))
}

/// The URLs that the slow repair probes: each segment's URI qualified.
pub open spec fn probe_urls_of(base: Seq<char>, segments: Seq<PlaylistSegment>) -> Seq<Seq<char>> {
    Seq::new(segments.len(), |i: int| qualified(base, segments[i].uri@))
}

pub open spec fn uris_of(segments: Seq<PlaylistSegment>) -> Seq<Seq<char>> {
    segments.map_values(|s: PlaylistSegment| s.uri@)
}

/// Segment `i` of both lists has the same duration, and there are as many.
pub open spec fn same_durations(a: Seq<PlaylistSegment>, b: Seq<PlaylistSegment>) -> bool {
    a.len() == b.len() && forall|i: int| 0 <= i < a.len() ==> (#[trigger] a[i]).duration_bits == b[i].duration_bits
}

/// Natural order ("2" before "10") of a list of texts, as sorted.
pub uninterp spec fn natural_sorted_of(items: Seq<Seq<char>>) -> Seq<Seq<char>>;

/// Relies on `alphanumeric_sort::sort_str_slice`: it sorts the slice in place
/// (`sort_unstable_by` with `compare_str`), so the result holds the same
/// texts, each as often.
#[verifier::external_body]
fn natural_sort(items: &mut Vec<String>)
    ensures
        final(items).deep_view() == natural_sorted_of(old(items).deep_view()),
        final(items).deep_view().to_multiset() == old(items).deep_view().to_multiset(),
        final(items)@.len() == old(items)@.len(),
{
    alphanumeric_sort::sort_str_slice(items.as_mut_slice())
}

proof fn lemma_parts_nonempty(s: Seq<char>)
    requires
        s.len() > 0,
        s.last() != '/',
    ensures
        path_parts(s).len() > 0,
    decreases s.len(),
{
    if s.len() >= 2 && s[s.len() - 2] != '/' {
        let t = s.drop_last();
        assert(t.last() == s[s.len() - 2]);
        lemma_parts_nonempty(t);
    }
}

/// The maximal runs of characters other than `/` in `s`.
pub fn path_parts_of(s: &str) -> (r: Vec<String>)
    ensures
        r.deep_view() == path_parts(s@),
{
    let chars = chars_of(s);
    let mut parts: Vec<String> = Vec::new();
    let mut start: Option<usize> = None;
    let mut i: usize = 0;
    while i < chars.len()
        invariant
            chars@ == s@,
            0 <= i <= chars@.len(),
            match start {
                None => parts.deep_view() == path_parts(s@.subrange(0, i as int)) && (i == 0 || s@[i - 1]
                    == '/'),
                Some(st) => st < i && parts.deep_view().push(s@.subrange(st as int, i as int))
                    == path_parts(s@.subrange(0, i as int)) && s@[i - 1] != '/',
            },
        decreases chars@.len() - i,
    {
        let c = chars[i];
        let ghost prefix = s@.subrange(0, i + 1);
        assert(prefix.drop_last() =~= s@.subrange(0, i as int));
        assert(prefix.last() == c);
        if c == '/' {
            match start {
                Some(st) => {
                    let piece = String::from_str(s.substring_char(st, i));
                    parts.push(piece);
                }
                None => {}
            }
            start = None;
        } else {
            match start {
                Some(st) => {
                    assert(prefix[prefix.len() - 2] == s@[i - 1]);
                    assert(s@.subrange(st as int, i + 1) =~= s@.subrange(st as int, i as int).push(c));
                    assert(parts.deep_view().push(s@.subrange(st as int, i + 1)) =~= parts.deep_view().push(
                        s@.subrange(st as int, i as int),
                    ).update(parts.deep_view().len() as int, s@.subrange(st as int, i as int).push(c)));
                }
                None => {
                    if i > 0 {
                        assert(prefix[prefix.len() - 2] == s@[i - 1]);
                    }
                    assert(s@.subrange(i as int, i + 1) =~= seq![c]);
                    start = Some(i);
                }
            }
        }
        i = i + 1;
    }
    assert(s@.subrange(0, s@.len() as int) =~= s@);
    match start {
        Some(st) => {
            let piece = String::from_str(s.substring_char(st, chars.len()));
            parts.push(piece);
        }
        None => {}
    }
    parts
}

/// Where the segments of the playlist at `url` live, and the default name of
/// the repaired file. Only twitch.tv and cloudfront.net URLs are supported.
pub fn fix_target(url: &str) -> (r: Result<FixTarget, PlaylistFixError>)
    ensures
        match fix_target_of(url@) {
            Some((base, output)) => r is Ok && r->Ok_0.base_url@ == base && r->Ok_0.default_output@
                == output,
            None => r == Err::<FixTarget, PlaylistFixError>(PlaylistFixError::URLError),
        },
{
    let parts = path_parts_of(url);
    if parts.len() < 4 {
        return Err(PlaylistFixError::URLError);
    }
    let host = &parts[1];
    assert(parts.deep_view()[1] == host@);
    if !(text_equals(host, "twitch.tv") || ends_with_text(host.as_str(), ".twitch.tv") || text_equals(
        host,
        "cloudfront.net",
    ) || ends_with_text(host.as_str(), ".cloudfront.net")) {
        return Err(PlaylistFixError::URLError);
    }
    proof {
        reveal_strlit("/");
    }
    let mut base_url = String::from_str("https://");
    base_url.append(parts[1].as_str());
    base_url.append("/");
    base_url.append(parts[2].as_str());
    base_url.append("/");
    base_url.append(parts[3].as_str());
    base_url.append("/");
    let fields = split_text(parts[2].as_str(), '_');
    let mut default_output = String::from_str("muted_");
    if fields.len() >= 3 {
        assert(fields.deep_view()[fields@.len() - 2] == fields@[fields@.len() - 2]@);
        default_output.append(fields[fields.len() - 2].as_str());
    } else {
        default_output.append(parts[2].as_str());
    }
    default_output.append(".m3u8");
    let ghost p = path_parts(url@);
    assert(parts.deep_view()[1] == parts@[1]@);
    assert(parts.deep_view()[2] == parts@[2]@);
    assert(parts.deep_view()[3] == parts@[3]@);
    assert(base_url@ =~= "https://"@ + p[1] + seq!['/'] + p[2] + seq!['/'] + p[3] + seq!['/']);
    assert(default_output@ =~= "muted_"@ + broadcast_id_of(p[2]) + ".m3u8"@);
    Ok(FixTarget { base_url, default_output })
}

/// `url` without its last `marker` characters, followed by `-muted.ts`.
fn muted_form_text(url: &str, marker: usize) -> (r: String)
    ensures
        r@ == muted_form(url@, marker as int),
{
    let len = url.unicode_len();
    let mut r = if len >= marker {
        String::from_str(url.substring_char(0, len - marker))
    } else {
        String::new()
    };
    r.append("-muted.ts");
    r
}

/// `uri` made absolute with `base`, unless it already is.
fn qualified_text(base: &str, uri: &str) -> (r: String)
    ensures
        r@ == qualified(base@, uri@),
{
    if starts_with_text(uri, "https://") || starts_with_text(uri, "http://") {
        return String::from_str(uri);
    }
    let mut r = String::from_str(base);
    r.append(uri);
    r
}

/// Repairs a playlist from the segments' names alone: a segment whose name
/// says `unmuted` is pointed at its `-muted.ts` file, every relative URI is
/// qualified with `base_url`, and each segment keeps its duration and place.
pub fn repair_fast(base_url: &str, segments: &Vec<PlaylistSegment>) -> (r: Vec<PlaylistSegment>)
    ensures
        same_durations(r@, segments@),
        forall|i: int|
            0 <= i < r@.len() ==> (#[trigger] r@[i]).uri@ == fast_repaired(base_url@, segments@[i].uri@),
{
    let mut r: Vec<PlaylistSegment> = Vec::new();
    let mut i: usize = 0;
    while i < segments.len()
        invariant
            0 <= i <= segments@.len(),
            r@.len() == i,
            forall|k: int|
                0 <= k < i ==> (#[trigger] r@[k]).uri@ == fast_repaired(base_url@, segments@[k].uri@)
                    && r@[k].duration_bits == segments@[k].duration_bits,
        decreases segments@.len() - i,
    {
        let segment = &segments[i];
        let url = qualified_text(base_url, segment.uri.as_str());
        let uri = if contains_text(segment.uri.as_str(), "unmuted") {
            muted_form_text(url.as_str(), 11)
        } else {
            url
        };
        r.push(PlaylistSegment { uri, duration_bits: segment.duration_bits });
        i = i + 1;
    }
    r
}

/// The URLs that the slow repair probes: each segment's URI, qualified with
/// `base_url` when it is relative.
pub fn probe_urls(base_url: &str, segments: &Vec<PlaylistSegment>) -> (r: Vec<String>)
    ensures
        r@.len() == segments@.len(),
        r.deep_view() == probe_urls_of(base_url@, segments@),
{
    let mut r: Vec<String> = Vec::new();
    let mut i: usize = 0;
    while i < segments.len()
        invariant
            0 <= i <= segments@.len(),
            r@.len() == i,
            forall|k: int| 0 <= k < i ==> (#[trigger] r@[k])@ == qualified(base_url@, segments@[k].uri@),
        decreases segments@.len() - i,
    {
        r.push(qualified_text(base_url, segments[i].uri.as_str()));
        i = i + 1;
    }
    assert(r.deep_view() =~= probe_urls_of(base_url@, segments@));
    r
}

/// Repairs a playlist from the probes of its segments' unmuted URLs:
/// `statuses[i]` is what `urls[i]` answered (`None`: no answer, which keeps
/// the URL, as any status but 403 does). A URL that answered 403 gives way
/// to its muted file. The URLs are then put back in natural order, since the
/// substitution can upset it, and paired with the durations by position.
pub fn repair_slow(segments: &Vec<PlaylistSegment>, urls: &Vec<String>, statuses: &Vec<Option<u16>>) -> (r: Vec<
    PlaylistSegment,
>)
    requires
        urls@.len() == segments@.len(),
        statuses@.len() == segments@.len(),
    ensures
        same_durations(r@, segments@),
        uris_of(r@) == natural_sorted_of(slow_decisions(urls.deep_view(), statuses@)),
        uris_of(r@).to_multiset() == slow_decisions(urls.deep_view(), statuses@).to_multiset(),
{
    let mut decided: Vec<String> = Vec::new();
    let mut i: usize = 0;
    while i < urls.len()
        invariant
            urls@.len() == statuses@.len(),
            0 <= i <= urls@.len(),
            decided.deep_view() == slow_decisions(urls.deep_view(), statuses@).subrange(0, i as int),
        decreases urls@.len() - i,
    {
        let url = urls[i].as_str();
        let uri = if statuses[i] == Some(403u16) {
            let marker: usize = if contains_text(url, "unmuted") { 11 } else { 3 };
            muted_form_text(url, marker)
        } else {
            String::from_str(url)
        };
        let ghost before = decided.deep_view();
        let ghost v = uri@;
        decided.push(uri);
        assert(decided.deep_view() =~= before.push(v));
        assert(slow_decisions(urls.deep_view(), statuses@).subrange(0, i + 1) =~= before.push(v));
        i = i + 1;
    }
    assert(decided.deep_view() =~= slow_decisions(urls.deep_view(), statuses@));
    let ghost unsorted = decided.deep_view();
    natural_sort(&mut decided);
    let mut r: Vec<PlaylistSegment> = Vec::new();
    let mut k: usize = 0;
    while k < segments.len()
        invariant
            decided@.len() == segments@.len(),
            0 <= k <= segments@.len(),
            r@.len() == k,
            forall|j: int|
                0 <= j < k ==> (#[trigger] r@[j]).uri@ == decided@[j]@ && r@[j].duration_bits
                    == segments@[j].duration_bits,
        decreases segments@.len() - k,
    {
        let uri = String::from_str(decided[k].as_str());
        r.push(PlaylistSegment { uri, duration_bits: segments[k].duration_bits });
        k = k + 1;
    }
    assert(uris_of(r@) =~= decided.deep_view());
    r
}

/// The repaired segments of a playlist by either strategy. A slow repair
/// needs one status per segment; without them there is no repair (`None`).
pub fn repair_playlist(base_url: &str, segments: &Vec<PlaylistSegment>, strategy: &RepairStrategy) -> (r:
    Option<Vec<PlaylistSegment>>)
    ensures
        match strategy {
            RepairStrategy::Fast => r is Some && forall|i: int|
                0 <= i < segments@.len() ==> (#[trigger] r->0@[i]).uri@ == fast_repaired(
                    base_url@,
                    segments@[i].uri@,
                ),
            RepairStrategy::Slow { statuses } => if statuses@.len() == segments@.len() {
                &&& r is Some
                &&& uris_of(r->0@) == natural_sorted_of(
                    slow_decisions(probe_urls_of(base_url@, segments@), statuses@),
                )
                &&& uris_of(r->0@).to_multiset() == slow_decisions(
                    probe_urls_of(base_url@, segments@),
                    statuses@,
                ).to_multiset()
            } else {
                r is None
            },
        },
        r is Some ==> same_durations(r->0@, segments@),
{
    match strategy {
        RepairStrategy::Fast => Some(repair_fast(base_url, segments)),
        RepairStrategy::Slow { statuses } => {
            if statuses.len() != segments.len() {
                return None;
            }
            let urls = probe_urls(base_url, segments);
            Some(repair_slow(segments, &urls, statuses))
        }
    }
}

/// An occurrence of `w` in `a + b` lies in `a` or in `b` when `w` lacks a
/// character `c` that stands at the seam (last of `a` or first of `b`).
proof fn lemma_contains_across_seam(a: Seq<char>, b: Seq<char>, w: Seq<char>, c: char)
    requires
        w.len() > 0,
        forall|k: int| 0 <= k < w.len() ==> w[k] != c,
        (a.len() > 0 && a.last() == c) || (b.len() > 0 && b[0] == c),
        contains(a + b, w),
    ensures
        contains(a, w) || contains(b, w),
{
    let s = a + b;
    let k = choose|k: int| occurs_at(s, w, k);
    if k + w.len() <= a.len() {
        assert(a.subrange(k, k + w.len()) =~= s.subrange(k, k + w.len()));
        assert(occurs_at(a, w, k));
    } else if k >= a.len() {
        assert(b.subrange(k - a.len(), k - a.len() + w.len()) =~= s.subrange(k, k + w.len()));
        assert(occurs_at(b, w, k - a.len()));
    } else if a.len() > 0 && a.last() == c {
        assert(s.subrange(k, k + w.len())[a.len() - 1 - k] == s[a.len() - 1]);
        assert(w[a.len() - 1 - k] == c);
    } else {
        assert(s.subrange(k, k + w.len())[a.len() - k] == s[a.len() as int]);
        assert(w[a.len() - k] == c);
    }
}

proof fn lemma_marker_facts()
    ensures
        !contains("-muted.ts"@, "unmuted"@),
        "unmuted"@.len() == 7,
        forall|k: int| 0 <= k < 7 ==> "unmuted"@[k] != '/' && "unmuted"@[k] != '-',
        "-muted.ts"@.len() == 9,
        "-muted.ts"@[0] == '-',
{
    reveal_strlit("-muted.ts");
    reveal_strlit("unmuted");
    assert forall|k: int| !occurs_at("-muted.ts"@, "unmuted"@, k) by {
        if 0 <= k && k + 7 <= 9 {
            if k == 0 {
                assert("-muted.ts"@.subrange(k, k + 7)[0] != "unmuted"@[0]);
            } else if k == 1 {
                assert("-muted.ts"@.subrange(k, k + 7)[0] != "unmuted"@[0]);
            } else {
                assert("-muted.ts"@.subrange(k, k + 7)[1] != "unmuted"@[1]);
            }
        }
    }
}

/// A text that begins with `p` still does after anything is appended.
proof fn lemma_starts_with_append(a: Seq<char>, b: Seq<char>, p: Seq<char>)
    requires
        starts_with(a, p),
    ensures
        starts_with(a + b, p),
{
    assert((a + b).subrange(0, p.len() as int) =~= a.subrange(0, p.len() as int));
}

/// An absolute URI stays absolute after anything is appended, and after its
/// end is cut, as long as its scheme and one more character are kept.
proof fn lemma_absolute_kept(a: Seq<char>, b: Seq<char>, keep: int)
    requires
        is_absolute(a),
        0 <= keep <= a.len(),
        keep == a.len() || keep >= 8,
    ensures
        is_absolute(a + b),
        is_absolute(a.subrange(0, keep) + b),
{
    reveal_strlit("https://");
    reveal_strlit("http://");
    let cut = a.subrange(0, keep);
    if starts_with(a, "https://"@) {
        lemma_starts_with_append(a, b, "https://"@);
        assert(cut.subrange(0, 8) =~= a.subrange(0, 8));
        lemma_starts_with_append(cut, b, "https://"@);
    } else {
        lemma_starts_with_append(a, b, "http://"@);
        assert(cut.subrange(0, 7) =~= a.subrange(0, 7));
        lemma_starts_with_append(cut, b, "http://"@);
    }
}

/// Where a segment URI may say `unmuted`: only in a `-unmuted.ts` ending (its
/// last 11 characters), and an absolute one keeps its scheme and host when
/// that ending goes.
pub open spec fn marker_only_at_end(uri: Seq<char>) -> bool {
    contains(uri, "unmuted"@) ==> uri.len() >= 11 && !contains(uri.subrange(0, uri.len() - 11), "unmuted"@)
        && (is_absolute(uri) ==> uri.len() >= 19)
}

/// A base URL under which the fast repair is idempotent: absolute, ending
/// with `/`, and not saying `unmuted`.
pub open spec fn is_plain_base(base: Seq<char>) -> bool {
    is_absolute(base) && base.len() > 0 && base.last() == '/' && !contains(base, "unmuted"@)
}

/// A repaired URI is absolute and no longer says `unmuted`, so repairing it
/// again, under any base, gives it back unchanged. This holds where the
/// marker stands nowhere but in a segment's `-unmuted.ts` ending, and the
/// base is absolute, ends with `/` and does not say `unmuted`.
pub proof fn lemma_fast_repair_idempotent(base: Seq<char>, second_base: Seq<char>, uri: Seq<char>)
    requires
        is_plain_base(base),
        marker_only_at_end(uri),
    ensures
        is_absolute(fast_repaired(base, uri)),
        !contains(fast_repaired(base, uri), "unmuted"@),
        fast_repaired(second_base, fast_repaired(base, uri)) == fast_repaired(base, uri),
{
    lemma_marker_facts();
    reveal_strlit("https://");
    reveal_strlit("http://");
    let w = "unmuted"@;
    let tail = "-muted.ts"@;
    let r = fast_repaired(base, uri);
    assert(base.len() >= 7);
    if is_absolute(uri) {
        if contains(uri, w) {
            let prefix = uri.subrange(0, uri.len() - 11);
            assert(r == prefix + tail);
            lemma_absolute_kept(uri, tail, uri.len() - 11);
            if contains(prefix + tail, w) {
                lemma_contains_across_seam(prefix, tail, w, '-');
            }
        } else {
            assert(r == uri);
        }
    } else {
        let url = base + uri;
        if contains(uri, w) {
            let prefix = uri.subrange(0, uri.len() - 11);
            assert(url.subrange(0, url.len() - 11) =~= base + prefix);
            assert(r == (base + prefix) + tail);
            lemma_absolute_kept(base, prefix + tail, base.len() as int);
            assert((base + prefix) + tail =~= base + (prefix + tail));
            if contains((base + prefix) + tail, w) {
                lemma_contains_across_seam(base + prefix, tail, w, '-');
                if contains(base + prefix, w) {
                    lemma_contains_across_seam(base, prefix, w, '/');
                }
            }
        } else {
            assert(r == url);
            lemma_absolute_kept(base, uri, base.len() as int);
            if contains(base + uri, w) {
                lemma_contains_across_seam(base, uri, w, '/');
            }
        }
    }
}

/// Repairing a repaired playlist again, under any base, gives the same
/// segments: every URI is kept and so is every duration (see
/// `lemma_fast_repair_idempotent` for where this holds).
pub proof fn lemma_fast_repair_twice(
    base: Seq<char>,
    second_base: Seq<char>,
    segments: Seq<PlaylistSegment>,
    once: Seq<PlaylistSegment>,
    twice: Seq<PlaylistSegment>,
)
    requires
        is_plain_base(base),
        forall|i: int| 0 <= i < segments.len() ==> marker_only_at_end((#[trigger] segments[i]).uri@),
        same_durations(once, segments),
        forall|i: int| 0 <= i < once.len() ==> (#[trigger] once[i]).uri@ == fast_repaired(base, segments[i].uri@),
        same_durations(twice, once),
        forall|i: int| 0 <= i < twice.len() ==> (#[trigger] twice[i]).uri@ == fast_repaired(second_base, once[i].uri@),
    ensures
        same_durations(twice, once),
        uris_of(twice) == uris_of(once),
{
    assert forall|i: int| 0 <= i < twice.len() implies (#[trigger] twice[i]).uri@ == once[i].uri@ by {
        lemma_fast_repair_idempotent(base, second_base, segments[i].uri@);
    }
    assert(uris_of(twice) =~= uris_of(once));
}

/// After a repair by probing, a segment that points to a `-muted.ts` file is
/// one whose unmuted URL answered 403, not 200, and it points to that URL's
/// muted file. This holds where no probed URL was itself a muted file.
pub proof fn lemma_muted_after_failed_probe(
    urls: Seq<Seq<char>>,
    statuses: Seq<Option<u16>>,
    repaired: Seq<Seq<char>>,
    i: int,
)
    requires
        urls.len() == statuses.len(),
        forall|j: int| 0 <= j < urls.len() ==> !ends_with(#[trigger] urls[j], "-muted.ts"@),
        repaired.to_multiset() == slow_decisions(urls, statuses).to_multiset(),
        0 <= i < repaired.len(),
        ends_with(repaired[i], "-muted.ts"@),
    ensures
        exists|j: int|
            0 <= j < urls.len() && statuses[j] == Some(403u16) && statuses[j] != Some(200u16)
                && #[trigger] slow_decisions(urls, statuses)[j]
                == repaired[i] && repaired[i] == slow_repaired(urls[j], statuses[j]),
{
    let decided = slow_decisions(urls, statuses);
    assert(repaired.to_multiset().count(repaired[i]) > 0) by {
        repaired.to_multiset_ensures();
        assert(repaired.contains(repaired[i]));
    }
    decided.to_multiset_ensures();
    assert(decided.contains(repaired[i]));
    let j = choose|j: int| 0 <= j < decided.len() && decided[j] == repaired[i];
    if statuses[j] != Some(403u16) {
        assert(decided[j] == urls[j]);
    }
}

impl PlaylistFixError {
    /// What went wrong, in words.
    pub fn message(&self) -> (r: String)
        ensures
            r@ == (match self {
                PlaylistFixError::RequestError(e) => "couldn't process the url: "@ + e@,
                PlaylistFixError::ParseError(e) => "couldn't parse the playlist: "@ + e@,
                PlaylistFixError::IoError(e) => "io error: "@ + e@,
                PlaylistFixError::URLError => "only twitch.tv and cloudfront.net URLs are supported"@,
            }),
    {
        match self {
            PlaylistFixError::RequestError(e) => prefixed("couldn't process the url: ", e.as_str()),
            PlaylistFixError::ParseError(e) => prefixed("couldn't parse the playlist: ", e.as_str()),
            PlaylistFixError::IoError(e) => prefixed("io error: ", e.as_str()),
            PlaylistFixError::URLError => String::from_str(
                "only twitch.tv and cloudfront.net URLs are supported",
            ),
        }
    }
}

} // verus!
