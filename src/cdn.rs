//! The registry of CDN hostnames that serve VOD segments.
use vstd::prelude::*;
use vstd::string::StringExecFns;
use crate::text::{chars_of, split_on, text_equals};
use vstd::string::StrSliceExecFns;

verus! {

/// `a` comes strictly before `b` in lexicographic order of code points,
/// which is the order of Rust's `str`.
pub open spec fn text_lt(a: Seq<char>, b: Seq<char>) -> bool
    decreases a.len(),
{
    if a.len() == 0 {
        b.len() > 0
    } else if b.len() == 0 {
        false
    } else if a[0] != b[0] {
        (a[0] as int) < (b[0] as int)
    } else {
        text_lt(a.drop_first(), b.drop_first())
    }
}

/// Each entry comes strictly before the next: sorted, without repeats.
pub open spec fn strictly_sorted(s: Seq<Seq<char>>) -> bool {
    forall|i: int, j: int| 0 <= i < j < s.len() ==> text_lt(#[trigger] s[i], #[trigger] s[j])
}

/// The hostnames that the library knows of.
pub open spec fn builtin_cdn_hosts() -> Seq<Seq<char>> {
    seq![
        "vod-secure.twitch.tv"@,
        "vod-metro.twitch.tv"@,
        "vod-pop-secure.twitch.tv"@,
        "d2e2de1etea730.cloudfront.net"@,
        "dqrpb9wgowsf5.cloudfront.net"@,
        "ds0h3roq6wcgc.cloudfront.net"@,
        "d2nvs31859zcd8.cloudfront.net"@,
        "d2aba1wr3818hz.cloudfront.net"@,
        "d3c27h4odz752x.cloudfront.net"@,
        "dgeft87wbj63p.cloudfront.net"@,
        "d1m7jfoe9zdc1j.cloudfront.net"@,
        "d1ymi26ma8va5x.cloudfront.net"@,
        "d2vjef5jvl6bfs.cloudfront.net"@,
        "d3vd9lfkzbru3h.cloudfront.net"@,
        "d1mhjrowxxagfy.cloudfront.net"@,
        "ddacn6pr5v0tl.cloudfront.net"@,
        "d3aqoihi2n8ty8.cloudfront.net"@,
        "d1xhnb4ptk05mw.cloudfront.net"@,
        "d6tizftlrpuof.cloudfront.net"@,
        "d36nr0u3xmc4mm.cloudfront.net"@,
        "d1oca24q5dwo6d.cloudfront.net"@,
        "d2um2qdswy1tb0.cloudfront.net"@,
        "d1w2poirtb3as9.cloudfront.net"@,
        "d6d4ismr40iw.cloudfront.net"@,
        "d1g1f25tn8m2e6.cloudfront.net"@,
        "dykkng5hnh52u.cloudfront.net"@,
        "d2dylwb3shzel1.cloudfront.net"@,
        "d2xmjdvx03ij56.cloudfront.net"@
    ]
}

/// The hostnames that a registry built from the known ones and `extra` holds.
pub open spec fn compiled_hosts(extra: Seq<Seq<char>>) -> Set<Seq<char>> {
    builtin_cdn_hosts().to_set().union(extra.to_set())
}

pub proof fn lemma_text_lt_irreflexive(a: Seq<char>)
    ensures
        !text_lt(a, a),
    decreases a.len(),
{
    if a.len() > 0 {
        lemma_text_lt_irreflexive(a.drop_first());
    }
}

pub proof fn lemma_text_lt_trichotomy(a: Seq<char>, b: Seq<char>)
    ensures
        a == b || text_lt(a, b) || text_lt(b, a),
    decreases a.len(),
{
    if a.len() > 0 && b.len() > 0 && a[0] == b[0] {
        lemma_text_lt_trichotomy(a.drop_first(), b.drop_first());
        if a.drop_first() == b.drop_first() {
            assert(a =~= seq![a[0]] + a.drop_first());
            assert(b =~= seq![b[0]] + b.drop_first());
        }
    } else if a.len() == 0 && b.len() == 0 {
        assert(a =~= b);
    } else if a.len() > 0 && b.len() > 0 {
        assert((a[0] as int) != (b[0] as int));
    }
}

pub proof fn lemma_text_lt_transitive(a: Seq<char>, b: Seq<char>, c: Seq<char>)
    requires
        text_lt(a, b),
        text_lt(b, c),
    ensures
        text_lt(a, c),
    decreases a.len(),
{
    if a.len() > 0 && b.len() > 0 && c.len() > 0 && a[0] == b[0] && b[0] == c[0] {
        lemma_text_lt_transitive(a.drop_first(), b.drop_first(), c.drop_first());
    }
}

pub proof fn lemma_text_lt_asymmetric(a: Seq<char>, b: Seq<char>)
    requires
        text_lt(a, b),
    ensures
        !text_lt(b, a),
{
    if text_lt(b, a) {
        lemma_text_lt_transitive(a, b, a);
        lemma_text_lt_irreflexive(a);
    }
}

proof fn lemma_sorted_no_duplicates(s: Seq<Seq<char>>)
    requires
        strictly_sorted(s),
    ensures
        s.no_duplicates(),
{
    assert forall|i: int, j: int| 0 <= i < s.len() && 0 <= j < s.len() && i != j implies s[i] != s[j] by {
        if i < j {
            assert(text_lt(s[i], s[j]));
        } else {
            assert(text_lt(s[j], s[i]));
        }
        lemma_text_lt_irreflexive(s[i]);
    }
}

/// Two sorted lists without repeats that hold the same hostnames are the same list.
pub proof fn lemma_sorted_unique(s: Seq<Seq<char>>, t: Seq<Seq<char>>)
    requires
        strictly_sorted(s),
        strictly_sorted(t),
        s.to_set() == t.to_set(),
    ensures
        s == t,
    decreases s.len(),
{
    lemma_sorted_no_duplicates(s);
    lemma_sorted_no_duplicates(t);
    if s.len() == 0 || t.len() == 0 {
        if s.len() > 0 {
            assert(s.to_set().contains(s[0]));
        }
        if t.len() > 0 {
            assert(t.to_set().contains(t[0]));
        }
        assert(s =~= t);
    } else {
        assert(s.to_set().contains(s[0]));
        assert(t.to_set().contains(t[0]));
        let k = choose|k: int| 0 <= k < t.len() && t[k] == s[0];
        let m = choose|m: int| 0 <= m < s.len() && s[m] == t[0];
        if s[0] != t[0] {
            assert(k > 0 && m > 0);
            assert(text_lt(t[0], t[k]));
            assert(text_lt(s[0], s[m]));
            lemma_text_lt_asymmetric(t[0], s[0]);
        }
        let s1 = s.drop_first();
        let t1 = t.drop_first();
        assert(strictly_sorted(s1)) by {
            assert forall|i: int, j: int| 0 <= i < j < s1.len() implies text_lt(#[trigger] s1[i], #[trigger] s1[j]) by {
                assert(s1[i] == s[i + 1] && s1[j] == s[j + 1]);
            }
        }
        assert(strictly_sorted(t1)) by {
            assert forall|i: int, j: int| 0 <= i < j < t1.len() implies text_lt(#[trigger] t1[i], #[trigger] t1[j]) by {
                assert(t1[i] == t[i + 1] && t1[j] == t[j + 1]);
            }
        }
        assert(s1.to_set() =~= t1.to_set()) by {
            assert forall|x: Seq<char>| s1.contains(x) implies t1.contains(x) by {
                let a = choose|a: int| 0 <= a < s1.len() && s1[a] == x;
                assert(s.contains(x)) by { assert(s[a + 1] == x); }
                assert(t.to_set().contains(x));
                let b = choose|b: int| 0 <= b < t.len() && t[b] == x;
                assert(b != 0);
                assert(t1[b - 1] == x);
            }
            assert forall|x: Seq<char>| t1.contains(x) implies s1.contains(x) by {
                let a = choose|a: int| 0 <= a < t1.len() && t1[a] == x;
                assert(t.contains(x)) by { assert(t[a + 1] == x); }
                assert(s.to_set().contains(x));
                let b = choose|b: int| 0 <= b < s.len() && s[b] == x;
                assert(b != 0);
                assert(s1[b - 1] == x);
            }
        }
        lemma_sorted_unique(s1, t1);
        assert(s =~= seq![s[0]] + s1);
        assert(t =~= seq![t[0]] + t1);
    }
}

/// A registry built with no extra hostname holds exactly the known ones. One
/// built with a hostname `x` that is not among them holds the known ones and
/// `x`, each once, so one entry more. The list is a function of the set of
/// extra hostnames alone: the order in which they are given does not matter.
pub proof fn lemma_cdn_registry(
    x: Seq<char>,
    plain: Seq<Seq<char>>,
    extended: Seq<Seq<char>>,
    first: Seq<Seq<char>>,
    second: Seq<Seq<char>>,
    first_extra: Seq<Seq<char>>,
    second_extra: Seq<Seq<char>>,
)
    requires
        !builtin_cdn_hosts().contains(x),
        strictly_sorted(plain),
        plain.to_set() == compiled_hosts(Seq::empty()),
        strictly_sorted(extended),
        extended.to_set() == compiled_hosts(seq![x]),
        first_extra.to_set() == second_extra.to_set(),
        strictly_sorted(first),
        first.to_set() == compiled_hosts(first_extra),
        strictly_sorted(second),
        second.to_set() == compiled_hosts(second_extra),
    ensures
        plain.to_set() == builtin_cdn_hosts().to_set(),
        extended.to_set() == builtin_cdn_hosts().to_set().insert(x),
        plain.no_duplicates(),
        extended.no_duplicates(),
        extended.len() == plain.len() + 1,
        first == second,
{
    assert(Seq::<Seq<char>>::empty().to_set() =~= Set::empty());
    assert(plain.to_set() =~= builtin_cdn_hosts().to_set());
    assert(seq![x].to_set() =~= set![x]) by {
        assert(seq![x][0] == x);
        assert forall|y: Seq<char>| seq![x].contains(y) implies y == x by {
            let k = choose|k: int| 0 <= k < 1 && seq![x][k] == y;
        }
    }
    assert(extended.to_set() =~= plain.to_set().insert(x));
    lemma_sorted_no_duplicates(plain);
    lemma_sorted_no_duplicates(extended);
    plain.unique_seq_to_set();
    extended.unique_seq_to_set();
    assert(!plain.to_set().contains(x));
    lemma_sorted_unique(first, second);
}

/// Whether `a` comes strictly before `b`, from position `i` on.
fn text_less_from(a: &Vec<char>, b: &Vec<char>, i: usize) -> (r: bool)
    requires
        i <= a@.len(),
        i <= b@.len(),
    ensures
        r == text_lt(a@.subrange(i as int, a@.len() as int), b@.subrange(i as int, b@.len() as int)),
    decreases a@.len() - i,
{
    let ghost sa = a@.subrange(i as int, a@.len() as int);
    let ghost sb = b@.subrange(i as int, b@.len() as int);
    if i == a.len() {
        i < b.len()
    } else if i == b.len() {
        false
    } else if a[i] != b[i] {
        a[i] < b[i]
    } else {
        assert(sa.drop_first() =~= a@.subrange(i + 1, a@.len() as int));
        assert(sb.drop_first() =~= b@.subrange(i + 1, b@.len() as int));
        text_less_from(a, b, i + 1)
    }
}

/// Whether `a` comes strictly before `b`.
pub fn text_less(a: &str, b: &str) -> (r: bool)
    ensures
        r == text_lt(a@, b@),
{
    let ac = chars_of(a);
    let bc = chars_of(b);
    assert(ac@.subrange(0, ac@.len() as int) =~= ac@);
    assert(bc@.subrange(0, bc@.len() as int) =~= bc@);
    text_less_from(&ac, &bc, 0)
}

/// The known hostnames, in the order the library lists them.
pub fn builtin_cdns() -> (r: Vec<String>)
    ensures
        r.deep_view() == builtin_cdn_hosts(),
{
    let mut r: Vec<String> = Vec::new();
    r.push(String::from_str("vod-secure.twitch.tv"));
    r.push(String::from_str("vod-metro.twitch.tv"));
    r.push(String::from_str("vod-pop-secure.twitch.tv"));
    r.push(String::from_str("d2e2de1etea730.cloudfront.net"));
    r.push(String::from_str("dqrpb9wgowsf5.cloudfront.net"));
    r.push(String::from_str("ds0h3roq6wcgc.cloudfront.net"));
    r.push(String::from_str("d2nvs31859zcd8.cloudfront.net"));
    r.push(String::from_str("d2aba1wr3818hz.cloudfront.net"));
    r.push(String::from_str("d3c27h4odz752x.cloudfront.net"));
    r.push(String::from_str("dgeft87wbj63p.cloudfront.net"));
    r.push(String::from_str("d1m7jfoe9zdc1j.cloudfront.net"));
    r.push(String::from_str("d1ymi26ma8va5x.cloudfront.net"));
    r.push(String::from_str("d2vjef5jvl6bfs.cloudfront.net"));
    r.push(String::from_str("d3vd9lfkzbru3h.cloudfront.net"));
    r.push(String::from_str("d1mhjrowxxagfy.cloudfront.net"));
    r.push(String::from_str("ddacn6pr5v0tl.cloudfront.net"));
    r.push(String::from_str("d3aqoihi2n8ty8.cloudfront.net"));
    r.push(String::from_str("d1xhnb4ptk05mw.cloudfront.net"));
    r.push(String::from_str("d6tizftlrpuof.cloudfront.net"));
    r.push(String::from_str("d36nr0u3xmc4mm.cloudfront.net"));
    r.push(String::from_str("d1oca24q5dwo6d.cloudfront.net"));
    r.push(String::from_str("d2um2qdswy1tb0.cloudfront.net"));
    r.push(String::from_str("d1w2poirtb3as9.cloudfront.net"));
    r.push(String::from_str("d6d4ismr40iw.cloudfront.net"));
    r.push(String::from_str("d1g1f25tn8m2e6.cloudfront.net"));
    r.push(String::from_str("dykkng5hnh52u.cloudfront.net"));
    r.push(String::from_str("d2dylwb3shzel1.cloudfront.net"));
    r.push(String::from_str("d2xmjdvx03ij56.cloudfront.net"));
    assert(r.deep_view() =~= builtin_cdn_hosts());
    r
}

/// Adds `host` to a sorted list of distinct hostnames, where it belongs;
/// the list is unchanged when it already holds `host`.
pub fn insert_host(hosts: &mut Vec<String>, host: String)
    requires
        strictly_sorted(old(hosts).deep_view()),
    ensures
        strictly_sorted(final(hosts).deep_view()),
        final(hosts).deep_view().to_set() == old(hosts).deep_view().to_set().insert(host@),
{
    let ghost before = hosts.deep_view();
    let mut p: usize = 0;
    while p < hosts.len() && text_less(hosts[p].as_str(), host.as_str())
        invariant
            hosts.deep_view() == before,
            strictly_sorted(before),
            0 <= p <= before.len(),
            forall|i: int| 0 <= i < p ==> text_lt(#[trigger] before[i], host@),
        decreases before.len() - p,
    {
        p = p + 1;
    }
    if p < hosts.len() && hosts[p] == host {
        assert(before.to_set().insert(host@) =~= before.to_set()) by {
            assert(before[p as int] == host@);
            assert(before.contains(host@));
        }
        return;
    }
    proof {
        if p < before.len() {
            lemma_text_lt_trichotomy(before[p as int], host@);
            assert(text_lt(host@, before[p as int]));
            assert forall|j: int| p <= j < before.len() implies text_lt(host@, #[trigger] before[j]) by {
                if j > p {
                    lemma_text_lt_transitive(host@, before[p as int], before[j]);
                }
            }
        }
    }
    hosts.insert(p, host);
    let ghost after = hosts.deep_view();
    assert(after =~= before.insert(p as int, host@));
    assert(strictly_sorted(after)) by {
        assert forall|i: int, j: int| 0 <= i < j < after.len() implies text_lt(#[trigger] after[i], #[trigger] after[j]) by {
            if j < p {
            } else if j == p {
            } else if i < p {
                assert(after[j] == before[j - 1]);
                lemma_text_lt_transitive(after[i], host@, after[j]);
            } else if i == p {
                assert(after[j] == before[j - 1]);
            } else {
                assert(after[i] == before[i - 1]);
                assert(after[j] == before[j - 1]);
            }
        }
    }
    assert(after.to_set() =~= before.to_set().insert(host@)) by {
        assert forall|x: Seq<char>| after.contains(x) <==> before.contains(x) || x == host@ by {
            if after.contains(x) {
                let k = choose|k: int| 0 <= k < after.len() && after[k] == x;
                if k < p {
                    assert(before[k] == x);
                } else if k > p {
                    assert(before[k - 1] == x);
                }
            }
            if before.contains(x) {
                let k = choose|k: int| 0 <= k < before.len() && before[k] == x;
                if k < p {
                    assert(after[k] == x);
                } else {
                    assert(after[k + 1] == x);
                }
            }
            if x == host@ {
                assert(after[p as int] == x);
            }
        }
    }
}

/// The registry of CDN hostnames: the known ones together with `extra`,
/// sorted, each once.
pub fn compile_cdn_list(extra: Option<Vec<String>>) -> (r: Vec<String>)
    ensures
        strictly_sorted(r.deep_view()),
        r.deep_view().to_set() == compiled_hosts(
            match extra {
                Some(e) => e.deep_view(),
                None => Seq::<Seq<char>>::empty(),
            },
        ),
{
    let mut r: Vec<String> = Vec::new();
    let builtin = builtin_cdns();
    let extra_hosts: Vec<String> = match extra {
        Some(e) => e,
        None => Vec::new(),
    };
    let ghost known = builtin.deep_view();
    let ghost added = extra_hosts.deep_view();
    assert(r.deep_view().to_set() =~= known.subrange(0, 0).to_set());
    let mut i: usize = 0;
    while i < builtin.len()
        invariant
            builtin.deep_view() == known,
            0 <= i <= known.len(),
            strictly_sorted(r.deep_view()),
            r.deep_view().to_set() == known.subrange(0, i as int).to_set(),
        decreases known.len() - i,
    {
        insert_host(&mut r, builtin[i].clone());
        proof {
            assert(known.subrange(0, i + 1) =~= known.subrange(0, i as int).push(known[i as int]));
            known.subrange(0, i as int).lemma_push_to_set_commute(known[i as int]);
        }
        i = i + 1;
    }
    assert(known.subrange(0, known.len() as int) =~= known);
    let mut j: usize = 0;
    assert(added.subrange(0, 0).to_set() =~= Set::<Seq<char>>::empty());
    while j < extra_hosts.len()
        invariant
            extra_hosts.deep_view() == added,
            0 <= j <= added.len(),
            strictly_sorted(r.deep_view()),
            r.deep_view().to_set() == known.to_set().union(added.subrange(0, j as int).to_set()),
        decreases added.len() - j,
    {
        insert_host(&mut r, extra_hosts[j].clone());
        proof {
            assert(added.subrange(0, j + 1) =~= added.subrange(0, j as int).push(added[j as int]));
            added.subrange(0, j as int).lemma_push_to_set_commute(added[j as int]);
            assert(known.to_set().union(added.subrange(0, j + 1).to_set()) =~= known.to_set().union(
                added.subrange(0, j as int).to_set(),
            ).insert(added[j as int]));
        }
        j = j + 1;
    }
    assert(added.subrange(0, added.len() as int) =~= added);
    r
}

/// How a file of extra CDN hostnames is read, by its extension.
#[derive(Debug, Clone, Copy, PartialEq, Eq, Structural)]
pub enum CdnFileFormat {
    /// `.json`: an object with a `cdns` list.
    Json,
    /// `.toml`: a `cdns` list.
    Toml,
    /// `.yaml` or `.yml`: a `cdns` list.
    Yaml,
    /// `.txt`: one hostname per line.
    Text,
    /// No extension: the whole file, without its whitespace, is one hostname.
    Bare,
    /// Any other extension: the file is not read.
    Unsupported,
}

pub open spec fn format_of(extension: Option<Seq<char>>) -> CdnFileFormat {
    match extension {
        None => CdnFileFormat::Bare,
        Some(e) => if e == "json"@ {
            CdnFileFormat::Json
        } else if e == "toml"@ {
            CdnFileFormat::Toml
        } else if e == "yaml"@ || e == "yml"@ {
            CdnFileFormat::Yaml
        } else if e == "txt"@ {
            CdnFileFormat::Text
        } else {
            CdnFileFormat::Unsupported
        },
    }
}

/// How to read a file of extra CDN hostnames whose name has `extension`.
pub fn cdn_file_format(extension: Option<String>) -> (r: CdnFileFormat)
    ensures
        r == format_of(
            match extension {
                Some(e) => Some(e@),
                None => None,
            },
        ),
{
    match extension {
        None => CdnFileFormat::Bare,
        Some(e) => if text_equals(&e, "json") {
            CdnFileFormat::Json
        } else if text_equals(&e, "toml") {
            CdnFileFormat::Toml
        } else if text_equals(&e, "yaml") || text_equals(&e, "yml") {
            CdnFileFormat::Yaml
        } else if text_equals(&e, "txt") {
            CdnFileFormat::Text
        } else {
            CdnFileFormat::Unsupported
        },
    }
}

pub open spec fn strip_cr(line: Seq<char>) -> Seq<char> {
    if line.len() > 0 && line.last() == '\r' {
        line.drop_last()
    } else {
        line
    }
}

/// The lines of a text, as `str::lines` gives them: split at `\n` or `\r\n`,
/// without the terminators, and without an empty piece after a final line
/// feed.
pub open spec fn text_lines(s: Seq<char>) -> Seq<Seq<char>> {
    let pieces = split_on(s, '\n');
    let ended = pieces.drop_last();
    let ended_lines = Seq::new(ended.len(), |k: int| strip_cr(ended[k]));
    if pieces.last().len() == 0 {
        ended_lines
    } else {
        ended_lines.push(pieces.last())
    }
}

/// The lines of `content`, one hostname each (a `.txt` file).
pub fn text_hosts(content: &str) -> (r: Vec<String>)
    ensures
        r.deep_view() == text_lines(content@),
{
    let chars = chars_of(content);
    let n = chars.len();
    let mut r: Vec<String> = Vec::new();
    let ghost mut raw: Seq<Seq<char>> = seq![];
    let mut start: usize = 0;
    let mut i: usize = 0;
    assert(content@.subrange(0, 0) =~= Seq::<char>::empty());
    assert(split_on(content@.subrange(0, 0), '\n') =~= raw.push(content@.subrange(0, 0)));
    while i < n
        invariant
            chars@ == content@,
            n == chars@.len(),
            0 <= start <= i <= n,
            split_on(content@.subrange(0, i as int), '\n') == raw.push(content@.subrange(start as int, i as int)),
            r.deep_view() == Seq::new(raw.len(), |k: int| strip_cr(raw[k])),
        decreases n - i,
    {
        let ghost prefix = content@.subrange(0, i + 1);
        assert(prefix.drop_last() =~= content@.subrange(0, i as int));
        assert(prefix.last() == chars@[i as int]);
        if chars[i] == '\n' {
            let piece = content.substring_char(start, i);
            let keep = if i > start && chars[i - 1] == '\r' { i - 1 } else { i };
            let line = String::from_str(content.substring_char(start, keep));
            assert(line@ == strip_cr(piece@));
            let ghost before = r.deep_view();
            let ghost lv = line@;
            r.push(line);
            proof {
                let old_raw = raw;
                assert(r.deep_view() =~= before.push(lv));
                raw = raw.push(piece@);
                assert(raw.drop_last() == old_raw);
                assert(r.deep_view() =~= Seq::new(raw.len(), |k: int| strip_cr(raw[k])));
                assert(content@.subrange(i + 1, i + 1) =~= Seq::<char>::empty());
            }
            start = i + 1;
        } else {
            assert(content@.subrange(start as int, i + 1) =~= content@.subrange(start as int, i as int).push(
                chars@[i as int],
            ));
            assert(raw.push(content@.subrange(start as int, i + 1)) =~= raw.push(
                content@.subrange(start as int, i as int),
            ).update(raw.len() as int, content@.subrange(start as int, i as int).push(chars@[i as int])));
        }
        i = i + 1;
    }
    assert(content@.subrange(0, n as int) =~= content@);
    let ghost pieces = split_on(content@, '\n');
    assert(pieces.drop_last() =~= raw);
    if start < n {
        let last = String::from_str(content.substring_char(start, n));
        let ghost before = r.deep_view();
        let ghost lv = last@;
        r.push(last);
        assert(r.deep_view() =~= before.push(lv));
        assert(r.deep_view() =~= text_lines(content@));
    } else {
        assert(r.deep_view() =~= text_lines(content@));
    }
    r
}

/// Whether `c` is white space in Unicode's sense (`char::is_whitespace`).
pub open spec fn is_unicode_whitespace(c: char) -> bool {
    ('\u{9}' <= c && c <= '\u{d}') || c == ' ' || c == '\u{85}' || c == '\u{a0}' || c == '\u{1680}'
        || ('\u{2000}' <= c && c <= '\u{200a}') || c == '\u{2028}' || c == '\u{2029}' || c == '\u{202f}'
        || c == '\u{205f}' || c == '\u{3000}'
}

fn whitespace(c: char) -> (r: bool)
    ensures
        r == is_unicode_whitespace(c),
{
    ('\u{9}' <= c && c <= '\u{d}') || c == ' ' || c == '\u{85}' || c == '\u{a0}' || c == '\u{1680}'
        || ('\u{2000}' <= c && c <= '\u{200a}') || c == '\u{2028}' || c == '\u{2029}' || c == '\u{202f}'
        || c == '\u{205f}' || c == '\u{3000}'
}

/// The hostname of a file without extension: its text without white space,
/// if anything is left.
pub open spec fn bare_hosts_of(s: Seq<char>) -> Seq<Seq<char>> {
    let kept = s.filter(|c: char| !is_unicode_whitespace(c));
    if kept.len() == 0 {
        seq![]
    } else {
        seq![kept]
    }
}

/// The hostname of a file without extension: its whole text without white
/// space, if anything is left.
pub fn bare_hosts(content: &str) -> (r: Vec<String>)
    ensures
        r.deep_view() == bare_hosts_of(content@),
{
    let chars = chars_of(content);
    let mut kept = String::new();
    let mut i: usize = 0;
    while i < chars.len()
        invariant
            chars@ == content@,
            0 <= i <= chars@.len(),
            kept@ == content@.subrange(0, i as int).filter(|c: char| !is_unicode_whitespace(c)),
        decreases chars@.len() - i,
    {
        let ghost prefix = content@.subrange(0, i + 1);
        assert(prefix.drop_last() =~= content@.subrange(0, i as int));
        reveal(Seq::filter);
        if !whitespace(chars[i]) {
            let one = content.substring_char(i, i + 1);
            assert(one@ =~= seq![chars@[i as int]]);
            kept.append(one);
        }
        i = i + 1;
    }
    assert(content@.subrange(0, chars@.len() as int) =~= content@);
    let mut r: Vec<String> = Vec::new();
    if kept.unicode_len() > 0 {
        let ghost v = kept@;
        r.push(kept);
        assert(r.deep_view() =~= seq![v]);
    } else {
        assert(r.deep_view() =~= Seq::<Seq<char>>::empty());
    }
    r
}

} // verus!
