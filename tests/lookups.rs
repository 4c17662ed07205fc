use tbf::cdn::{builtin_cdns, compile_cdn_list};
use tbf::hash::vod_hash;
use tbf::models::{AvailabilityCheck, ReturnURL, TwitchURL};
use tbf::timestamp::{parse_timestamp, TimestampError};
use tbf::vods::{
    availability_checks, available_urls, bruteforce_candidates, bruteforce_space, candidates_for_timestamp,
    classify_probe, exact_checks, lookup_result, ProbeOutcome,
};

const DANSGAMING_DIR: &str = "d3dcbaf880c9e36ed8c8_dansgaming_42218705421_1622854217";

/// A stand-in for the CDNs: the dansgaming VOD, unmuted, on two of them.
fn fake_status(url: &str) -> Option<u16> {
    let hosts = ["d1m7jfoe9zdc1j.cloudfront.net", "d2vjef5jvl6bfs.cloudfront.net"];
    for host in hosts {
        let prefix = format!("https://{}/{}/chunked/", host, DANSGAMING_DIR);
        if url == format!("{}index-dvr.m3u8", prefix) || url == format!("{}1.ts", prefix) {
            return Some(200);
        }
    }
    Some(403)
}

fn probe_checks(checks: &Vec<AvailabilityCheck>) -> Vec<(Option<u16>, Option<u16>)> {
    checks.iter().map(|c| (fake_status(&c.fragment), fake_status(&c.fragment_muted))).collect()
}

fn expected_dansgaming() -> Vec<ReturnURL> {
    vec![
        ReturnURL {
            playlist: format!("https://d1m7jfoe9zdc1j.cloudfront.net/{}/chunked/index-dvr.m3u8", DANSGAMING_DIR),
            muted: false,
        },
        ReturnURL {
            playlist: format!("https://d2vjef5jvl6bfs.cloudfront.net/{}/chunked/index-dvr.m3u8", DANSGAMING_DIR),
            muted: false,
        },
    ]
}

fn exact_lookup(username: &str, id: i64, stamp: &str) -> Result<Option<Vec<ReturnURL>>, TimestampError> {
    let cdns = compile_cdn_list(None);
    let checks = exact_checks(username, id, stamp, &cdns)?;
    let probes = probe_checks(&checks);
    Ok(lookup_result(available_urls(&checks, &probes)))
}

fn bruteforce_lookup(
    username: &str,
    id: i64,
    from: &str,
    to: &str,
) -> Result<Option<Vec<ReturnURL>>, TimestampError> {
    let cdns = compile_cdn_list(None);
    let space = bruteforce_space(username, id, from, to, &cdns)?;
    let hit: Option<&TwitchURL> =
        space.iter().find(|c| classify_probe(fake_status(&c.full_url)) == ProbeOutcome::Hit);
    match hit {
        None => Ok(None),
        Some(hit) => {
            let checks = availability_checks(&hit.hash, username, id, hit.timestamp, &cdns);
            let probes = probe_checks(&checks);
            Ok(lookup_result(available_urls(&checks, &probes)))
        }
    }
}

#[test]
fn parse_timestamps() {
    assert_eq!(parse_timestamp("1657871396").unwrap(), 1657871396, "testing unix timestamp parsing");
    assert_eq!(parse_timestamp("2022-07-15T07:49:56+00:00").unwrap(), 1657871396, "testing rfc parsing");
    assert_eq!(
        parse_timestamp("2022-07-15 07:49:56 UTC").unwrap(),
        1657871396,
        "testing parsing time with the UTC tag"
    );
    assert_eq!(
        parse_timestamp("2022-07-15 07:49:56").unwrap(),
        1657871396,
        "testing parsing time w/o the UTC tag"
    );
    assert_eq!(parse_timestamp("15-07-2022 07:49").unwrap(), 1657871340, "testing parsing time w/o seconds");
    assert!(parse_timestamp("2022-07-15 0749").is_err(), "testing parsing wrong timestamps");
}

#[test]
fn parse_timestamp_errors() {
    assert_eq!(parse_timestamp(""), Err(TimestampError::InvalidNumber));
    assert_eq!(parse_timestamp("99999999999999999999"), Err(TimestampError::InvalidNumber));
    assert_eq!(parse_timestamp("9223372036854775807"), Ok(i64::MAX));
    assert_eq!(parse_timestamp("2022-07-15 07:49"), Err(TimestampError::InvalidDate));
    assert_eq!(parse_timestamp("2022-07-15T09:49:56+02:00"), Ok(1657871396));
    assert_eq!(parse_timestamp("2022-07-15T07:49:56Z"), Ok(1657871396));
    assert_eq!(parse_timestamp("2022-07-15 07:49:56 UTC+1"), Err(TimestampError::InvalidDate));
}

#[test]
fn hash_of_known_vod() {
    let hash = vod_hash("dansgaming", 42218705421, 1622854217);
    assert_eq!(hash, "d3dcbaf880c9e36ed8c8");
    assert_eq!(vod_hash("dansgaming", 42218705421, 1622854217), hash);
    assert_eq!(vod_hash("forsen", 23722143840, 1479745189), "d45bc961583725d59867");
    let typo = vod_hash("dansgming", 42218705421, 1622854217);
    assert_eq!(typo.len(), 20);
    assert!(typo.chars().all(|c| c.is_ascii_hexdigit() && !c.is_ascii_uppercase()));
    assert_ne!(typo, hash);
}

#[test]
fn candidates_share_one_hash() {
    let cdns = vec!["a.example".to_string(), "b.example".to_string()];
    let c = candidates_for_timestamp("dansgaming", 42218705421, 1622854217, &cdns);
    assert_eq!(c.len(), 2);
    assert_eq!(c[0].full_url, format!("https://a.example/{}/chunked/index-dvr.m3u8", DANSGAMING_DIR));
    assert_eq!(c[1].full_url, format!("https://b.example/{}/chunked/index-dvr.m3u8", DANSGAMING_DIR));
    assert_eq!(c[0].hash, "d3dcbaf880c9e36ed8c8");
    assert_eq!(c[1].timestamp, 1622854217);
}

#[test]
fn bruteforce_space_is_timestamp_major() {
    let cdns = vec!["a.example".to_string(), "b.example".to_string()];
    let space = bruteforce_candidates("u", 1, -1, 1, &cdns);
    assert_eq!(space.len(), 6);
    let stamps: Vec<i64> = space.iter().map(|c| c.timestamp).collect();
    assert_eq!(stamps, vec![-1, -1, 0, 0, 1, 1]);
    assert!(space[3].full_url.starts_with("https://b.example/"));
    assert!(space[3].full_url.ends_with("_u_1_0/chunked/index-dvr.m3u8"));
    assert!(bruteforce_candidates("u", 1, 2, 1, &cdns).is_empty());
    let edge = bruteforce_candidates("u", 1, i64::MAX, i64::MAX, &cdns);
    assert_eq!(edge.len(), 2);
    assert!(edge[0].full_url.ends_with("_u_1_9223372036854775807/chunked/index-dvr.m3u8"));
}

#[test]
fn probe_classification() {
    assert_eq!(classify_probe(Some(200)), ProbeOutcome::Hit);
    assert_eq!(classify_probe(Some(403)), ProbeOutcome::Miss);
    assert_eq!(classify_probe(Some(404)), ProbeOutcome::Miss);
    assert_eq!(classify_probe(Some(429)), ProbeOutcome::Inconclusive);
    assert_eq!(classify_probe(None), ProbeOutcome::Inconclusive);
}

#[test]
fn check_availability() {
    let cdns = compile_cdn_list(None);
    let checks = availability_checks("d3dcbaf880c9e36ed8c8", "dansgaming", 42218705421, 1622854217, &cdns);
    assert_eq!(checks.len(), cdns.len());
    let probes = probe_checks(&checks);
    assert_eq!(available_urls(&checks, &probes), expected_dansgaming(), "testing valid vod (dansgaming - 2021)");

    let checks = availability_checks("d45bc961583725d59867", "forsen", 23722143840, 1479745189, &cdns);
    let probes = probe_checks(&checks);
    let none: Vec<ReturnURL> = vec![];
    assert_eq!(available_urls(&checks, &probes), none, "testing invalid vod (forsen - 2016)");
}

#[test]
fn availability_mute_flags() {
    let cdns = vec!["a.example".to_string(), "b.example".to_string(), "c.example".to_string()];
    let checks = availability_checks("h", "u", 1, 2, &cdns);
    assert_eq!(checks[0].fragment, "https://a.example/h_u_1_2/chunked/1.ts");
    assert_eq!(checks[0].fragment_muted, "https://a.example/h_u_1_2/chunked/1-muted.ts");
    assert_eq!(checks[0].playlist, "https://a.example/h_u_1_2/chunked/index-dvr.m3u8");
    let probes = vec![(Some(403), Some(200)), (None, Some(200)), (Some(200), Some(200))];
    let found = available_urls(&checks, &probes);
    assert_eq!(
        found,
        vec![
            ReturnURL { playlist: "https://a.example/h_u_1_2/chunked/index-dvr.m3u8".to_string(), muted: true },
            ReturnURL { playlist: "https://c.example/h_u_1_2/chunked/index-dvr.m3u8".to_string(), muted: false },
        ]
    );
    assert_eq!(lookup_result(vec![]), None);
}

#[test]
fn exact() {
    let e = exact_lookup("dansgaming", 42218705421, "2021-06-05 00:50:17").unwrap().unwrap();
    assert_eq!(e, expected_dansgaming(), "testing exact with results");

    let e_wrong = exact_lookup("dansgming", 42218705421, "2021-06-05 00:50:17").unwrap();
    assert_eq!(e_wrong, None, "testing exact with no results");

    let e_err = exact_lookup("mrmouton", 39905263305, "2022-07-12 1200");
    assert!(e_err.is_err(), "testing invalid exact");
}

#[test]
fn bruteforce() {
    let bf = bruteforce_lookup("dansgaming", 42218705421, "2021-06-05 00:50:16", "2021-06-05 00:50:18")
        .unwrap()
        .unwrap();
    assert_eq!(bf, expected_dansgaming(), "testing bruteforce with results");

    let bf_wrong =
        bruteforce_lookup("dansgming", 42218705421, "2021-06-05 00:50:16", "2021-06-05 00:50:18").unwrap();
    assert_eq!(bf_wrong, None, "testing bruteforce with no results");

    let bf_err = bruteforce_lookup("mrmouton", 39905263305, "2022-07-12 1200", "2022-07-12 12:00:41");
    assert!(bf_err.is_err(), "testing invalid bruteforce");
}

#[test]
fn bruteforce_space_errors() {
    let cdns = builtin_cdns();
    assert_eq!(
        bruteforce_space("u", 1, "2022-07-12 1200", "x", &cdns).err(),
        Some(TimestampError::InvalidDate)
    );
    assert_eq!(bruteforce_space("u", 1, "5", "", &cdns).err(), Some(TimestampError::InvalidNumber));
    let space = bruteforce_space("u", 1, "10", "12", &cdns).unwrap();
    assert_eq!(space.len(), 3 * cdns.len());
}
