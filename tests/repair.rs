use tbf::playlist::{
    fix_target, path_parts_of, probe_urls, repair_fast, repair_playlist, repair_slow, PlaylistFixError,
    PlaylistSegment, RepairStrategy,
};

const SOURCE: &str = "https://d1m7jfoe9zdc1j.cloudfront.net/d3dcbaf880c9e36ed8c8_dansgaming_42218705421_1622854217/chunked/index-dvr.m3u8";
const BASE: &str = "https://d1m7jfoe9zdc1j.cloudfront.net/d3dcbaf880c9e36ed8c8_dansgaming_42218705421_1622854217/chunked/";

fn segment(uri: &str, duration: f32) -> PlaylistSegment {
    PlaylistSegment { uri: uri.to_string(), duration_bits: duration.to_bits() }
}

fn sample() -> Vec<PlaylistSegment> {
    vec![segment("0.ts", 10.0), segment("1-unmuted.ts", 10.0), segment("2-unmuted.ts", 9.5), segment("3.ts", 4.25)]
}

#[test]
fn fix_target_of_cdn_url() {
    let t = fix_target(SOURCE).unwrap();
    assert_eq!(t.base_url, BASE);
    assert_eq!(t.default_output, "muted_42218705421.m3u8");
    let underscored = fix_target("https://vod-secure.twitch.tv/abc_some_user_123_456/chunked/index-dvr.m3u8").unwrap();
    assert_eq!(underscored.default_output, "muted_123.m3u8");
    let short = fix_target("https://vod-secure.twitch.tv/plain/chunked/index-dvr.m3u8").unwrap();
    assert_eq!(short.default_output, "muted_plain.m3u8");
    assert_eq!(fix_target("https://example.com/a/b/index.m3u8").err(), Some(PlaylistFixError::URLError));
    assert_eq!(fix_target("https://x.com/?twitch.tv/a/b").err(), Some(PlaylistFixError::URLError));
    assert_eq!(fix_target("https://eviltwitch.tv/a/b/c").err(), Some(PlaylistFixError::URLError));
    assert_eq!(fix_target("twitch.tv/x").err(), Some(PlaylistFixError::URLError));
    assert_eq!(path_parts_of("https://a//b/"), vec!["https:", "a", "b"]);
}

#[test]
fn fast_repair_rewrites_unmuted_names() {
    let out = repair_fast(BASE, &sample());
    let uris: Vec<&str> = out.iter().map(|s| s.uri.as_str()).collect();
    assert_eq!(
        uris,
        vec![
            format!("{}0.ts", BASE),
            format!("{}1-muted.ts", BASE),
            format!("{}2-muted.ts", BASE),
            format!("{}3.ts", BASE),
        ]
    );
}

#[test]
fn repair_keeps_count_and_durations() {
    let input = sample();
    for strategy in [RepairStrategy::Fast, RepairStrategy::Slow { statuses: vec![Some(200), Some(403), Some(403), None] }] {
        let out = repair_playlist(BASE, &input, &strategy).unwrap();
        assert_eq!(out.len(), input.len());
        for (a, b) in out.iter().zip(input.iter()) {
            assert_eq!(f32::from_bits(a.duration_bits), f32::from_bits(b.duration_bits));
        }
    }
    let wrong = RepairStrategy::Slow { statuses: vec![Some(200)] };
    assert!(repair_playlist(BASE, &input, &wrong).is_none());
}

#[test]
fn second_fast_repair_changes_no_segment() {
    let once = repair_fast(BASE, &sample());
    let twice = repair_fast(BASE, &once);
    let a: Vec<(&String, u32)> = once.iter().map(|s| (&s.uri, s.duration_bits)).collect();
    let b: Vec<(&String, u32)> = twice.iter().map(|s| (&s.uri, s.duration_bits)).collect();
    assert_eq!(a, b);
    let elsewhere = repair_fast("https://d2vjef5jvl6bfs.cloudfront.net/x/chunked/", &once);
    let c: Vec<(&String, u32)> = elsewhere.iter().map(|s| (&s.uri, s.duration_bits)).collect();
    assert_eq!(a, c);
}

#[test]
fn absolute_uris_are_kept() {
    let input = vec![segment("https://cdn.example/v/chunked/5-unmuted.ts", 1.0), segment("http://cdn.example/v/6.ts", 2.0)];
    let out = repair_fast(BASE, &input);
    assert_eq!(out[0].uri, "https://cdn.example/v/chunked/5-muted.ts");
    assert_eq!(out[1].uri, "http://cdn.example/v/6.ts");
    assert_eq!(probe_urls(BASE, &input)[1], "http://cdn.example/v/6.ts");
}

#[test]
fn slow_repair_follows_probes_and_natural_order() {
    let input = vec![segment("2.ts", 2.0), segment("1-unmuted.ts", 1.0), segment("10.ts", 10.0)];
    let urls = probe_urls(BASE, &input);
    assert_eq!(urls[1], format!("{}1-unmuted.ts", BASE));
    let statuses = vec![Some(200), Some(403), Some(403)];
    let out = repair_slow(&input, &urls, &statuses);
    let uris: Vec<String> = out.iter().map(|s| s.uri.clone()).collect();
    assert_eq!(
        uris,
        vec![format!("{}1-muted.ts", BASE), format!("{}2.ts", BASE), format!("{}10-muted.ts", BASE)]
    );
    let durations: Vec<f32> = out.iter().map(|s| f32::from_bits(s.duration_bits)).collect();
    assert_eq!(durations, vec![2.0, 1.0, 10.0]);
    for s in &out {
        if s.uri.ends_with("-muted.ts") {
            let i = urls.iter().position(|u| u.starts_with(&s.uri[..s.uri.len() - "-muted.ts".len()])).unwrap();
            assert_ne!(statuses[i], Some(200));
        }
    }
}

#[test]
fn unanswered_probes_keep_the_segment() {
    let input = vec![segment("1.ts", 1.0), segment("2-unmuted.ts", 2.0)];
    let urls = probe_urls(BASE, &input);
    let out = repair_slow(&input, &urls, &vec![None, None]);
    assert_eq!(out[0].uri, format!("{}1.ts", BASE));
    assert_eq!(out[1].uri, format!("{}2-unmuted.ts", BASE));
}

#[test]
fn error_messages() {
    assert_eq!(PlaylistFixError::URLError.message(), "only twitch.tv and cloudfront.net URLs are supported");
    assert_eq!(PlaylistFixError::IoError("denied".to_string()).message(), "io error: denied");
}
