use tbf::clips::{clip_candidates, clip_hits, clip_origin, clip_query, extract_slug as es, ClipError};
use tbf::models::{Broadcast, Broadcaster, Clip, ClipData, ClipResponse};

#[test]
fn extract_slug() {
    assert_eq!(
        es("SpotlessCrypticStapleAMPTropPunch-H_rVu0mGfGLNMlEx".to_string()).unwrap(),
        Some("SpotlessCrypticStapleAMPTropPunch-H_rVu0mGfGLNMlEx".to_string()),
        "testing slug string"
    );
    assert_eq!(
        es("https://www.twitch.tv/mrmouton/clip/SpotlessCrypticStapleAMPTropPunch-H_rVu0mGfGLNMlEx".to_string())
            .unwrap(),
        Some("SpotlessCrypticStapleAMPTropPunch-H_rVu0mGfGLNMlEx".to_string()),
        "testing twitch.tv link"
    );
    assert_eq!(
        es("https://clips.twitch.tv/SpotlessCrypticStapleAMPTropPunch-H_rVu0mGfGLNMlEx".to_string())
            .unwrap(),
        Some("SpotlessCrypticStapleAMPTropPunch-H_rVu0mGfGLNMlEx".to_string()),
        "testing clips.twitch.tv link"
    );
    assert!(es("https://google.com".to_string()).is_err(), "testing non-twitch link");
    assert!(
        es("https://www.twitch.tv/mrmouton/clp/SpotlessCrypticStapleAMPTropPunch-H_rVu0mGfGLNMlEx".to_string())
            .is_err(),
        "testing twitch non-clip link 1"
    );
    assert!(
        es("https://cps.twitch.tv/SpotlessCrypticStapleAMPTropPunch-H_rVu0mGfGLNMlEx".to_string()).is_err(),
        "testing twitch non-clip link 1"
    );
}

#[test]
fn extract_slug_edge_cases() {
    assert_eq!(
        es("https://www.twitch.tv/mrmouton/clip".to_string()),
        Err(ClipError::WrongURLError("Not a clip URL".to_string()))
    );
    assert_eq!(
        es("https://WWW.Twitch.TV/u/clip/Slug".to_string()).unwrap(),
        Some("Slug".to_string())
    );
    assert_eq!(
        es("https://google.com".to_string()).unwrap_err().message(),
        "Only twitch.tv URLs are supported"
    );
}

fn response(login: &str, id: &str) -> ClipResponse {
    ClipResponse {
        data: ClipData {
            clip: Clip {
                broadcaster: Broadcaster { login: login.to_string() },
                broadcast: Broadcast { id: id.to_string() },
            },
        },
    }
}

#[test]
fn clip_origin_reads_broadcast() {
    assert_eq!(clip_origin(&response("mrmouton", "39905263305")).unwrap(), ("mrmouton".to_string(), 39905263305));
    assert!(matches!(clip_origin(&response("x", "12a")), Err(ClipError::IntegerParseError(_))));
    assert_eq!(clip_origin(&response("x", "-7")).unwrap().1, -7);
    let q = clip_query("slug".to_string());
    assert_eq!(q.query, "query($slug:ID!){clip(slug: $slug){broadcaster{login}broadcast{id}}}");
    assert_eq!(q.variables.slug, "slug");
}

#[test]
fn clip_urls_and_hits() {
    let urls = clip_candidates(39905263305, 3, 6);
    assert_eq!(
        urls,
        vec![
            "https://clips-media-assets2.twitch.tv/AT-cm%7C39905263305-offset-3-360.mp4",
            "https://clips-media-assets2.twitch.tv/AT-cm%7C39905263305-offset-4-360.mp4",
            "https://clips-media-assets2.twitch.tv/AT-cm%7C39905263305-offset-5-360.mp4",
        ]
    );
    assert!(clip_candidates(1, 5, 5).is_empty());
    let hits = clip_hits(&urls, &vec![Some(403), Some(200), None]);
    assert_eq!(hits, vec![urls[1].clone()]);
}
