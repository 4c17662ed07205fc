use tbf::config::ProcessingType;
use tbf::models::URLData;
use tbf::tracker::{page_data, pick_useragent, tracker_page, usable_useragents, DeriveDateError};

#[test]
fn derive_date() {
    let tt = tracker_page("https://twitchtracker.com/forsen/streams/39619965384").unwrap();
    let html = "<html><body><div class=\"stream-timestamp-dt to-dowdatetime\">2022-07-12 17:05:08</div></body></html>";
    assert_eq!(
        page_data(&tt, html).unwrap(),
        (
            ProcessingType::Exact,
            URLData {
                username: "forsen".to_string(),
                broadcast_id: "39619965384".to_string(),
                start_date: "2022-07-12 17:05:08".to_string(),
                end_date: None
            }
        ),
        "testing twitchtracker - https://twitchtracker.com/forsen/streams/39619965384"
    );

    let sc = tracker_page("https://streamscharts.com/channels/forsen/streams/39619965384").unwrap();
    let html = "<html><body><time datetime=\"2022-07-12T17:05:00+00:00\">Jul 12</time></body></html>";
    assert_eq!(
        page_data(&sc, html).unwrap(),
        (
            ProcessingType::Bruteforce,
            URLData {
                username: "forsen".to_string(),
                broadcast_id: "39619965384".to_string(),
                start_date: "1657645440".to_string(),
                end_date: Some("1657645560".to_string())
            }
        ),
        "testing streamscharts - https://streamscharts.com/channels/forsen/streams/39619965384"
    );

    assert!(tracker_page("https://google.com").is_err(), "testing wrong link - https://google.com");
    assert!(tracker_page("https://twitchtracker.com/forsen/sreams/39619965384").is_err());
    assert!(tracker_page("https://streamscharts.com/channels/forsen/sreams/39619965384").is_err());
}

#[test]
fn tracker_page_errors() {
    assert!(matches!(tracker_page("not a url"), Err(DeriveDateError::UrlParseError(_))));
    assert_eq!(
        tracker_page("https://google.com").err(),
        Some(DeriveDateError::WrongURLError(
            "Only twitchtracker.com and streamscharts.com URLs are supported".to_string()
        ))
    );
    let page = tracker_page("https://twitchtracker.com/forsen/streams/1").unwrap();
    assert_eq!(page_data(&page, "<html></html>").err(), Some(DeriveDateError::ScraperElementError));
    let page = tracker_page("https://www.streamscharts.com/channels/forsen/streams/1").unwrap();
    assert_eq!(page_data(&page, "<time>x</time>").err(), Some(DeriveDateError::ScraperAttributeError));
}

#[test]
fn user_agents() {
    let agents = vec!["Mozilla (X11; Linux)".to_string(), "Mozilla (Windows)".to_string()];
    assert_eq!(usable_useragents(&agents), vec!["Mozilla (Windows)".to_string()]);
    assert_eq!(pick_useragent(Some(agents)), "Mozilla (Windows)");
    assert_eq!(pick_useragent(None), "curl/7.54.0");
    assert_eq!(pick_useragent(Some(vec!["a X11; b".to_string()])), "curl/7.54.0");
}
