use netease_music_downloader_rs::availability::{
    file_type_from_segment, file_type_of_url, probe_start, probe_step, quality_level,
    retry_on_checked, retry_on_proxy, retry_start, HeadInfo, ProbeAction, ProbeEvent, ProbeState,
    RetryAction, RetryState,
};
use netease_music_downloader_rs::netease::NeteaseClient;
use netease_music_downloader_rs::types::Availability;

fn head(status: u16, len: Option<&str>) -> Option<HeadInfo> {
    Some(HeadInfo { status, content_length: len.map(|s| s.to_string()) })
}

#[test]
fn file_type_comes_from_the_last_path_segment() {
    assert_eq!(file_type_of_url("http://127.0.0.1:1234/media/song1.mp3"), "mp3");
    assert_eq!(file_type_of_url("https://m.example/a/b.c.flac?x=1.wav"), "flac");
    assert_eq!(file_type_of_url("https://m.example/dir/"), "");
    assert_eq!(file_type_of_url("not a url"), "mp3");
    assert_eq!(file_type_of_url("https://m.example/noext"), "noext");
    assert_eq!(file_type_from_segment(Some("x.m4a".to_string())), "m4a");
    assert_eq!(file_type_from_segment(None), "mp3");
}

#[test]
fn probe_finds_a_copy_at_the_first_good_level() {
    let (state, action) = probe_start();
    match &action {
        ProbeAction::FetchUrl(q) => assert_eq!(q, "hires"),
        _ => panic!("must ask for a url"),
    }
    let (state, action) = probe_step(state, ProbeEvent::UrlReply(None));
    match &action {
        ProbeAction::FetchUrl(q) => assert_eq!(q, "lossless"),
        _ => panic!("must ask for the next level"),
    }
    let url = "http://127.0.0.1/media/song1.mp3".to_string();
    let (state, action) = probe_step(state, ProbeEvent::UrlReply(Some(url.clone())));
    assert!(matches!(action, ProbeAction::Head(ref u) if *u == url));
    let (state, action) = probe_step(state, ProbeEvent::HeadReply(head(200, Some("512000"))));
    assert!(matches!(action, ProbeAction::FetchUrl(ref q) if q == "exhigh"));
    let (state, action) = probe_step(state, ProbeEvent::UrlReply(Some(url.clone())));
    assert!(matches!(action, ProbeAction::Head(_)));
    let (state, action) = probe_step(state, ProbeEvent::HeadReply(head(302, Some("600000"))));
    assert!(matches!(state, ProbeState::Finished));
    match action {
        ProbeAction::Finish(av) => {
            assert!(av.available);
            assert_eq!(av.content_length, Some(600000));
            assert_eq!(av.quality.as_deref(), Some("exhigh"));
            assert_eq!(av.bitrate, Some(16));
            assert_eq!(av.file_type.as_deref(), Some("mp3"));
            assert_eq!(av.url.as_deref(), Some(url.as_str()));
            assert!(!av.need_proxy);
        }
        _ => panic!("must finish"),
    }
}

#[test]
fn probe_gives_up_after_the_last_level() {
    let (mut state, mut action) = probe_start();
    let mut urls_asked = 0;
    loop {
        match action {
            ProbeAction::FetchUrl(_) => {
                urls_asked += 1;
                let r = probe_step(state, ProbeEvent::UrlReply(Some("http://x/a.mp3".to_string())));
                state = r.0;
                action = r.1;
            }
            ProbeAction::Head(_) => {
                let r = probe_step(state, ProbeEvent::HeadReply(head(404, Some("900000"))));
                state = r.0;
                action = r.1;
            }
            ProbeAction::Finish(av) => {
                assert!(!av.available);
                assert!(av.url.is_none());
                break;
            }
        }
    }
    assert_eq!(urls_asked, 5);
    assert!(matches!(state, ProbeState::Finished));
    assert_eq!(quality_level(4), "standard");
}

#[test]
fn probe_skips_failed_and_unreadable_heads() {
    let (state, _) = probe_start();
    let (state, _) = probe_step(state, ProbeEvent::UrlReply(Some("u".to_string())));
    let (state, action) = probe_step(state, ProbeEvent::HeadReply(None));
    assert!(matches!(action, ProbeAction::FetchUrl(ref q) if q == "lossless"));
    let (state, _) = probe_step(state, ProbeEvent::UrlReply(Some("u".to_string())));
    let (_, action) = probe_step(state, ProbeEvent::HeadReply(head(200, Some("lots"))));
    assert!(matches!(action, ProbeAction::FetchUrl(ref q) if q == "exhigh"));
}

fn found() -> Availability {
    Availability {
        available: true,
        content_length: Some(600000),
        url: Some("http://x/a.mp3".to_string()),
        need_proxy: false,
        quality: Some("hires".to_string()),
        bitrate: Some(16),
        file_type: Some("mp3".to_string()),
    }
}

#[test]
fn retry_direct_hit_keeps_the_manual_proxy() {
    let mut client = NeteaseClient::new(None);
    client.set_proxy(Some("http://p:1".to_string()));
    let (state, action) = retry_start(&mut client, false);
    assert!(matches!(action, RetryAction::Check));
    assert!(client.proxy_url.is_none());
    let (state, action) = retry_on_checked(state, &mut client, found());
    assert!(matches!(state, RetryState::Finished));
    match action {
        RetryAction::Finish(av) => assert!(av.available && !av.need_proxy),
        _ => panic!("must finish"),
    }
    assert_eq!(client.proxy_url.as_deref(), Some("http://p:1"));
    // A later song that cannot be had directly still falls back to it.
    let (state, _) = retry_start(&mut client, false);
    let (state, action) = retry_on_checked(state, &mut client, Availability::unavailable());
    assert!(matches!(action, RetryAction::Check));
    assert_eq!(client.proxy_url.as_deref(), Some("http://p:1"));
    let (_, action) = retry_on_checked(state, &mut client, found());
    assert!(matches!(action, RetryAction::Finish(ref av) if av.available && av.need_proxy));
}

#[test]
fn retry_falls_back_to_the_preset_proxy() {
    let mut client = NeteaseClient::new(None);
    client.set_proxy(Some("http://p:1".to_string()));
    let (state, _) = retry_start(&mut client, false);
    let (state, action) = retry_on_checked(state, &mut client, Availability::unavailable());
    assert!(matches!(action, RetryAction::Check));
    assert_eq!(client.proxy_url.as_deref(), Some("http://p:1"));
    let (_, action) = retry_on_checked(state, &mut client, found());
    match action {
        RetryAction::Finish(av) => assert!(av.available && av.need_proxy),
        _ => panic!("must finish"),
    }
    assert_eq!(client.proxy_url.as_deref(), Some("http://p:1"));
}

#[test]
fn retry_with_auto_proxy() {
    let mut client = NeteaseClient::new(None);
    client.set_proxy(Some("http://mine:1".to_string()));
    let (state, _) = retry_start(&mut client, true);
    let (state, action) = retry_on_checked(state, &mut client, Availability::unavailable());
    assert!(matches!(action, RetryAction::FindAutoProxy));
    let (state, action) = retry_on_proxy(state, &mut client, Some("http://1.1.1.1:80".to_string()));
    assert!(matches!(action, RetryAction::Check));
    assert_eq!(client.proxy_url.as_deref(), Some("http://1.1.1.1:80"));
    let (_, action) = retry_on_checked(state, &mut client, Availability::unavailable());
    match action {
        RetryAction::Finish(av) => assert!(!av.available && !av.need_proxy),
        _ => panic!("must finish"),
    }
    assert_eq!(client.proxy_url.as_deref(), Some("http://1.1.1.1:80"));

    let (state, _) = retry_start(&mut client, true);
    let (state, _) = retry_on_checked(state, &mut client, Availability::unavailable());
    let (_, action) = retry_on_proxy(state, &mut client, None);
    assert!(matches!(action, RetryAction::Finish(ref av) if !av.available));
    assert_eq!(client.proxy_url.as_deref(), Some("http://1.1.1.1:80"));
}

#[test]
fn retry_without_any_proxy_gives_up() {
    let mut client = NeteaseClient::new(None);
    let (state, _) = retry_start(&mut client, false);
    let (_, action) = retry_on_checked(state, &mut client, Availability::unavailable());
    assert!(matches!(action, RetryAction::Finish(ref av) if !av.available));
    assert!(client.proxy_url.is_none());
}
