use netease_music_downloader_rs::commands::{
    after_failed_attempt, album_dir_name, album_track_files, album_track_lyrics_file, audio_extension,
    first_artist_name, song_files, song_lyrics_file, AfterFailure, AlbumTally, TrackOutcome,
};
use netease_music_downloader_rs::types::{AlbumInfo, Artist, Availability, Song};

fn song(name: &str, artists: &[&str]) -> Song {
    Song {
        id: "1".to_string(),
        name: name.to_string(),
        artists: artists.iter().map(|a| Artist { name: a.to_string() }).collect(),
        album: None,
        duration: None,
        publish_time: None,
    }
}

fn available(file_type: Option<&str>) -> Availability {
    Availability {
        available: true,
        content_length: Some(600000),
        url: Some("http://x/a".to_string()),
        need_proxy: false,
        quality: Some("hires".to_string()),
        bitrate: Some(16),
        file_type: file_type.map(|s| s.to_string()),
    }
}

#[test]
fn single_song_file_names() {
    let files = song_files(&song("Song One", &["Artist One"]), &available(Some("mp3"))).expect("downloadable");
    assert_eq!(files.audio, "Artist One-Song One.mp3");
    assert_eq!(files.lyrics, "Artist One-Song One.lrc");
    let files = song_files(&song("A/B?", &[]), &available(Some("FLAC"))).expect("downloadable");
    assert_eq!(files.audio, "Unknown Artist-AB.flac");
    assert!(song_files(&song("x", &["y"]), &Availability::unavailable()).is_none());
    let mut no_url = available(None);
    no_url.url = None;
    assert!(song_files(&song("x", &["y"]), &no_url).is_none());
    assert_eq!(audio_extension(&available(None)), "mp3");
    assert_eq!(song_lyrics_file(&song("Song Two", &["Artist Two", "Other"])), "Artist Two-Song Two.lrc");
    assert_eq!(first_artist_name(&song("s", &[])), "Unknown Artist");
}

#[test]
fn album_file_names() {
    let album = AlbumInfo {
        songs: vec![],
        album_name: "Album Alpha".to_string(),
        artist_name: "Album Artist".to_string(),
        pic_url: None,
        publish_time: None,
    };
    assert_eq!(album_dir_name(&album), "Album Artist-Album Alpha");
    let files = album_track_files(0, &song("Track A", &["Track Artist"]), &available(Some("mp3"))).expect("ok");
    assert_eq!(files.audio, "01.Track Artist-Track A.mp3");
    assert_eq!(files.lyrics, "01.Track Artist-Track A.lrc");
    let files = album_track_files(9, &song("T", &["A"]), &available(Some("mp3"))).expect("ok");
    assert_eq!(files.audio, "10.A-T.mp3");
    let files = album_track_files(99, &song("T", &["A"]), &available(Some("mp3"))).expect("ok");
    assert_eq!(files.audio, "100.A-T.mp3");
    assert_eq!(album_track_lyrics_file(1, &song("T", &["A"])), "02.A-T.lrc");
}

#[test]
fn failed_attempts() {
    assert_eq!(after_failed_attempt(1, false), AfterFailure::Retry);
    assert_eq!(after_failed_attempt(2, true), AfterFailure::RetryWithFreshProxies);
    assert_eq!(after_failed_attempt(3, true), AfterFailure::GiveUp);
}

#[test]
fn album_tally_counts_each_outcome() {
    let mut tally = AlbumTally::new();
    assert_eq!(tally.summary(), "Album download completed: success=0, skipped=0, failed=0");
    tally.record(TrackOutcome::Downloaded);
    tally.record(TrackOutcome::Skipped);
    tally.record(TrackOutcome::Downloaded);
    tally.record(TrackOutcome::Failed);
    tally.record(TrackOutcome::Skipped);
    tally.record(TrackOutcome::Downloaded);
    assert_eq!((tally.success, tally.skipped, tally.failed), (3, 2, 1));
    assert_eq!(tally.summary(), "Album download completed: success=3, skipped=2, failed=1");
}
