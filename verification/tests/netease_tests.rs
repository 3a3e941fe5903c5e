use netease_music_downloader_rs::json::{JsonNumber, JsonValue};
use netease_music_downloader_rs::netease::{
    album_info_from_reply, eapi_form_body, lyric_request, lyrics_from_reply, program_main_song_id,
    song_from_detail, song_url_from_reply, NeteaseClient,
};
use regex::Regex;

fn s(t: &str) -> JsonValue {
    JsonValue::Str(t.to_string())
}

fn num_i(i: i64) -> JsonValue {
    JsonValue::Number(JsonNumber { as_u64: if i >= 0 { Some(i as u64) } else { None }, as_i64: Some(i) })
}

fn obj(members: Vec<(&str, JsonValue)>) -> JsonValue {
    JsonValue::Object(members.into_iter().map(|(k, v)| (k.to_string(), v)).collect())
}

#[test]
fn eapi_is_deterministic_for_same_input() {
    let payload = "{\"id\":\"123\",\"lv\":1}";
    let p1 = NeteaseClient::eapi("/api/song/lyric/v1", payload).expect("eapi params");
    let p2 = NeteaseClient::eapi("/api/song/lyric/v1", payload).expect("eapi params");
    assert_eq!(p1, p2);
}

#[test]
fn eapi_output_is_uppercase_hex() {
    let payload = "{\"id\":\"123\"}";
    let params = NeteaseClient::eapi("/api/v3/song/detail", payload).expect("eapi params");
    let re = Regex::new(r"^[0-9A-F]+$").expect("regex");
    assert!(re.is_match(&params));
    assert_eq!(params.len() % 2, 0);
}

#[test]
fn eapi_matches_known_encoding() {
    let params = NeteaseClient::eapi("/api/song/lyric/v1", "{\"id\":\"123\",\"lv\":1}").expect("eapi");
    assert_eq!(
        params,
        "04AE33D34A93FE3EC22DA8FA305D290AB337D0FE5F36D211DE0D338CC6AA89D02368B209EF166EBFF93395F32775C41F1E28D92297D0A3D17D0F5303AE5758286BEFC4B05C53612E7A772A1487BC5536EA147D214E07B2A20764794FB84EE078"
    );
    let short = NeteaseClient::eapi("/a", "{}").expect("eapi");
    assert_eq!(
        short,
        "D00F38875C57A998D80FEC656F0A151BB9395106D1384A9676F2ECF326B441BC28F8FF1552323E1FA55620E7AE93516B270DA42CD5FCCB2CDDD26F4081A346D4"
    );
    assert_eq!(eapi_form_body(&short), format!("params={short}"));
}

#[test]
fn random_device_id_is_16_upper_hex_chars() {
    let id = NeteaseClient::random_device_id();
    let re = Regex::new(r"^[0-9A-F]{16}$").expect("regex");
    assert!(re.is_match(&id));
}

#[test]
fn api_endpoint_trims_trailing_slashes() {
    let client = NeteaseClient::new(Some("http://127.0.0.1:9/".to_string()));
    assert_eq!(client.api_endpoint("/eapi/x"), "http://127.0.0.1:9/eapi/x");
    let client = NeteaseClient::new(Some("http://h//".to_string()));
    assert_eq!(client.api_endpoint("/p"), "http://h/p");
    let default = NeteaseClient::new(None);
    assert_eq!(default.api_base, "https://interface3.music.163.com");
    assert!(default.proxy_url.is_none());
}

#[test]
fn set_proxy_replaces_the_proxy() {
    let mut client = NeteaseClient::new(None);
    client.set_proxy(Some("http://1.2.3.4:80".to_string()));
    assert_eq!(client.proxy_url.as_deref(), Some("http://1.2.3.4:80"));
    client.set_proxy(None);
    assert!(client.proxy_url.is_none());
}

#[test]
fn song_detail_reads_the_first_song() {
    let reply = obj(vec![(
        "songs",
        JsonValue::Array(vec![obj(vec![
            ("id", num_i(1001)),
            ("name", s("Song One")),
            ("alia", JsonValue::Array(vec![s("Live")])),
            ("ar", JsonValue::Array(vec![obj(vec![("name", s("Artist One"))]), obj(vec![])])),
            ("al", obj(vec![("name", s("Mock Album")), ("picUrl", s(""))])),
            ("dt", num_i(123000)),
            ("publishTime", num_i(0)),
        ])]),
    )]);
    let song = song_from_detail(&reply, "1001").expect("song");
    assert_eq!(song.id, "1001");
    assert_eq!(song.name, "Song One (Live)");
    assert_eq!(song.artists.len(), 2);
    assert_eq!(song.artists[0].name, "Artist One");
    assert_eq!(song.artists[1].name, "Unknown Artist");
    let album = song.album.expect("album");
    assert_eq!(album.name, "Mock Album");
    assert_eq!(album.pic_url.as_deref(), Some(""));
    assert_eq!(song.duration, Some(123000));
    assert_eq!(song.publish_time, Some(0));
}

#[test]
fn song_detail_defaults_and_errors() {
    let reply = obj(vec![("songs", JsonValue::Array(vec![obj(vec![("alia", JsonValue::Array(vec![s("")]))])]))]);
    let song = song_from_detail(&reply, "5").expect("song");
    assert_eq!(song.id, "0");
    assert_eq!(song.name, "Unknown Song");
    assert_eq!(song.artists.len(), 1);
    assert_eq!(song.artists[0].name, "Unknown Artist");
    assert!(song.album.is_none());
    let err = song_from_detail(&obj(vec![("songs", JsonValue::Array(vec![]))]), "77").unwrap_err();
    assert_eq!(err.message(), "song not found for id 77");
    let negative = obj(vec![("songs", JsonValue::Array(vec![obj(vec![("id", num_i(-3))])]))]);
    assert_eq!(song_from_detail(&negative, "x").unwrap().id, "-3");
}

#[test]
fn program_reply_gives_main_song() {
    let reply = obj(vec![
        ("code", num_i(200)),
        ("program", obj(vec![("id", num_i(3074011314)), ("mainSong", obj(vec![("id", num_i(333444555))]))])),
    ]);
    assert_eq!(program_main_song_id(&reply, "3074011314").unwrap(), "333444555");
    let err = program_main_song_id(&obj(vec![]), "9").unwrap_err();
    assert_eq!(err.message(), "failed to resolve main song id from program 9");
}

#[test]
fn album_reply_tags_songs_with_album() {
    let reply = obj(vec![
        ("code", num_i(200)),
        (
            "album",
            obj(vec![
                ("name", s("Album Alpha")),
                ("picUrl", s("")),
                ("publishTime", num_i(0)),
                ("artists", JsonValue::Array(vec![obj(vec![("name", s("A"))]), obj(vec![]), obj(vec![("name", s("B"))])])),
            ]),
        ),
        (
            "songs",
            JsonValue::Array(vec![obj(vec![
                ("id", num_i(2001)),
                ("name", s("Track A")),
                ("alia", JsonValue::Array(vec![])),
                ("ar", JsonValue::Array(vec![obj(vec![("name", s("Track Artist"))])])),
                ("dt", num_i(123000)),
                ("publishTime", num_i(0)),
            ])]),
        ),
    ]);
    let info = album_info_from_reply(&reply).expect("album");
    assert_eq!(info.album_name, "Album Alpha");
    assert_eq!(info.artist_name, "A,B");
    assert_eq!(info.songs.len(), 1);
    assert_eq!(info.songs[0].id, "2001");
    assert_eq!(info.songs[0].name, "Track A");
    assert_eq!(info.songs[0].album.as_ref().unwrap().name, "Album Alpha");
    assert_eq!(info.publish_time, Some(0));
}

#[test]
fn album_reply_errors() {
    let err = album_info_from_reply(&obj(vec![("code", num_i(404)), ("message", s("gone"))])).unwrap_err();
    assert_eq!(err.message(), "failed to fetch album info: gone");
    let err = album_info_from_reply(&obj(vec![])).unwrap_err();
    assert_eq!(err.message(), "failed to fetch album info: unknown api error");
    let err = album_info_from_reply(&obj(vec![("code", num_i(200))])).unwrap_err();
    assert_eq!(err.message(), "album payload missing");
    let info = album_info_from_reply(&obj(vec![("code", num_i(200)), ("album", obj(vec![("artists", JsonValue::Array(vec![]))]))])).unwrap();
    assert_eq!(info.artist_name, "Unknown Artist");
    assert_eq!(info.album_name, "");
    assert!(info.songs.is_empty());
}

#[test]
fn url_and_lyrics_replies() {
    let url_reply = obj(vec![("code", num_i(200)), ("data", JsonValue::Array(vec![obj(vec![("url", s("http://m/a.mp3"))])]))]);
    assert_eq!(song_url_from_reply(&url_reply).as_deref(), Some("http://m/a.mp3"));
    let refused = obj(vec![("code", num_i(-110)), ("data", JsonValue::Array(vec![obj(vec![("url", s("x"))])]))]);
    assert!(song_url_from_reply(&refused).is_none());
    let no_url = obj(vec![("code", num_i(200)), ("data", JsonValue::Array(vec![obj(vec![("url", JsonValue::Null)])]))]);
    assert!(song_url_from_reply(&no_url).is_none());
    let lyric = obj(vec![("code", num_i(200)), ("lrc", obj(vec![("lyric", s("[00:00.00]Hello"))]))]);
    assert_eq!(lyrics_from_reply(&lyric).as_deref(), Some("[00:00.00]Hello"));
    assert!(lyrics_from_reply(&obj(vec![("lrc", obj(vec![("lyric", s("x"))]))])).is_none());
}

#[test]
fn lyric_request_payload() {
    let req = lyric_request("123", "ABCDEF0123456789");
    assert_eq!(req.api_path, "/api/song/lyric/v1");
    assert_eq!(req.endpoint_path, "/eapi/song/lyric/v1");
    match req.payload {
        JsonValue::Object(m) => {
            let keys: Vec<&str> = m.iter().map(|(k, _)| k.as_str()).collect();
            assert_eq!(keys, vec!["id", "lv", "kv", "tv", "header"]);
        }
        _ => panic!("payload must be an object"),
    }
}
