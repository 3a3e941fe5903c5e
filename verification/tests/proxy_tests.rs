use netease_music_downloader_rs::json::{JsonNumber, JsonValue};
use netease_music_downloader_rs::proxy::{
    cache_needs_update, candidates_to_test, merge_candidates, parse_fate0_lines, parse_geonode_json,
    parse_proxyscrape_text, ProxyEntry,
};

fn s(t: &str) -> JsonValue {
    JsonValue::Str(t.to_string())
}

fn num(u: u64) -> JsonValue {
    JsonValue::Number(JsonNumber { as_u64: Some(u), as_i64: Some(u as i64) })
}

fn obj(members: Vec<(&str, JsonValue)>) -> JsonValue {
    JsonValue::Object(members.into_iter().map(|(k, v)| (k.to_string(), v)).collect())
}

fn entry(host: &str, port: u16, protocol: &str) -> ProxyEntry {
    ProxyEntry { host: host.to_string(), port, protocol: protocol.to_string() }
}

#[test]
fn parse_geonode_json_extracts_valid_items() {
    let input = obj(vec![(
        "data",
        JsonValue::Array(vec![
            obj(vec![("ip", s("1.1.1.1")), ("port", s("8080")), ("protocols", JsonValue::Array(vec![s("http")]))]),
            obj(vec![("ip", s("2.2.2.2")), ("port", num(443)), ("protocols", JsonValue::Array(vec![s("https")]))]),
            obj(vec![("ip", s("")), ("port", num(9999)), ("protocols", JsonValue::Array(vec![s("http")]))]),
        ]),
    )]);
    let out = parse_geonode_json(&input);
    assert_eq!(out.len(), 2);
    assert_eq!(out[0].url(), "http://1.1.1.1:8080");
    assert_eq!(out[1].url(), "https://2.2.2.2:443");
}

#[test]
fn parse_geonode_json_port_bounds_and_defaults() {
    let input = obj(vec![(
        "data",
        JsonValue::Array(vec![
            obj(vec![("ip", s("3.3.3.3")), ("port", num(65536))]),
            obj(vec![("ip", s("4.4.4.4")), ("port", s("0"))]),
            obj(vec![("ip", s("5.5.5.5")), ("port", num(65535))]),
        ]),
    )]);
    let out = parse_geonode_json(&input);
    assert_eq!(out.len(), 1);
    assert_eq!(out[0].url(), "http://5.5.5.5:65535");
    assert!(parse_geonode_json(&JsonValue::Null).is_empty());
}

#[test]
fn parse_proxyscrape_text_extracts_host_port() {
    let body = "8.8.8.8:80\ninvalid\n9.9.9.9:8080\n";
    let out = parse_proxyscrape_text(body);
    assert_eq!(out.len(), 2);
    assert_eq!(out[0].url(), "http://8.8.8.8:80");
    assert_eq!(out[1].url(), "http://9.9.9.9:8080");
}

#[test]
fn parse_proxyscrape_text_edge_cases() {
    let out = parse_proxyscrape_text(" 1.2.3.4:+81 \r\n5.6.7.8:70000\n::1:80\n:90");
    assert_eq!(out.len(), 2);
    assert_eq!(out[0].url(), "http://1.2.3.4:81");
    assert_eq!(out[1].url(), "http://:90");
}

#[test]
fn parse_fate0_lines_filters_only_cn() {
    let lines = vec![
        Some(obj(vec![("host", s("10.0.0.1")), ("port", num(8888)), ("type", s("http")), ("country", s("CN"))])),
        Some(obj(vec![("host", s("10.0.0.2")), ("port", num(9999)), ("type", s("http")), ("country", s("US"))])),
        None,
    ];
    let out = parse_fate0_lines(&lines);
    assert_eq!(out.len(), 1);
    assert_eq!(out[0].url(), "http://10.0.0.1:8888");
}

#[test]
fn merge_candidates_sorts_and_removes_repeats() {
    let merged = merge_candidates(
        vec![entry("b", 2, "http"), entry("a", 9, "https")],
        vec![entry("b", 2, "http"), entry("a", 1, "http")],
        vec![entry("b", 1, "http")],
    );
    let urls: Vec<String> = merged.iter().map(|e| e.url()).collect();
    assert_eq!(urls, vec!["http://a:1", "https://a:9", "http://b:1", "http://b:2"]);
}

#[test]
fn merge_candidates_is_stable_for_equal_keys() {
    let merged = merge_candidates(
        vec![entry("h", 1, "https")],
        vec![entry("h", 1, "http")],
        vec![entry("h", 1, "https")],
    );
    let urls: Vec<String> = merged.iter().map(|e| e.url()).collect();
    assert_eq!(urls, vec!["https://h:1", "http://h:1", "https://h:1"]);
}

#[test]
fn cache_and_candidate_limits() {
    assert!(cache_needs_update(false, None));
    assert!(cache_needs_update(true, Some(0)));
    assert!(!cache_needs_update(false, Some(600_000_000_000)));
    assert!(cache_needs_update(false, Some(600_000_000_001)));
    let many: Vec<ProxyEntry> = (0..40u16).map(|i| entry("h", i + 1, "http")).collect();
    let tried = candidates_to_test(&many);
    assert_eq!(tried.len(), 30);
    assert_eq!(tried[29].port, 30);
    assert_eq!(candidates_to_test(&vec![entry("x", 1, "http")]).len(), 1);
}
