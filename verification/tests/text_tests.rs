use netease_music_downloader_rs::proxy::{parse_proxyscrape_text, ProxyEntry};
use netease_music_downloader_rs::text::{
    hex_encode, i64_to_string, parse_unsigned, split_lines, split_on, str_eq, str_lt, trim,
    u64_to_string,
};

#[test]
fn decimal_text_reads_back() {
    for n in [0u64, 7, 10, 65535, 1_000_000, u64::MAX] {
        let text = u64_to_string(n);
        assert_eq!(text, n.to_string());
        assert_eq!(parse_unsigned(&text, u64::MAX), Some(n));
    }
    assert_eq!(i64_to_string(-42), "-42");
    assert_eq!(i64_to_string(i64::MIN), i64::MIN.to_string());
}

#[test]
fn unsigned_parsing_follows_str_parse() {
    for s in ["", "+", "-1", "+12", "0012", "65535", "65536", " 1", "1a", "99999999999999999999999"] {
        assert_eq!(parse_unsigned(s, 65535), s.parse::<u16>().ok().map(|v| v as u64), "input {s:?}");
        assert_eq!(parse_unsigned(s, u64::MAX), s.parse::<u64>().ok(), "input {s:?}");
    }
}

#[test]
fn lines_split_and_trim_follow_std() {
    for body in ["", "\n", "a", "a\n", "a\r\nb", "a\rb\r", "\n\nx\r\n\r\n", "x\r"] {
        let ours = split_lines(body);
        let std_lines: Vec<String> = body.lines().map(|l| l.to_string()).collect();
        assert_eq!(ours, std_lines, "body {body:?}");
    }
    for t in ["", "  ", " a b ", "\u{2003}x\u{85}", "\u{1680}"] {
        assert_eq!(trim(t), t.trim(), "text {t:?}");
    }
    for t in ["", ":", "a:b", "::1:80", "x:"] {
        let std_parts: Vec<String> = t.split(':').map(|p| p.to_string()).collect();
        assert_eq!(split_on(t, ':'), std_parts, "text {t:?}");
    }
}

#[test]
fn string_order_and_hex() {
    assert!(str_lt("10", "9"));
    assert!(str_lt("a", "ab"));
    assert!(!str_lt("b", "ab"));
    assert!(!str_lt("x", "x"));
    assert!(str_eq("héllo", "héllo"));
    assert!(!str_eq("a", "ab"));
    assert_eq!(hex_encode(&[0x00, 0xab, 0x7f], true), "00AB7F");
    assert_eq!(hex_encode(&[0x00, 0xab, 0x7f], false), "00ab7f");
}

#[test]
fn proxyscrape_line_round_trip() {
    let e = ProxyEntry { host: "12.34.56.78".to_string(), port: 3128, protocol: "http".to_string() };
    let parsed = parse_proxyscrape_text(&format!("{}:{}", e.host, e.port));
    assert_eq!(parsed.len(), 1);
    assert_eq!(parsed[0].host, e.host);
    assert_eq!(parsed[0].port, e.port);
    assert_eq!(parsed[0].url(), e.url());
}
