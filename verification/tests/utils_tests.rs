use netease_music_downloader_rs::error::{DownloadError, PathLabel};
use netease_music_downloader_rs::utils::{
    extract_id, extract_id_from, get_download_path, resolve_input_file_path, sanitize_extension,
    sanitize_file_name, InputFilePath,
};

#[test]
fn sanitize_file_name_removes_invalid_chars() {
    let input = "A:/B*?C\"<D>|\\E";
    let sanitized = sanitize_file_name(input);
    assert_eq!(sanitized, "ABCDE");
}

#[test]
fn sanitize_extension_removes_non_alphanumeric_chars() {
    let sanitized = sanitize_extension("../M-P3?");
    assert_eq!(sanitized, "mp3");
}

#[test]
fn extract_id_accepts_numeric() {
    let id = extract_id("123456").expect("numeric id should be valid");
    assert_eq!(id, "123456");
}

#[test]
fn extract_id_accepts_netease_url() {
    let id = extract_id("https://music.163.com/#/song?id=426832090")
        .expect("url with id query must be parsed");
    assert_eq!(id, "426832090");
}

#[test]
fn extract_id_rejects_invalid_input() {
    let err = extract_id("https://music.163.com/#/song").expect_err("missing id query must return error");
    assert!(err.message().contains("Invalid ID or URL"));
}

#[test]
fn get_download_path_rejects_nested_file_names() {
    let err = get_download_path("single", "../bad.mp3", None).expect_err("nested path must fail");
    assert!(err.message().contains("path separators"));
}

#[test]
fn resolve_input_file_path_rejects_absolute_files() {
    let err = resolve_input_file_path("/tmp/some-dir/ids.txt").expect_err("absolute path must fail");
    assert!(err.message().contains("must be relative to the current directory"));
}

#[test]
fn resolve_input_file_path_rejects_relative_parent_traversal() {
    let err = resolve_input_file_path("../ids.txt").expect_err("traversal path must fail");
    assert!(err.message().contains("cannot contain '..'"));
}

#[test]
fn sanitize_file_name_trims_whitespace_and_is_idempotent() {
    let once = sanitize_file_name("  <Song>: Live?  ");
    assert_eq!(once, "Song Live");
    assert_eq!(sanitize_file_name(&once), once);
    assert_eq!(sanitize_file_name("\u{3000}x\u{a0}"), "x");
    assert_eq!(sanitize_file_name("???"), "");
}

#[test]
fn sanitize_extension_lowercases_and_defaults() {
    assert_eq!(sanitize_extension("FLAC"), "flac");
    assert_eq!(sanitize_extension(".-?"), "mp3");
    assert_eq!(sanitize_extension(""), "mp3");
    assert_eq!(sanitize_extension("m4a"), "m4a");
    assert_eq!(sanitize_extension("é"), "mp3");
}

#[test]
fn extract_id_edge_cases() {
    assert_eq!(extract_id("").expect("empty input is all digits"), "");
    assert_eq!(extract_id("album?id=34836039&x=1").expect("id in query"), "34836039");
    assert_eq!(extract_id("?id=1&id=2").expect("first match"), "1");
    let err = extract_id("id=").expect_err("no digits");
    match err {
        DownloadError::InvalidId(s) => assert_eq!(s, "id="),
        other => panic!("unexpected error {:?}", other),
    }
}

#[test]
fn extract_id_from_uses_the_capture_only_for_links() {
    assert_eq!(extract_id_from("42", Some("7".to_string())).unwrap(), "42");
    assert_eq!(extract_id_from("x", Some("7".to_string())).unwrap(), "7");
    assert!(extract_id_from("x", None).is_err());
}

#[test]
fn get_download_path_places_files() {
    let single = get_download_path("single", "A-B.mp3", None).expect("valid");
    assert_eq!(single.display(), "downloads/A-B.mp3");
    assert!(single.album_dir().is_none());
    let album = get_download_path("album", "01.A-B.mp3", Some("X-Y")).expect("valid");
    assert_eq!(album.display(), "downloads/X-Y/01.A-B.mp3");
    assert_eq!(album.file_name(), "01.A-B.mp3");
    let not_album = get_download_path("single", "f.lrc", Some("X-Y")).expect("valid");
    assert_eq!(not_album.display(), "downloads/f.lrc");
    let album_without_dir = get_download_path("album", "f.lrc", None).expect("valid");
    assert_eq!(album_without_dir.display(), "downloads/f.lrc");
}

#[test]
fn get_download_path_error_variants() {
    let e = get_download_path("single", "", None).unwrap_err();
    assert!(matches!(e, DownloadError::EmptyComponent(PathLabel::FileName)));
    assert_eq!(e.message(), "file name cannot be empty");
    let e = get_download_path("single", "..", None).unwrap_err();
    assert!(matches!(e, DownloadError::DotComponent(PathLabel::FileName)));
    assert_eq!(e.message(), "file name cannot be '.' or '..'");
    let e = get_download_path("single", "a\\b", None).unwrap_err();
    assert_eq!(e.message(), "file name must not contain path separators");
    let e = get_download_path("album", "ok.mp3", Some(".")).unwrap_err();
    assert_eq!(e.message(), "album directory cannot be '.' or '..'");
    let e = get_download_path("album", "ok.mp3", Some("")).unwrap_err();
    assert_eq!(e.message(), "album directory cannot be empty");
    let e = get_download_path("album", "ok.mp3", Some("a/b")).unwrap_err();
    assert_eq!(e.message(), "album directory must not contain path separators");
}

#[test]
fn input_file_path_rules() {
    assert_eq!(
        resolve_input_file_path("").unwrap_err().message(),
        "input file path cannot be empty"
    );
    assert!(matches!(
        resolve_input_file_path("\\share\\ids.txt").unwrap_err(),
        DownloadError::AbsoluteInputPath
    ));
    assert!(matches!(
        resolve_input_file_path("C:/ids.txt").unwrap_err(),
        DownloadError::AbsoluteInputPath
    ));
    assert!(matches!(
        resolve_input_file_path("a\\..\\ids.txt").unwrap_err(),
        DownloadError::ParentTraversal(PathLabel::InputFilePath)
    ));
    let ok = InputFilePath::resolve("lists/..ids.txt").expect("'..ids.txt' is not a parent component");
    assert_eq!(ok.as_str(), "lists/..ids.txt");
    assert!(resolve_input_file_path("ids..").is_ok());
    assert!(resolve_input_file_path("x/..").is_err());
}
