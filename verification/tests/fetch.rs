use youtube_dl_server::download_manager::command::{ExitInfo, WorkerError};
use youtube_dl_server::download_manager::worker::TaskFailure;
use youtube_dl_server::playlist::{PlaylistInfo, VideoInfo, VideoOrPlaylist};
use youtube_dl_server::task::fetch_url_contents::{
    parse_output, parse_playlist, parse_single_video, parse_url_video_list,
    run_task_fetch_url_contents, FetchError,
};
use youtube_dl_server::task::TaskResultData;

const VIDEO: &str = r#"{"_type":"video","original_url":"https://example/one","title":"Hello","thumbnails":[{"url":"thumb"},{"url":"other"}],"duration":12.5}"#;

const PLAYLIST: &str = r#"{
  "_type": "playlist",
  "original_url": "https://example/list",
  "title": "List",
  "thumbnails": [],
  "entries": [
    {"url": "https://example/a", "title": "A", "thumbnails": [{"url": "ta", "height": 90}]},
    {"url": "https://example/b", "title": "B"}
  ]
}"#;

fn value(text: &str) -> serde_json::Value {
    serde_json::from_str(text).unwrap()
}

#[test]
fn a_video_document_is_one_item() {
    match parse_output(VIDEO.as_bytes()).unwrap() {
        VideoOrPlaylist::Video(v) => {
            assert_eq!(v.url, "https://example/one");
            assert_eq!(v.title, "Hello");
            assert_eq!(v.thumbnail, Some("thumb".to_string()));
        }
        VideoOrPlaylist::Playlist(_) => panic!("a video was expected"),
    }
}

#[test]
fn a_playlist_document_lists_its_entries() {
    match parse_output(PLAYLIST.as_bytes()).unwrap() {
        VideoOrPlaylist::Playlist(p) => {
            assert_eq!(p.url, "https://example/list");
            assert_eq!(p.title, "List");
            assert_eq!(p.thumbnail, None);
            assert_eq!(p.videos.len(), 2);
            assert_eq!(p.videos[0].url, "https://example/a");
            assert_eq!(p.videos[0].title, "A");
            assert_eq!(p.videos[0].thumbnail, Some("ta".to_string()));
            assert_eq!(p.videos[1].title, "B");
            assert_eq!(p.videos[1].thumbnail, None);
        }
        VideoOrPlaylist::Video(_) => panic!("a playlist was expected"),
    }
}

#[test]
fn an_empty_playlist_is_a_result() {
    let doc = r#"{"_type":"playlist","original_url":"u","title":"t","entries":[]}"#;
    let contents = parse_output(doc.as_bytes()).unwrap();
    assert!(contents.is_empty());
    assert_eq!(contents.title(), "t");
    assert_eq!(contents.thumbnail(), None);
    assert!(contents.videos().is_empty());
}

#[test]
fn a_single_video_is_never_empty() {
    let contents = parse_output(VIDEO.as_bytes()).unwrap();
    assert!(!contents.is_empty());
    assert_eq!(contents.videos().len(), 1);
    assert_eq!(contents.videos()[0].title, "Hello");
    assert_eq!(contents.title(), "Hello");
    assert_eq!(contents.thumbnail(), Some("thumb"));
    let list = VideoOrPlaylist::Playlist(PlaylistInfo {
        url: "u".to_string(),
        thumbnail: Some("x".to_string()),
        title: "L".to_string(),
        videos: vec![VideoInfo { url: "a".to_string(), thumbnail: None, title: "A".to_string() }],
    });
    assert!(!list.is_empty());
    assert_eq!(list.title(), "L");
    assert_eq!(list.thumbnail(), Some("x"));
}

#[test]
fn other_types_are_an_error() {
    let doc = r#"{"_type":"channel","original_url":"u","title":"t"}"#;
    match parse_output(doc.as_bytes()) {
        Err(FetchError::UnexpectedType(t)) => assert_eq!(t, "channel"),
        _ => panic!("an unexpected type is an error"),
    }
    let error = parse_output(doc.as_bytes()).err().unwrap();
    assert_eq!(
        error.message(),
        "failed to parse downloader output: expected '_type' to be 'video' or 'playlist', got channel"
    );
}

#[test]
fn malformed_documents_are_an_error() {
    for doc in [
        r#"{}"#,
        r#"[]"#,
        r#""video""#,
        r#"{"_type":5}"#,
        r#"{"_type":"video","title":"t"}"#,
        r#"{"_type":"video","original_url":"u"}"#,
        r#"{"_type":"video","original_url":5,"title":"t"}"#,
        r#"{"_type":"video","url":"u","title":"t"}"#,
        r#"{"_type":"playlist","original_url":"u","title":"t"}"#,
        r#"{"_type":"playlist","original_url":"u","title":"t","entries":{}}"#,
        r#"{"_type":"playlist","original_url":"u","title":"t","entries":[{"url":"a"}]}"#,
        r#"{"_type":"playlist","original_url":"u","title":"t","entries":[{"url":"a","title":"A"},5]}"#,
        r#"{"_type":"playlist","title":"t","entries":[]}"#,
    ] {
        assert!(
            matches!(parse_output(doc.as_bytes()), Err(FetchError::Malformed)),
            "{doc}"
        );
    }
}

#[test]
fn what_is_no_json_is_an_error() {
    for doc in ["", "{", "hello", "{\"_type\":\"video\"", "\u{0}"] {
        assert!(matches!(parse_output(doc.as_bytes()), Err(FetchError::InvalidJson)), "{doc}");
    }
    assert!(matches!(parse_output(&[0xff, 0xfe]), Err(FetchError::InvalidJson)));
}

#[test]
fn a_missing_thumbnail_is_none() {
    for doc in [
        r#"{"original_url":"u","title":"t"}"#,
        r#"{"original_url":"u","title":"t","thumbnails":[]}"#,
        r#"{"original_url":"u","title":"t","thumbnails":null}"#,
        r#"{"original_url":"u","title":"t","thumbnails":"x"}"#,
        r#"{"original_url":"u","title":"t","thumbnails":[{"id":"1"}]}"#,
        r#"{"original_url":"u","title":"t","thumbnails":[{"url":7}]}"#,
        r#"{"original_url":"u","title":"t","thumbnails":["x"]}"#,
    ] {
        let video = parse_single_video(&value(doc)).unwrap();
        assert_eq!(video.thumbnail, None, "{doc}");
        assert_eq!(video.url, "u");
    }
}

#[test]
fn parts_of_a_document_are_read_on_their_own() {
    let list = parse_playlist(&value(PLAYLIST)).unwrap();
    assert_eq!(list.videos.len(), 2);
    assert!(parse_playlist(&value(VIDEO)).is_none());
    assert!(parse_single_video(&value(PLAYLIST)).is_some());
    assert!(matches!(parse_url_video_list(&value(VIDEO)), Ok(VideoOrPlaylist::Video(_))));
    assert!(matches!(parse_url_video_list(&value("null")), Err(FetchError::Malformed)));
}

#[test]
fn an_expansion_ends_with_what_the_output_describes() {
    let good = ExitInfo { success: true, code: Some(0) };
    match run_task_fetch_url_contents(good, VIDEO.as_bytes()) {
        Ok(TaskResultData::FetchUrlContents(VideoOrPlaylist::Video(v))) => {
            assert_eq!(v.title, "Hello")
        }
        _ => panic!("a video was expected"),
    }
    assert!(matches!(
        run_task_fetch_url_contents(good, b"oops"),
        Err(TaskFailure::Other(m)) if m == "failed to parse downloader output: no JSON document"
    ));
    assert!(matches!(
        run_task_fetch_url_contents(ExitInfo { success: false, code: Some(1) }, VIDEO.as_bytes()),
        Err(TaskFailure::Worker(WorkerError::BadExitCode(Some(1))))
    ));
}
