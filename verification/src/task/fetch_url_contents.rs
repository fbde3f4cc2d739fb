//! The URL-expansion task: reading the tool's description of a URL.
//!
//! The tool prints one JSON document. Its `_type` member says whether it
//! describes a single video or a playlist.

use vstd::prelude::*;
use crate::download_manager::command::{ExitInfo, WorkerError};
use crate::download_manager::worker::TaskFailure;
use crate::platform::same_text;
use crate::playlist::{
    video_views,
    PlaylistInfo,
    PlaylistInfoView,
    VideoInfo,
    VideoInfoView,
    VideoOrPlaylist,
    VideoOrPlaylistView,
};
use crate::task::{TaskResultData, TaskResultDataView};

verus! {

/// A JSON value of the `serde_json` crate.
#[verifier::external_type_specification]
#[verifier::external_body]
pub struct ExValue(serde_json::Value);

/// The content of a JSON value. Numbers are not told apart: nothing here reads
/// one.
pub ghost enum JsonModel {
    Null,
    Bool(bool),
    Number,
    Text(Seq<char>),
    Array(Seq<JsonModel>),
    Object(Map<Seq<char>, JsonModel>),
}

/// What a `serde_json::Value` holds.
pub uninterp spec fn json_model(value: serde_json::Value) -> JsonModel;

/// What `serde_json::from_slice` makes of `bytes`: the document they spell, or
/// nothing if they spell none.
pub uninterp spec fn json_document(bytes: Seq<u8>) -> Option<JsonModel>;

/// Parses a JSON document with `serde_json::from_slice`.
///
/// Believed, not proved: whether the bytes parse, and what the value holds if
/// they do, is [`json_document`] of the bytes: it depends on the bytes alone.
#[verifier::external_body]
pub(crate) fn parse_document(bytes: &[u8]) -> (document: Option<serde_json::Value>)
    ensures
        match document {
            Some(value) => json_document(bytes@) == Some(json_model(value)),
            None => json_document(bytes@) is None,
        },
{
    serde_json::from_slice(bytes).ok()
}

/// Reads a JSON string with `serde_json::Value::as_str`.
///
/// Believed, not proved: the text is returned exactly if the value is a
/// string.
#[verifier::external_body]
pub(crate) fn value_text(value: &serde_json::Value) -> (text: Option<String>)
    ensures
        match json_model(*value) {
            JsonModel::Text(t) => text matches Some(s) && s@ == t,
            _ => text is None,
        },
{
    value.as_str().map(|s| s.to_owned())
}

/// Looks a member of a JSON object up with `serde_json::Value::get`.
///
/// Believed, not proved: a copy of the member is returned exactly if the value
/// is an object that has a member called `key`.
#[verifier::external_body]
pub(crate) fn value_member(value: &serde_json::Value, key: &str) -> (found: Option<
    serde_json::Value,
>)
    ensures
        match member(json_model(*value), key@) {
            Some(m) => found matches Some(v) && json_model(v) == m,
            None => found is None,
        },
{
    value.get(key).cloned()
}

/// Reads a JSON array with `serde_json::Value::as_array`.
///
/// Believed, not proved: copies of the items are returned, in order, exactly if
/// the value is an array.
#[verifier::external_body]
pub(crate) fn value_items(value: &serde_json::Value) -> (items: Option<Vec<serde_json::Value>>)
    ensures
        match json_model(*value) {
            JsonModel::Array(models) => items matches Some(v) && v@.len() == models.len()
                && forall|i: int| 0 <= i < v@.len() ==> json_model(#[trigger] v@[i]) == models[i],
            _ => items is None,
        },
{
    value.as_array().cloned()
}

/// Why the tool's output could not be used.
#[derive(Debug)]
pub enum FetchError {
    /// The output is no JSON document.
    InvalidJson,
    /// The document lacks a member that is needed, or holds it in another shape.
    Malformed,
    /// The document's `_type` is neither `video` nor `playlist`; it is this.
    UnexpectedType(String),
}

/// The mathematical content of a [`FetchError`].
pub ghost enum FetchErrorView {
    InvalidJson,
    Malformed,
    UnexpectedType(Seq<char>),
}

impl View for FetchError {
    type V = FetchErrorView;

    open spec fn view(&self) -> FetchErrorView {
        match self {
            FetchError::InvalidJson => FetchErrorView::InvalidJson,
            FetchError::Malformed => FetchErrorView::Malformed,
            FetchError::UnexpectedType(t) => FetchErrorView::UnexpectedType(t@),
        }
    }
}

impl FetchErrorView {
    /// The message of this error.
    pub open spec fn message_text(self) -> Seq<char> {
        match self {
            FetchErrorView::InvalidJson => "failed to parse downloader output: no JSON document"@,
            FetchErrorView::Malformed => "failed to parse downloader output: a member is missing or has another shape"@,
            FetchErrorView::UnexpectedType(t) =>
                "failed to parse downloader output: expected '_type' to be 'video' or 'playlist', got "@
                + t,
        }
    }
}

/// The member `key` of `doc`, if `doc` is an object that has it.
pub open spec fn member(doc: JsonModel, key: Seq<char>) -> Option<JsonModel> {
    match doc {
        JsonModel::Object(members) => if members.contains_key(key) {
            Some(members[key])
        } else {
            None
        },
        _ => None,
    }
}

/// The text of the member `key` of `doc`, if `doc` has it and it is a string.
pub open spec fn text_member(doc: JsonModel, key: Seq<char>) -> Option<Seq<char>> {
    match member(doc, key) {
        Some(JsonModel::Text(t)) => Some(t),
        _ => None,
    }
}

/// The thumbnail of an item: the `url` of the first entry of its `thumbnails`,
/// where there is one.
pub open spec fn first_thumbnail(doc: JsonModel) -> Option<Seq<char>> {
    match member(doc, "thumbnails"@) {
        Some(JsonModel::Array(entries)) => if entries.len() > 0 {
            text_member(entries[0], "url"@)
        } else {
            None
        },
        _ => None,
    }
}

/// The item that `doc` describes, with its URL under `url_key`. An item needs a
/// URL and a title.
pub open spec fn video_item(doc: JsonModel, url_key: Seq<char>) -> Option<VideoInfoView> {
    match (text_member(doc, url_key), text_member(doc, "title"@)) {
        (Some(url), Some(title)) => Some(
            VideoInfoView { url, title, thumbnail: first_thumbnail(doc) },
        ),
        _ => None,
    }
}

/// The items that the entries of a playlist describe, if each describes one.
pub open spec fn playlist_items(entries: Seq<JsonModel>) -> Option<Seq<VideoInfoView>> {
    if forall|i: int| 0 <= i < entries.len() ==> video_item(#[trigger] entries[i], "url"@) is Some {
        Some(Seq::new(entries.len(), |i: int| video_item(entries[i], "url"@)->0))
    } else {
        None
    }
}

/// The playlist that `doc` describes: its URL, title and thumbnail, and the
/// items of its `entries`.
pub open spec fn playlist(doc: JsonModel) -> Option<PlaylistInfoView> {
    match (text_member(doc, "original_url"@), text_member(doc, "title"@), member(doc, "entries"@)) {
        (Some(url), Some(title), Some(JsonModel::Array(entries))) => match playlist_items(entries) {
            Some(videos) => Some(
                PlaylistInfoView { url, title, thumbnail: first_thumbnail(doc), videos },
            ),
            None => None,
        },
        _ => None,
    }
}

/// What a document describes: a video, a playlist, or nothing that can be used.
pub open spec fn url_contents(doc: JsonModel) -> Result<VideoOrPlaylistView, FetchErrorView> {
    match text_member(doc, "_type"@) {
        None => Err(FetchErrorView::Malformed),
        Some(kind) => if kind == "video"@ {
            match video_item(doc, "original_url"@) {
                Some(video) => Ok(VideoOrPlaylistView::Video(video)),
                None => Err(FetchErrorView::Malformed),
            }
        } else if kind == "playlist"@ {
            match playlist(doc) {
                Some(list) => Ok(VideoOrPlaylistView::Playlist(list)),
                None => Err(FetchErrorView::Malformed),
            }
        } else {
            Err(FetchErrorView::UnexpectedType(kind))
        },
    }
}

/// What the tool's output describes.
pub open spec fn output_contents(output: Seq<u8>) -> Result<VideoOrPlaylistView, FetchErrorView> {
    match json_document(output) {
        Some(doc) => url_contents(doc),
        None => Err(FetchErrorView::InvalidJson),
    }
}

/// The text of the member `key` of `data`.
fn text_of_member(data: &serde_json::Value, key: &str) -> (text: Option<String>)
    ensures
        match text_member(json_model(*data), key@) {
            Some(t) => text matches Some(s) && s@ == t,
            None => text is None,
        },
{
    match value_member(data, key) {
        Some(m) => value_text(&m),
        None => None,
    }
}

/// The thumbnail of the item that `data` describes.
fn thumbnail_of(data: &serde_json::Value) -> (thumbnail: Option<String>)
    ensures
        crate::playlist::text_of(thumbnail) == first_thumbnail(json_model(*data)),
{
    match value_member(data, "thumbnails") {
        Some(thumbnails) => match value_items(&thumbnails) {
            Some(entries) => {
                if entries.len() > 0 {
                    text_of_member(&entries[0], "url")
                } else {
                    None
                }
            },
            None => None,
        },
        None => None,
    }
}

/// The item that `data` describes, with its URL under `url_key`.
fn parse_video(data: &serde_json::Value, url_key: &str) -> (video: Option<VideoInfo>)
    ensures
        match video_item(json_model(*data), url_key@) {
            Some(v) => video matches Some(parsed) && parsed@ == v,
            None => video is None,
        },
{
    let url = match text_of_member(data, url_key) {
        Some(u) => u,
        None => {
            return None;
        },
    };
    let title = match text_of_member(data, "title") {
        Some(t) => t,
        None => {
            return None;
        },
    };
    Some(VideoInfo { url, title, thumbnail: thumbnail_of(data) })
}

/// The single video that `data` describes.
pub fn parse_single_video(data: &serde_json::Value) -> (video: Option<VideoInfo>)
    ensures
        match video_item(json_model(*data), "original_url"@) {
            Some(v) => video matches Some(parsed) && parsed@ == v,
            None => video is None,
        },
{
    parse_video(data, "original_url")
}

/// The playlist that `data` describes.
pub fn parse_playlist(data: &serde_json::Value) -> (list: Option<PlaylistInfo>)
    ensures
        match playlist(json_model(*data)) {
            Some(p) => list matches Some(parsed) && parsed@ == p,
            None => list is None,
        },
{
    let url = match text_of_member(data, "original_url") {
        Some(u) => u,
        None => {
            return None;
        },
    };
    let title = match text_of_member(data, "title") {
        Some(t) => t,
        None => {
            return None;
        },
    };
    let entries = match value_member(data, "entries") {
        Some(e) => match value_items(&e) {
            Some(items) => items,
            None => {
                return None;
            },
        },
        None => {
            return None;
        },
    };
    let ghost models = member(json_model(*data), "entries"@)->0->Array_0;
    let mut videos: Vec<VideoInfo> = Vec::new();
    let mut i: usize = 0;
    while i < entries.len()
        invariant
            i <= entries.len(),
            text_member(json_model(*data), "original_url"@) == Some(url@),
            text_member(json_model(*data), "title"@) == Some(title@),
            member(json_model(*data), "entries"@) == Some(JsonModel::Array(models)),
            entries@.len() == models.len(),
            forall|k: int| 0 <= k < entries@.len() ==> json_model(#[trigger] entries@[k]) == models[k],
            videos.len() == i,
            forall|k: int| 0 <= k < i ==> video_item(#[trigger] models[k], "url"@) is Some,
            forall|k: int|
                0 <= k < i ==> (#[trigger] videos[k])@ == video_item(models[k], "url"@)->0,
        decreases entries.len() - i,
    {
        match parse_video(&entries[i], "url") {
            Some(video) => {
                videos.push(video);
            },
            None => {
                assert(video_item(models[i as int], "url"@) is None);
                return None;
            },
        }
        i += 1;
    }
    assert(video_views(videos@) =~= playlist_items(models)->0);
    Some(PlaylistInfo { url, thumbnail: thumbnail_of(data), title, videos })
}

/// What the document `data` describes: a single video if its `_type` is
/// `video`, a playlist if it is `playlist`. Any other `_type`, and a document
/// that lacks what is needed, is an error.
pub fn parse_url_video_list(data: &serde_json::Value) -> (contents: Result<
    VideoOrPlaylist,
    FetchError,
>)
    ensures
        match url_contents(json_model(*data)) {
            Ok(c) => contents matches Ok(parsed) && parsed@ == c,
            Err(e) => contents matches Err(error) && error@ == e,
        },
{
    let check_type = match text_of_member(data, "_type") {
        Some(t) => t,
        None => {
            return Err(FetchError::Malformed);
        },
    };
    if same_text(check_type.as_str(), "video") {
        match parse_single_video(data) {
            Some(video) => Ok(VideoOrPlaylist::Video(video)),
            None => Err(FetchError::Malformed),
        }
    } else if same_text(check_type.as_str(), "playlist") {
        match parse_playlist(data) {
            Some(list) => Ok(VideoOrPlaylist::Playlist(list)),
            None => Err(FetchError::Malformed),
        }
    } else {
        Err(FetchError::UnexpectedType(check_type))
    }
}

/// What the tool's output describes.
pub fn parse_output(output: &[u8]) -> (contents: Result<VideoOrPlaylist, FetchError>)
    ensures
        match output_contents(output@) {
            Ok(c) => contents matches Ok(parsed) && parsed@ == c,
            Err(e) => contents matches Err(error) && error@ == e,
        },
{
    match parse_document(output) {
        Some(data) => parse_url_video_list(&data),
        None => Err(FetchError::InvalidJson),
    }
}

impl FetchError {
    /// The message of this error.
    pub fn message(&self) -> (text: String)
        ensures
            text@ == self@.message_text(),
    {
        match self {
            FetchError::InvalidJson => "failed to parse downloader output: no JSON document".to_string(),
            FetchError::Malformed => "failed to parse downloader output: a member is missing or has another shape".to_string(),
            FetchError::UnexpectedType(t) => crate::text::joined(
                "failed to parse downloader output: expected '_type' to be 'video' or 'playlist', got ",
                t.as_str(),
            ),
        }
    }
}

/// What a URL expansion's run amounts to: what the tool's output describes, if
/// the tool exited with success and its output can be used; else the reason why
/// not.
pub fn run_task_fetch_url_contents(exit: ExitInfo, output: &[u8]) -> (result: Result<
    TaskResultData,
    TaskFailure,
>)
    ensures
        match result {
            Ok(data) => {
                &&& exit.success
                &&& output_contents(output@) matches Ok(c)
                &&& data@ == TaskResultDataView::FetchUrlContents(c)
            },
            Err(TaskFailure::Worker(e)) => !exit.success && e == WorkerError::BadExitCode(
                exit.code,
            ),
            Err(TaskFailure::Other(message)) => {
                &&& exit.success
                &&& output_contents(output@) matches Err(e)
                &&& message@ == e.message_text()
            },
        },
{
    if exit.success {
        match parse_output(output) {
            Ok(contents) => Ok(TaskResultData::FetchUrlContents(contents)),
            Err(e) => Err(TaskFailure::Other(e.message())),
        }
    } else {
        Err(TaskFailure::Worker(WorkerError::BadExitCode(exit.code)))
    }
}

} // verus!
