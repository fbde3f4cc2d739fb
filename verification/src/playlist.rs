//! What a source URL expands to: one video, or a playlist of videos.

use vstd::prelude::*;

verus! {

/// One downloadable item.
#[derive(Debug)]
pub struct VideoInfo {
    pub url: String,
    pub thumbnail: Option<String>,
    pub title: String,
}

/// A playlist header with its items, in playlist order.
#[derive(Debug)]
pub struct PlaylistInfo {
    pub url: String,
    pub thumbnail: Option<String>,
    pub title: String,
    pub videos: Vec<VideoInfo>,
}

/// The outcome of expanding a URL.
#[derive(Debug)]
pub enum VideoOrPlaylist {
    Video(VideoInfo),
    Playlist(PlaylistInfo),
}

pub ghost struct VideoInfoView {
    pub url: Seq<char>,
    pub thumbnail: Option<Seq<char>>,
    pub title: Seq<char>,
}

pub ghost struct PlaylistInfoView {
    pub url: Seq<char>,
    pub thumbnail: Option<Seq<char>>,
    pub title: Seq<char>,
    pub videos: Seq<VideoInfoView>,
}

pub ghost enum VideoOrPlaylistView {
    Video(VideoInfoView),
    Playlist(PlaylistInfoView),
}

/// The text an optional string holds, if any.
pub open spec fn text_of(s: Option<String>) -> Option<Seq<char>> {
    match s {
        Some(s) => Some(s@),
        None => None,
    }
}

/// The models of a run of videos, in order.
pub open spec fn video_views(videos: Seq<VideoInfo>) -> Seq<VideoInfoView> {
    videos.map_values(|v: VideoInfo| v@)
}

impl View for VideoInfo {
    type V = VideoInfoView;

    open spec fn view(&self) -> VideoInfoView {
        VideoInfoView { url: self.url@, thumbnail: text_of(self.thumbnail), title: self.title@ }
    }
}

impl View for PlaylistInfo {
    type V = PlaylistInfoView;

    open spec fn view(&self) -> PlaylistInfoView {
        PlaylistInfoView {
            url: self.url@,
            thumbnail: text_of(self.thumbnail),
            title: self.title@,
            videos: video_views(self.videos@),
        }
    }
}

impl View for VideoOrPlaylist {
    type V = VideoOrPlaylistView;

    open spec fn view(&self) -> VideoOrPlaylistView {
        match self {
            VideoOrPlaylist::Video(v) => VideoOrPlaylistView::Video(v@),
            VideoOrPlaylist::Playlist(p) => VideoOrPlaylistView::Playlist(p@),
        }
    }
}

impl VideoOrPlaylistView {
    /// The items to download: the video itself, or the playlist's entries.
    pub open spec fn videos(self) -> Seq<VideoInfoView> {
        match self {
            VideoOrPlaylistView::Video(v) => seq![v],
            VideoOrPlaylistView::Playlist(p) => p.videos,
        }
    }

    pub open spec fn title(self) -> Seq<char> {
        match self {
            VideoOrPlaylistView::Video(v) => v.title,
            VideoOrPlaylistView::Playlist(p) => p.title,
        }
    }

    pub open spec fn thumbnail(self) -> Option<Seq<char>> {
        match self {
            VideoOrPlaylistView::Video(v) => v.thumbnail,
            VideoOrPlaylistView::Playlist(p) => p.thumbnail,
        }
    }

    /// The thumbnail, or the empty text if there is none.
    pub open spec fn thumbnail_or_empty(self) -> Seq<char> {
        match self.thumbnail() {
            Some(t) => t,
            None => Seq::empty(),
        }
    }
}

/// `core::slice::from_ref` views one value as a slice. Believed, not proved: the
/// slice holds exactly that value, as the function's documentation says
/// ("a slice of length 1").
pub assume_specification<T>[ core::slice::from_ref::<T> ](s: &T) -> (one: &[T])
    ensures
        one@ == seq![*s],
;

impl VideoOrPlaylist {
    /// Whether there is nothing to download. A single video never is empty.
    pub fn is_empty(&self) -> (empty: bool)
        ensures
            empty == (self@.videos().len() == 0),
    {
        match self {
            VideoOrPlaylist::Video(_) => false,
            VideoOrPlaylist::Playlist(p) => p.videos.len() == 0,
        }
    }

    pub fn title(&self) -> (title: &str)
        ensures
            title@ == self@.title(),
    {
        match self {
            VideoOrPlaylist::Video(v) => v.title.as_str(),
            VideoOrPlaylist::Playlist(p) => p.title.as_str(),
        }
    }

    pub fn thumbnail(&self) -> (thumbnail: Option<&str>)
        ensures
            match thumbnail {
                Some(t) => self@.thumbnail() == Some(t@),
                None => self@.thumbnail() is None,
            },
    {
        match self {
            VideoOrPlaylist::Video(v) => match &v.thumbnail {
                Some(t) => Some(t.as_str()),
                None => None,
            },
            VideoOrPlaylist::Playlist(p) => match &p.thumbnail {
                Some(t) => Some(t.as_str()),
                None => None,
            },
        }
    }

    /// The items to download, in order.
    pub fn videos(&self) -> (videos: &[VideoInfo])
        ensures
            video_views(videos@) == self@.videos(),
    {
        match self {
            VideoOrPlaylist::Video(v) => {
                let one = core::slice::from_ref(v);
                assert(video_views(one@) =~= seq![v@]);
                one
            },
            VideoOrPlaylist::Playlist(p) => p.videos.as_slice(),
        }
    }
}

} // verus!
