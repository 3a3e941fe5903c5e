//! The records that the API replies are read into, and their views.
use vstd::prelude::*;

verus! {

#[derive(Debug, Clone)]
pub struct Artist {
    pub name: String,
}

#[derive(Debug, Clone)]
pub struct Album {
    pub name: String,
    pub pic_url: Option<String>,
}

#[derive(Debug, Clone)]
pub struct Song {
    pub id: String,
    pub name: String,
    pub artists: Vec<Artist>,
    pub album: Option<Album>,
    pub duration: Option<u64>,
    pub publish_time: Option<u64>,
}

#[derive(Debug, Clone)]
pub struct AlbumInfo {
    pub songs: Vec<Song>,
    pub album_name: String,
    pub artist_name: String,
    pub pic_url: Option<String>,
    pub publish_time: Option<u64>,
}

#[derive(Debug, Clone)]
pub struct Availability {
    pub available: bool,
    pub content_length: Option<u64>,
    pub url: Option<String>,
    pub need_proxy: bool,
    pub quality: Option<String>,
    pub bitrate: Option<u64>,
    pub file_type: Option<String>,
}

pub ghost struct AlbumView {
    pub name: Seq<char>,
    pub pic_url: Option<Seq<char>>,
}

pub ghost struct SongView {
    pub id: Seq<char>,
    pub name: Seq<char>,
    pub artists: Seq<Seq<char>>,
    pub album: Option<AlbumView>,
    pub duration: Option<u64>,
    pub publish_time: Option<u64>,
}

pub ghost struct AlbumInfoView {
    pub songs: Seq<SongView>,
    pub album_name: Seq<char>,
    pub artist_name: Seq<char>,
    pub pic_url: Option<Seq<char>>,
    pub publish_time: Option<u64>,
}

pub ghost struct AvailabilityView {
    pub available: bool,
    pub content_length: Option<u64>,
    pub url: Option<Seq<char>>,
    pub need_proxy: bool,
    pub quality: Option<Seq<char>>,
    pub bitrate: Option<u64>,
    pub file_type: Option<Seq<char>>,
}

impl View for Artist {
    type V = Seq<char>;

    open spec fn view(&self) -> Seq<char> {
        self.name@
    }
}

impl View for Album {
    type V = AlbumView;

    open spec fn view(&self) -> AlbumView {
        AlbumView { name: self.name@, pic_url: self.pic_url.deep_view() }
    }
}

pub open spec fn album_opt_view(a: Option<Album>) -> Option<AlbumView> {
    match a {
        Some(x) => Some(x@),
        None => None,
    }
}

impl View for Song {
    type V = SongView;

    open spec fn view(&self) -> SongView {
        SongView {
            id: self.id@,
            name: self.name@,
            artists: Seq::new(self.artists@.len(), |i: int| self.artists@[i]@),
            album: album_opt_view(self.album),
            duration: self.duration,
            publish_time: self.publish_time,
        }
    }
}

impl View for AlbumInfo {
    type V = AlbumInfoView;

    open spec fn view(&self) -> AlbumInfoView {
        AlbumInfoView {
            songs: Seq::new(self.songs@.len(), |i: int| self.songs@[i]@),
            album_name: self.album_name@,
            artist_name: self.artist_name@,
            pic_url: self.pic_url.deep_view(),
            publish_time: self.publish_time,
        }
    }
}

impl View for Availability {
    type V = AvailabilityView;

    open spec fn view(&self) -> AvailabilityView {
        AvailabilityView {
            available: self.available,
            content_length: self.content_length,
            url: self.url.deep_view(),
            need_proxy: self.need_proxy,
            quality: self.quality.deep_view(),
            bitrate: self.bitrate,
            file_type: self.file_type.deep_view(),
        }
    }
}

/// The reply that stands for "not available": every field empty.
pub open spec fn unavailable_view() -> AvailabilityView {
    AvailabilityView {
        available: false,
        content_length: None,
        url: None,
        need_proxy: false,
        quality: None,
        bitrate: None,
        file_type: None,
    }
}

impl Availability {
    /// An availability record that says the song cannot be had.
    pub fn unavailable() -> (r: Availability)
        ensures
            r@ == unavailable_view(),
    {
        Availability {
            available: false,
            content_length: None,
            url: None,
            need_proxy: false,
            quality: None,
            bitrate: None,
            file_type: None,
        }
    }
}

} // verus!
