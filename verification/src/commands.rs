//! The decisions of the download commands: which songs can be fetched, what
//! their files are called, and when a failed download is tried again.
use vstd::prelude::*;
use vstd::string::*;
use crate::text::{decimal_spec, push_char, push_decimal};
use crate::types::{AlbumInfo, Availability, Song};
use crate::utils::{
    sanitize_extension, sanitize_extension_spec, sanitize_file_name, sanitize_file_name_spec,
};

verus! {

/// The name a song is filed under: its first artist, or `Unknown Artist`.
pub open spec fn first_artist_spec(song: Song) -> Seq<char> {
    if song.artists@.len() > 0 {
        song.artists@[0].name@
    } else {
        "Unknown Artist"@
    }
}

pub fn first_artist_name(song: &Song) -> (r: String)
    ensures
        r@ == first_artist_spec(*song),
{
    if song.artists.len() > 0 {
        song.artists[0].name.clone()
    } else {
        String::from_str("Unknown Artist")
    }
}

/// A song can be downloaded when it is available and has a URL.
pub open spec fn downloadable(av: Availability) -> bool {
    av.available && av.url is Some
}

pub fn is_downloadable(av: &Availability) -> (r: bool)
    ensures
        r == downloadable(*av),
{
    av.available && av.url.is_some()
}

/// The extension the audio file gets: the reported file type, cleaned.
pub open spec fn audio_extension_spec(av: Availability) -> Seq<char> {
    sanitize_extension_spec(
        match av.file_type {
            Some(t) => t@,
            None => "mp3"@,
        },
    )
}

pub fn audio_extension(av: &Availability) -> (r: String)
    ensures
        r@ == audio_extension_spec(*av),
{
    match &av.file_type {
        Some(t) => sanitize_extension(t.as_str()),
        None => sanitize_extension("mp3"),
    }
}

/// `artist-song`, both cleaned for use in a file name.
pub open spec fn title_spec(artist: Seq<char>, song: Seq<char>) -> Seq<char> {
    sanitize_file_name_spec(artist) + seq!['-'] + sanitize_file_name_spec(song)
}

fn title(artist: &str, song: &str) -> (r: String)
    ensures
        r@ == title_spec(artist@, song@),
{
    let mut s = sanitize_file_name(artist);
    push_char(&mut s, '-');
    let t = sanitize_file_name(song);
    s.append(t.as_str());
    s
}

/// `n` written with at least two digits (`{:02}`).
pub open spec fn two_digits_spec(n: nat) -> Seq<char> {
    if n < 10 {
        seq!['0'] + decimal_spec(n)
    } else {
        decimal_spec(n)
    }
}

/// `NN.artist-song`, the stem of an album track's files; `index` counts
/// from 0, the number from 1.
pub open spec fn track_stem_spec(index: nat, artist: Seq<char>, song: Seq<char>) -> Seq<char> {
    two_digits_spec(index + 1) + seq!['.'] + title_spec(artist, song)
}

fn track_stem(index: usize, artist: &str, song: &str) -> (r: String)
    requires
        index < u64::MAX,
    ensures
        r@ == track_stem_spec(index as nat, artist@, song@),
{
    let number = index as u64 + 1;
    let mut s = String::new();
    if number < 10 {
        push_char(&mut s, '0');
    }
    push_decimal(&mut s, number);
    push_char(&mut s, '.');
    let t = title(artist, song);
    s.append(t.as_str());
    assert(s@ =~= track_stem_spec(index as nat, artist@, song@));
    s
}

/// The two files of a downloaded song: the audio and its lyrics.
#[derive(Debug)]
pub struct TrackFiles {
    pub audio: String,
    pub lyrics: String,
}

fn files_for(stem: String, ext: &str) -> (r: TrackFiles)
    ensures
        r.audio@ == stem@ + seq!['.'] + ext@,
        r.lyrics@ == stem@ + ".lrc"@,
{
    let mut audio = stem.clone();
    push_char(&mut audio, '.');
    audio.append(ext);
    let lyrics = stem.concat(".lrc");
    TrackFiles { audio, lyrics }
}

/// The files of a single song: `artist-song.ext` and `artist-song.lrc`;
/// `None` when the song cannot be downloaded.
pub fn song_files(song: &Song, av: &Availability) -> (r: Option<TrackFiles>)
    ensures
        !downloadable(*av) ==> r is None,
        downloadable(*av) ==> (r matches Some(f) && f.audio@ == title_spec(
            first_artist_spec(*song),
            song.name@,
        ) + seq!['.'] + audio_extension_spec(*av) && f.lyrics@ == title_spec(
            first_artist_spec(*song),
            song.name@,
        ) + ".lrc"@),
{
    if !is_downloadable(av) {
        return None;
    }
    let ext = audio_extension(av);
    let artist = first_artist_name(song);
    let stem = title(artist.as_str(), song.name.as_str());
    Some(files_for(stem, ext.as_str()))
}

/// The lyrics file of a single song: `artist-song.lrc`.
pub fn song_lyrics_file(song: &Song) -> (r: String)
    ensures
        r@ == title_spec(first_artist_spec(*song), song.name@) + ".lrc"@,
{
    let artist = first_artist_name(song);
    title(artist.as_str(), song.name.as_str()).concat(".lrc")
}

/// The directory of an album: `artist-album`, both cleaned.
pub fn album_dir_name(album: &AlbumInfo) -> (r: String)
    ensures
        r@ == title_spec(album.artist_name@, album.album_name@),
{
    title(album.artist_name.as_str(), album.album_name.as_str())
}

/// The files of track `index` (from 0) of an album: `NN.artist-song.ext` and
/// `NN.artist-song.lrc`; `None` when the song cannot be downloaded.
pub fn album_track_files(index: usize, song: &Song, av: &Availability) -> (r: Option<TrackFiles>)
    requires
        index < u64::MAX,
    ensures
        !downloadable(*av) ==> r is None,
        downloadable(*av) ==> (r matches Some(f) && f.audio@ == track_stem_spec(
            index as nat,
            first_artist_spec(*song),
            song.name@,
        ) + seq!['.'] + audio_extension_spec(*av) && f.lyrics@ == track_stem_spec(
            index as nat,
            first_artist_spec(*song),
            song.name@,
        ) + ".lrc"@),
{
    if !is_downloadable(av) {
        return None;
    }
    let ext = audio_extension(av);
    let artist = first_artist_name(song);
    let stem = track_stem(index, artist.as_str(), song.name.as_str());
    Some(files_for(stem, ext.as_str()))
}

/// The lyrics file of track `index` (from 0) of an album.
pub fn album_track_lyrics_file(index: usize, song: &Song) -> (r: String)
    requires
        index < u64::MAX,
    ensures
        r@ == track_stem_spec(index as nat, first_artist_spec(*song), song.name@) + ".lrc"@,
{
    let artist = first_artist_name(song);
    track_stem(index, artist.as_str(), song.name.as_str()).concat(".lrc")
}

/// How many times a song download is attempted.
pub open spec fn max_attempts() -> int {
    3
}

/// What follows a failed download attempt.
#[derive(Debug, PartialEq, Eq)]
pub enum AfterFailure {
    /// The last attempt failed: report the error.
    GiveUp,
    /// Try again, refreshing the proxy list first.
    RetryWithFreshProxies,
    /// Try again.
    Retry,
}

/// After attempt number `attempt` (from 1) failed: give up after the third,
/// else try again, refreshing the proxy list first when automatic proxies
/// are on.
pub fn after_failed_attempt(attempt: u32, auto_proxy: bool) -> (r: AfterFailure)
    ensures
        attempt >= max_attempts() ==> r == AfterFailure::GiveUp,
        attempt < max_attempts() && auto_proxy ==> r == AfterFailure::RetryWithFreshProxies,
        attempt < max_attempts() && !auto_proxy ==> r == AfterFailure::Retry,
{
    if attempt >= 3 {
        AfterFailure::GiveUp
    } else if auto_proxy {
        AfterFailure::RetryWithFreshProxies
    } else {
        AfterFailure::Retry
    }
}


/// How one track of an album download ended.
#[derive(Debug, Clone, Copy, PartialEq, Eq)]
pub enum TrackOutcome {
    Downloaded,
    /// Unavailable, or already on disk.
    Skipped,
    Failed,
}

/// The running count of an album download's tracks by outcome.
#[derive(Debug, Clone, Copy)]
pub struct AlbumTally {
    pub success: usize,
    pub skipped: usize,
    pub failed: usize,
}

impl AlbumTally {
    /// No track counted yet.
    pub fn new() -> (r: AlbumTally)
        ensures
            r.success == 0 && r.skipped == 0 && r.failed == 0,
    {
        AlbumTally { success: 0, skipped: 0, failed: 0 }
    }

    /// Counts one more track with the given outcome.
    pub fn record(&mut self, outcome: TrackOutcome)
        requires
            old(self).success + old(self).skipped + old(self).failed < usize::MAX,
        ensures
            final(self).success == old(self).success + (if outcome == TrackOutcome::Downloaded {
                1int
            } else {
                0int
            }),
            final(self).skipped == old(self).skipped + (if outcome == TrackOutcome::Skipped {
                1int
            } else {
                0int
            }),
            final(self).failed == old(self).failed + (if outcome == TrackOutcome::Failed {
                1int
            } else {
                0int
            }),
    {
        match outcome {
            TrackOutcome::Downloaded => self.success = self.success + 1,
            TrackOutcome::Skipped => self.skipped = self.skipped + 1,
            TrackOutcome::Failed => self.failed = self.failed + 1,
        }
    }

    /// The closing line of an album download.
    pub fn summary(&self) -> (r: String)
        ensures
            r@ == "Album download completed: success="@ + decimal_spec(self.success as nat)
                + ", skipped="@ + decimal_spec(self.skipped as nat) + ", failed="@ + decimal_spec(
                self.failed as nat,
            ),
    {
        let mut s = String::from_str("Album download completed: success=");
        push_decimal(&mut s, self.success as u64);
        s.append(", skipped=");
        push_decimal(&mut s, self.skipped as u64);
        s.append(", failed=");
        push_decimal(&mut s, self.failed as u64);
        s
    }
}

} // verus!
