//! The errors that the library reports, and their messages.
use vstd::prelude::*;
use vstd::string::*;

verus! {

/// Which path a path rule was applied to.
#[derive(Debug, Clone, Copy, PartialEq, Eq)]
pub enum PathLabel {
    InputFilePath,
    FileName,
    AlbumDirectory,
}

#[derive(Debug, Clone)]
pub enum DownloadError {
    EmptyInputPath,
    AbsoluteInputPath,
    ParentTraversal(PathLabel),
    EmptyComponent(PathLabel),
    DotComponent(PathLabel),
    SeparatorInComponent(PathLabel),
    InvalidId(String),
    NoIds,
    SongNotFound(String),
    ProgramSongMissing(String),
    AlbumApi(String),
    AlbumPayloadMissing,
    Encryption,
}

pub open spec fn label_text(l: PathLabel) -> Seq<char> {
    match l {
        PathLabel::InputFilePath => "input file path"@,
        PathLabel::FileName => "file name"@,
        PathLabel::AlbumDirectory => "album directory"@,
    }
}

impl DownloadError {
    /// The text that the error is reported with.
    pub open spec fn message_spec(&self) -> Seq<char> {
        match self {
            DownloadError::EmptyInputPath => "input file path cannot be empty"@,
            DownloadError::AbsoluteInputPath =>
                "input file path must be relative to the current directory"@,
            DownloadError::ParentTraversal(l) => label_text(*l) + " cannot contain '..'"@,
            DownloadError::EmptyComponent(l) => label_text(*l) + " cannot be empty"@,
            DownloadError::DotComponent(l) => label_text(*l) + " cannot be '.' or '..'"@,
            DownloadError::SeparatorInComponent(l) => label_text(*l)
                + " must not contain path separators"@,
            DownloadError::InvalidId(s) => "Invalid ID or URL: "@ + s@,
            DownloadError::NoIds => "please provide at least one music ID"@,
            DownloadError::SongNotFound(id) => "song not found for id "@ + id@,
            DownloadError::ProgramSongMissing(id) =>
                "failed to resolve main song id from program "@ + id@,
            DownloadError::AlbumApi(m) => "failed to fetch album info: "@ + m@,
            DownloadError::AlbumPayloadMissing => "album payload missing"@,
            DownloadError::Encryption => "failed to encrypt eapi payload"@,
        }
    }

    /// The text that the error is reported with.
    pub fn message(&self) -> (r: String)
        ensures
            r@ == self.message_spec(),
    {
        match self {
            DownloadError::EmptyInputPath => String::from_str("input file path cannot be empty"),
            DownloadError::AbsoluteInputPath => String::from_str(
                "input file path must be relative to the current directory",
            ),
            DownloadError::ParentTraversal(l) => label_string(*l).concat(" cannot contain '..'"),
            DownloadError::EmptyComponent(l) => label_string(*l).concat(" cannot be empty"),
            DownloadError::DotComponent(l) => label_string(*l).concat(" cannot be '.' or '..'"),
            DownloadError::SeparatorInComponent(l) => label_string(*l).concat(
                " must not contain path separators",
            ),
            DownloadError::InvalidId(s) => String::from_str("Invalid ID or URL: ").concat(
                s.as_str(),
            ),
            DownloadError::NoIds => String::from_str("please provide at least one music ID"),
            DownloadError::SongNotFound(id) => String::from_str("song not found for id ").concat(
                id.as_str(),
            ),
            DownloadError::ProgramSongMissing(id) => String::from_str(
                "failed to resolve main song id from program ",
            ).concat(id.as_str()),
            DownloadError::AlbumApi(m) => String::from_str("failed to fetch album info: ").concat(
                m.as_str(),
            ),
            DownloadError::AlbumPayloadMissing => String::from_str("album payload missing"),
            DownloadError::Encryption => String::from_str("failed to encrypt eapi payload"),
        }
    }
}

fn label_string(l: PathLabel) -> (r: String)
    ensures
        r@ == label_text(l),
{
    match l {
        PathLabel::InputFilePath => String::from_str("input file path"),
        PathLabel::FileName => String::from_str("file name"),
        PathLabel::AlbumDirectory => String::from_str("album directory"),
    }
}

} // verus!
