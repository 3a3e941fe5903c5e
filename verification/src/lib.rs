//! Verified core of a NetEase Cloud Music downloader: text handling, download
//! path rules, id lists, the eapi request encoding, interpretation of the API
//! replies, proxy list handling, and the decision logic that drives downloads.
pub mod text;
pub mod types;
pub mod json;
pub mod error;
pub mod utils;
pub mod ids;
pub mod netease;
pub mod availability;
pub mod proxy;
pub mod commands;
