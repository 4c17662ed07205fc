//! Reconstruction of Twitch VOD playlist URLs and repair of muted playlists.
//!
//! The library computes the candidate URLs of a VOD from its streamer,
//! broadcast id and start time, decides what each probe of the CDN means, and
//! rewrites playlists whose segments were muted. Performing the HTTP requests
//! is left to the caller.
pub mod text;
pub mod hash;
pub mod cdn;
pub mod timestamp;
pub mod models;
pub mod vods;
pub mod playlist;
pub mod config;
pub mod interface;
pub mod urls;
pub mod clips;
pub mod tracker;
