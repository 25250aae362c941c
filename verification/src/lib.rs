//! Downloading videos that platforms deliver as segmented streaming
//! manifests.
//!
//! A top-level manifest lists the variants of a video, one per quality. Each
//! variant points at the media manifests of its tracks, and each of those
//! lists the segments of one track in playback order. This library holds the
//! rules of that hierarchy and proves them with Verus:
//!
//! - [`playlist::variant_playlist`] reads a top-level manifest into its
//!   variants, matches each with its audio and orders them by area;
//! - [`playlist::media_playlist`] reads a media manifest into its segment
//!   list, and [`playlist::segments`] puts fetched segments back together in
//!   playback order, whatever the order in which the fetches ended;
//! - [`playlist::master_playlist`] leads the download of one variant step by
//!   step: what to resolve, write, mux and remove, and how it ends;
//! - [`platforms`] tells which platform serves a link and what a page's
//!   requests give away;
//! - [`selection`] makes and reads the keys by which a user picks a variant.
//!
//! The library performs no input or output. Its caller fetches, writes and
//! runs what the library asks for, and reports back what happened. Searches
//! with regular expressions are left to the `regex` crate, see [`pattern`].

pub mod downloader_error;
pub mod pattern;
pub mod platforms;
pub mod playlist;
pub mod selection;
pub mod text;
