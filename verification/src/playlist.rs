//! The manifest hierarchy: a variant playlist lists master playlists, one per
//! quality, and each of those points at the media playlists of its tracks.

use vstd::prelude::*;

pub mod master_playlist;
pub mod media_playlist;
pub mod segments;
pub mod variant_playlist;

verus! {

/// The host under which every path found in a manifest is fetched.
pub const BASE_URL: &'static str = "https://video.twimg.com";

} // verus!
