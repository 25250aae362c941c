//! The platforms whose links are served, and how a link finds its platform.

use vstd::prelude::*;
use crate::platforms::tiktok::TiktokDownloader;
use crate::platforms::twitter::TwitterDownloader;

pub mod tiktok;
pub mod twitter;

verus! {

/// A platform whose links are served.
#[derive(Debug, Clone, Copy, PartialEq, Eq, Structural)]
pub enum Platform {
    /// Videos come as a manifest of variants, of which the user picks one.
    Twitter,
    /// Videos come as one file.
    Tiktok,
}

/// The platform that serves a link, given what each platform says of it:
/// Twitter where it accepts the link, else TikTok where that accepts it.
pub open spec fn platform_for(twitter_accepts: bool, tiktok_accepts: bool) -> Option<Platform> {
    if twitter_accepts {
        Some(Platform::Twitter)
    } else if tiktok_accepts {
        Some(Platform::Tiktok)
    } else {
        None
    }
}

/// Finds the platform that serves `url`; `None` where none does.
pub fn platform_of(url: &str) -> (platform: Option<Platform>)
    ensures
        platform == platform_for(
            TwitterDownloader::validity_of(url@) is Ok,
            TiktokDownloader::validity_of(url@) is Ok,
        ),
{
    if TwitterDownloader::validate_url(url).is_ok() {
        Some(Platform::Twitter)
    } else if TiktokDownloader::validate_url(url).is_ok() {
        Some(Platform::Tiktok)
    } else {
        None
    }
}

} // verus!
