//! Verified core of a HotSync conduit that mirrors a Mastodon account onto a
//! PalmOS handheld. The library covers the on-device record codec, the
//! HTML-free post rendering, the timeline pager, the content/author database
//! layout, the handheld write decoder and planner, and the cache rotation
//! rules. All I/O (HTTP, filesystem, the host sync framework) lives outside
//! the library and exchanges plain values with it.
use vstd::prelude::*;

pub mod cache;
pub mod codec;
pub mod fetch;
pub mod layout;
pub mod post;
pub mod render;
pub mod transcode;
pub mod writer;

verus! {

/// Failures that the verified core can itself detect.
#[derive(Clone, Copy, Debug, PartialEq, Eq, Structural)]
pub enum SyncError {
    /// A record from the device was truncated, had an unknown discriminant,
    /// or reported a length that the bytes do not contain.
    MalformedRecord,
    /// A record index does not resolve against the previous sync's snapshot.
    CacheInconsistent,
    /// Reserved for text from the device that cannot be read as ISO-8859-1.
    /// Every byte is a valid ISO-8859-1 character, so the verified write
    /// planner never returns this; it stands in the taxonomy for callers
    /// that narrow text through other encodings.
    TranscodeError,
}

impl SyncError {
    /// Human-readable form, for logs kept by the surrounding program.
    pub fn describe(&self) -> (r: &'static str)
        ensures
            r@ == self.spec_describe(),
    {
        match self {
            SyncError::MalformedRecord => "malformed record from handheld",
            SyncError::CacheInconsistent => "cache seems to have incorrect data",
            SyncError::TranscodeError => "invalid ISO-8859-1 text from handheld",
        }
    }

    pub open spec fn spec_describe(&self) -> Seq<char> {
        match self {
            SyncError::MalformedRecord => "malformed record from handheld"@,
            SyncError::CacheInconsistent => "cache seems to have incorrect data"@,
            SyncError::TranscodeError => "invalid ISO-8859-1 text from handheld"@,
        }
    }
}

} // verus!
