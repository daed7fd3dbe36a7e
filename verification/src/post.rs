//! The library's model of a Mastodon post.
//!
//! The server-side post object is opaque to this crate; the surrounding
//! program reduces each one to the plain fields the sync logic reads. The
//! HTML body arrives already rendered to plain text, since the renderer is
//! driven through an outside crate's decorator interface.
use vstd::prelude::*;

verus! {

/// One media attachment's user-facing description.
#[derive(Debug, Clone)]
pub struct MediaItem {
    pub alt_text: Option<String>,
}

pub ghost struct MediaItemV {
    pub alt_text: Option<Seq<char>>,
}

impl View for MediaItem {
    type V = MediaItemV;

    open spec fn view(&self) -> MediaItemV {
        MediaItemV {
            alt_text: match self.alt_text {
                Some(ref d) => Some(d@),
                None => None,
            },
        }
    }
}

/// The boosted post inside a boost, reduced to what rendering reads.
#[derive(Debug, Clone)]
pub struct ReblogInfo {
    /// The boosted author's account string, e.g. `alice@example.social`.
    pub acct: String,
    /// The boosted post's body, already rendered from HTML to plain text.
    pub body: String,
    pub media: Vec<MediaItem>,
}

pub ghost struct ReblogInfoV {
    pub acct: Seq<char>,
    pub body: Seq<char>,
    pub media: Seq<MediaItemV>,
}

impl View for ReblogInfo {
    type V = ReblogInfoV;

    open spec fn view(&self) -> ReblogInfoV {
        ReblogInfoV {
            acct: self.acct@,
            body: self.body@,
            media: self.media@.map_values(|m: MediaItem| m@),
        }
    }
}

/// One timeline post, reduced to the fields the sync logic reads.
#[derive(Debug, Clone)]
pub struct Post {
    /// The server's opaque identifier for this post.
    pub id: String,
    /// The author's account string, e.g. `alice@example.social`.
    pub acct: String,
    /// The post body, already rendered from HTML to plain text.
    pub body: String,
    /// Whether the server marked this post as a reply to some account.
    pub is_reply: bool,
    pub reblog: Option<ReblogInfo>,
    pub media: Vec<MediaItem>,
    /// The description of an attached link-preview card, if any.
    pub card_description: Option<String>,
}

pub ghost struct PostV {
    pub id: Seq<char>,
    pub acct: Seq<char>,
    pub body: Seq<char>,
    pub is_reply: bool,
    pub reblog: Option<ReblogInfoV>,
    pub media: Seq<MediaItemV>,
    pub card_description: Option<Seq<char>>,
}

impl View for Post {
    type V = PostV;

    open spec fn view(&self) -> PostV {
        PostV {
            id: self.id@,
            acct: self.acct@,
            body: self.body@,
            is_reply: self.is_reply,
            reblog: match self.reblog {
                Some(ref rb) => Some(rb@),
                None => None,
            },
            media: self.media@.map_values(|m: MediaItem| m@),
            card_description: match self.card_description {
                Some(ref d) => Some(d@),
                None => None,
            },
        }
    }
}

} // verus!
