//! Turning a post into the author line and body text shown on the device.
//!
//! The author line is `@name` for an original post and
//! `@booster via @original` for a boost, where the name is the account
//! string up to its first `@`. The body is the post's plain text followed
//! by one line per media attachment and one for a link-preview card.
use vstd::prelude::*;
use vstd::string::StrSliceExecFns;
use vstd::string::StringExecFns;

use crate::post::{MediaItem, MediaItemV, Post, PostV};

verus! {

// ---------------------------------------------------------------------------
// The author line
// ---------------------------------------------------------------------------

/// Index of the first `@` in `s`, or `s.len()` if there is none.
pub open spec fn at_index(s: Seq<char>) -> int
    decreases s.len(),
{
    if s.len() == 0 {
        0
    } else if s[0] == '@' {
        0
    } else {
        1 + at_index(s.skip(1))
    }
}

pub proof fn lemma_at_index(s: Seq<char>)
    ensures
        0 <= at_index(s) <= s.len(),
        forall|j: int| 0 <= j < at_index(s) ==> s[j] != '@',
        at_index(s) < s.len() ==> s[at_index(s)] == '@',
    decreases s.len(),
{
    if s.len() > 0 && s[0] != '@' {
        lemma_at_index(s.skip(1));
        assert forall|j: int| 0 <= j < at_index(s) implies s[j] != '@' by {
            if j > 0 {
                assert(s.skip(1)[j - 1] == s[j]);
            }
        }
    }
}

/// The account name: everything before the first `@`.
pub open spec fn handle_of(acct: Seq<char>) -> Seq<char> {
    acct.take(at_index(acct))
}

/// The device-facing author line of a post.
pub open spec fn author_line_of(p: PostV) -> Seq<char> {
    match p.reblog {
        Some(rb) => "@"@ + handle_of(rb.acct) + " via @"@ + handle_of(p.acct),
        None => "@"@ + handle_of(p.acct),
    }
}

/// Position of the first `@` in `s`, or its length if there is none.
fn find_at(s: &str) -> (idx: usize)
    ensures
        idx == at_index(s@),
{
    proof {
        lemma_at_index(s@);
    }
    let n = s.unicode_len();
    for i in 0..n
        invariant
            n == s@.len(),
            forall|j: int| 0 <= j < i ==> s@[j] != '@',
    {
        if s.get_char(i) == '@' {
            proof {
                lemma_at_index(s@);
            }
            return i;
        }
    }
    proof {
        lemma_at_index(s@);
    }
    n
}

/// The account name slice: everything before the first `@`.
fn handle_prefix(s: &str) -> (r: &str)
    ensures
        r@ == handle_of(s@),
{
    let i = find_at(s);
    proof {
        lemma_at_index(s@);
    }
    s.substring_char(0, i)
}

/// Build the author line shown beside a post on the device.
pub fn author_line(post: &Post) -> (r: String)
    ensures
        r@ == author_line_of(post@),
{
    let mut out = String::new();
    out.append("@");
    match &post.reblog {
        Some(rb) => {
            out.append(handle_prefix(rb.acct.as_str()));
            out.append(" via @");
            out.append(handle_prefix(post.acct.as_str()));
        },
        None => {
            out.append(handle_prefix(post.acct.as_str()));
        },
    }
    out
}

// ---------------------------------------------------------------------------
// The body text
// ---------------------------------------------------------------------------

/// A media attachment's description, or the fixed placeholder.
pub open spec fn alt_text_of(alt: Option<Seq<char>>) -> Seq<char> {
    match alt {
        Some(d) => d,
        None => "No Alt Text"@,
    }
}

/// The line appended for one media attachment.
pub open spec fn img_line(m: MediaItemV) -> Seq<char> {
    "\n[img] (Alt Text: "@ + alt_text_of(m.alt_text) + ")"@
}

/// The lines appended for a list of media attachments, in order.
pub open spec fn img_lines(ms: Seq<MediaItemV>) -> Seq<char>
    decreases ms.len(),
{
    if ms.len() == 0 {
        Seq::empty()
    } else {
        img_lines(ms.drop_last()) + img_line(ms.last())
    }
}

/// The line appended for a link-preview card, if one is present. A card
/// with an empty description gets the fixed placeholder.
pub open spec fn card_line(card: Option<Seq<char>>) -> Seq<char> {
    match card {
        None => Seq::empty(),
        Some(d) => if d.len() == 0 {
            "\n[media] (Alt Text: No Alt Text)"@
        } else {
            "\n[media] (Alt Text: "@ + d + ")"@
        },
    }
}

/// A boost shows the boosted post's text; an original shows its own.
pub open spec fn base_text_of(p: PostV) -> Seq<char> {
    match p.reblog {
        Some(rb) => rb.body,
        None => p.body,
    }
}

/// The post's own attachments, then the boosted post's.
pub open spec fn all_media_of(p: PostV) -> Seq<MediaItemV> {
    p.media + match p.reblog {
        Some(rb) => rb.media,
        None => Seq::empty(),
    }
}

/// The full device-facing body text of a post.
pub open spec fn rendered_body_of(p: PostV) -> Seq<char> {
    base_text_of(p) + img_lines(all_media_of(p)) + card_line(p.card_description)
}

/// Append the attachment lines for `media` to `out`.
fn append_img_lines(out: &mut String, media: &Vec<MediaItem>)
    ensures
        final(out)@ == old(out)@ + img_lines(media@.map_values(|m: MediaItem| m@)),
{
    let ghost ms = media@.map_values(|m: MediaItem| m@);
    let ghost out0 = out@;
    let n = media.len();
    for i in 0..n
        invariant
            n == media@.len(),
            ms == media@.map_values(|m: MediaItem| m@),
            out@ == out0 + img_lines(ms.take(i as int)),
    {
        out.append("\n[img] (Alt Text: ");
        match &media[i].alt_text {
            Some(d) => out.append(d.as_str()),
            None => out.append("No Alt Text"),
        }
        out.append(")");
        proof {
            assert(ms.take(i + 1).drop_last() =~= ms.take(i as int));
            assert(ms.take(i + 1).last() == ms[i as int]);
            assert(out@ =~= out0 + img_lines(ms.take(i + 1)));
        }
    }
    proof {
        assert(ms.take(n as int) =~= ms);
    }
}

/// Build the device-facing body text of a post.
pub fn render_body(post: &Post) -> (r: String)
    ensures
        r@ == rendered_body_of(post@),
{
    let mut out = String::new();
    match &post.reblog {
        Some(rb) => out.append(rb.body.as_str()),
        None => out.append(post.body.as_str()),
    }
    let ghost base_and_media = base_text_of(post@) + img_lines(all_media_of(post@));
    append_img_lines(&mut out, &post.media);
    match &post.reblog {
        Some(rb) => {
            append_img_lines(&mut out, &rb.media);
            proof {
                lemma_img_lines_concat(
                    post@.media,
                    rb@.media,
                );
                assert(out@ =~= base_and_media);
            }
        },
        None => {
            proof {
                assert(all_media_of(post@) =~= post@.media);
                assert(out@ =~= base_and_media);
            }
        },
    }
    match &post.card_description {
        Some(d) => {
            if d.as_str().unicode_len() == 0 {
                out.append("\n[media] (Alt Text: No Alt Text)");
            } else {
                out.append("\n[media] (Alt Text: ");
                out.append(d.as_str());
                out.append(")");
            }
        },
        None => {},
    }
    proof {
        assert(out@ =~= rendered_body_of(post@));
    }
    out
}

/// Attachment lines of a concatenation are the concatenated lines.
proof fn lemma_img_lines_concat(a: Seq<MediaItemV>, b: Seq<MediaItemV>)
    ensures
        img_lines(a + b) == img_lines(a) + img_lines(b),
    decreases b.len(),
{
    if b.len() == 0 {
        assert(a + b =~= a);
        assert(img_lines(a) + img_lines(b) =~= img_lines(a));
    } else {
        lemma_img_lines_concat(a, b.drop_last());
        assert((a + b).drop_last() =~= a + b.drop_last());
        assert((a + b).last() == b.last());
        assert(img_lines(a) + img_lines(b) =~= (img_lines(a) + img_lines(b.drop_last()))
            + img_line(b.last()));
    }
}

/// Render a post to its author line and body text.
pub fn parsed_toot(status: &Post) -> (r: (String, String))
    ensures
        r.0@ == author_line_of(status@),
        r.1@ == rendered_body_of(status@),
{
    (author_line(status), render_body(status))
}

} // verus!
