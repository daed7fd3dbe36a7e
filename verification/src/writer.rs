//! Decoding the handheld's pending writes and planning the server actions
//! they stand for.
//!
//! The device stores positional indices, not server ids; each index is
//! resolved against the snapshot saved by the previous sync. An index out
//! of range means the cache and the device disagree, and the writes phase
//! fails rather than guess.
use vstd::prelude::*;
use vstd::string::StringExecFns;

use crate::codec::{write_dec, OnDevice, TootWrite, TootWriteV};
use crate::layout::ids_view;
use crate::transcode::{from_latin_1, latin1_chars};
use crate::SyncError;

verus! {

/// One call against the Mastodon server.
#[derive(Debug, Clone)]
pub enum MastodonAction {
    /// Favourite the post with this server id.
    Favourite { id: String },
    /// Boost the post with this server id.
    Reblog { id: String },
    /// Publish a status, optionally as a reply to a server id.
    Post { content: String, in_reply_to: Option<String> },
}

pub ghost enum MastodonActionV {
    Favourite { id: Seq<char> },
    Reblog { id: Seq<char> },
    Post { content: Seq<char>, in_reply_to: Option<Seq<char>> },
}

impl View for MastodonAction {
    type V = MastodonActionV;

    open spec fn view(&self) -> MastodonActionV {
        match self {
            MastodonAction::Favourite { id } => MastodonActionV::Favourite { id: id@ },
            MastodonAction::Reblog { id } => MastodonActionV::Reblog { id: id@ },
            MastodonAction::Post { content, in_reply_to } => MastodonActionV::Post {
                content: content@,
                in_reply_to: match in_reply_to {
                    Some(s) => Some(s@),
                    None => None,
                },
            },
        }
    }
}

/// Decode every write record; the first malformed one fails the batch.
pub fn parse_writes(raw_device_data: &Vec<Vec<u8>>) -> (r: Result<Vec<TootWrite>, SyncError>)
    ensures
        match r {
            Ok(ws) => ws@.len() == raw_device_data@.len() && (forall|i: int|
                0 <= i < ws@.len() ==> write_dec(raw_device_data@[i]@) == Some(ws@[i]@)),
            Err(e) => e == SyncError::MalformedRecord && (exists|i: int|
                0 <= i < raw_device_data@.len() && write_dec(raw_device_data@[i]@) is None),
        },
{
    let mut out: Vec<TootWrite> = Vec::new();
    let n = raw_device_data.len();
    for i in 0..n
        invariant
            n == raw_device_data@.len(),
            out@.len() == i,
            forall|j: int| 0 <= j < i ==> write_dec(raw_device_data@[j]@) == Some(out@[j]@),
    {
        match TootWrite::from_hh_bytes(raw_device_data[i].as_slice()) {
            Ok(w) => out.push(w),
            Err(e) => {
                return Err(e);
            },
        }
    }
    Ok(out)
}

/// The action one write stands for, against a snapshot of post ids.
pub open spec fn plan_one(w: TootWriteV, snap: Seq<Seq<char>>) -> Result<
    Option<MastodonActionV>,
    SyncError,
> {
    match w {
        TootWriteV::Favorite(i) => if i < snap.len() {
            Ok(Some(MastodonActionV::Favourite { id: snap[i as int] }))
        } else {
            Err(SyncError::CacheInconsistent)
        },
        TootWriteV::Follow(_) => Ok(None),
        TootWriteV::Reblog(i) => if i < snap.len() {
            Ok(Some(MastodonActionV::Reblog { id: snap[i as int] }))
        } else {
            Err(SyncError::CacheInconsistent)
        },
        TootWriteV::Toot(c) => if c.is_reply_to == 0 {
            Ok(Some(MastodonActionV::Post { content: latin1_chars(c.contents), in_reply_to: None }))
        } else if c.is_reply_to - 1 < snap.len() {
            Ok(Some(MastodonActionV::Post {
                content: latin1_chars(c.contents),
                in_reply_to: Some(snap[c.is_reply_to - 1]),
            }))
        } else {
            Err(SyncError::CacheInconsistent)
        },
    }
}

/// Resolve one write against the snapshot. `Ok(None)` means the write is
/// accepted but asks for nothing (a follow). An index past the snapshot
/// fails with `CacheInconsistent`.
pub fn plan_single_write(write: &TootWrite, snapshot: &Vec<String>) -> (r: Result<
    Option<MastodonAction>,
    SyncError,
>)
    ensures
        match plan_one(write@, ids_view(snapshot@)) {
            Ok(Some(av)) => r matches Ok(x) && x matches Some(a) && a@ == av,
            Ok(None) => r matches Ok(x) && x is None,
            Err(e) => r matches Err(e2) && e2 == e,
        },
{
    match write {
        TootWrite::Favorite(i) => {
            let i = *i as usize;
            if i < snapshot.len() {
                Ok(Some(MastodonAction::Favourite { id: copy_id(&snapshot[i]) }))
            } else {
                Err(SyncError::CacheInconsistent)
            }
        },
        TootWrite::Follow(_) => Ok(None),
        TootWrite::Reblog(i) => {
            let i = *i as usize;
            if i < snapshot.len() {
                Ok(Some(MastodonAction::Reblog { id: copy_id(&snapshot[i]) }))
            } else {
                Err(SyncError::CacheInconsistent)
            }
        },
        TootWrite::Toot(c) => {
            let content = from_latin_1(c.contents.as_slice());
            if c.is_reply_to == 0 {
                Ok(Some(MastodonAction::Post { content, in_reply_to: None }))
            } else {
                let parent = (c.is_reply_to - 1) as usize;
                if parent < snapshot.len() {
                    Ok(Some(MastodonAction::Post {
                        content,
                        in_reply_to: Some(copy_id(&snapshot[parent])),
                    }))
                } else {
                    Err(SyncError::CacheInconsistent)
                }
            }
        },
    }
}

/// A fresh string with the same characters.
fn copy_id(s: &String) -> (r: String)
    ensures
        r@ == s@,
{
    String::from_str(s.as_str())
}

/// The actions of a whole batch, in order; follows contribute none. The
/// first failing write fails the batch.
pub open spec fn plan_all(ws: Seq<TootWriteV>, snap: Seq<Seq<char>>) -> Result<
    Seq<MastodonActionV>,
    SyncError,
>
    decreases ws.len(),
{
    if ws.len() == 0 {
        Ok(Seq::empty())
    } else {
        match plan_all(ws.drop_last(), snap) {
            Ok(acts) => match plan_one(ws.last(), snap) {
                Ok(Some(a)) => Ok(acts.push(a)),
                Ok(None) => Ok(acts),
                Err(e) => Err(e),
            },
            Err(e) => Err(e),
        }
    }
}

/// A batch that fails somewhere fails however far it is extended.
proof fn lemma_plan_all_err_stays(ws: Seq<TootWriteV>, snap: Seq<Seq<char>>, j: int)
    requires
        0 <= j <= ws.len(),
        plan_all(ws.take(j), snap) is Err,
    ensures
        plan_all(ws, snap) == plan_all(ws.take(j), snap),
    decreases ws.len() - j,
{
    if j == ws.len() {
        assert(ws.take(j) =~= ws);
    } else {
        assert(ws.take(j + 1).drop_last() =~= ws.take(j));
        assert(ws.take(j + 1).last() == ws[j]);
        lemma_plan_all_err_stays(ws, snap, j + 1);
    }
}

/// Views of a write batch.
pub open spec fn writes_view(ws: Seq<TootWrite>) -> Seq<TootWriteV> {
    ws.map_values(|w: TootWrite| w@)
}

/// Views of an action list.
pub open spec fn actions_view(acts: Seq<MastodonAction>) -> Seq<MastodonActionV> {
    acts.map_values(|a: MastodonAction| a@)
}

/// Resolve a whole batch of writes against the snapshot, in order.
pub fn plan_writes(writes: &Vec<TootWrite>, snapshot: &Vec<String>) -> (r: Result<
    Vec<MastodonAction>,
    SyncError,
>)
    ensures
        match plan_all(writes_view(writes@), ids_view(snapshot@)) {
            Ok(pv) => r matches Ok(acts) && actions_view(acts@) == pv,
            Err(e) => r matches Err(e2) && e2 == e,
        },
{
    let ghost ws = writes_view(writes@);
    let ghost snap = ids_view(snapshot@);
    let mut out: Vec<MastodonAction> = Vec::new();
    proof {
        assert(ws.take(0) =~= Seq::<TootWriteV>::empty());
        assert(actions_view(out@) =~= Seq::<MastodonActionV>::empty());
    }
    let n = writes.len();
    for i in 0..n
        invariant
            n == writes@.len(),
            ws == writes_view(writes@),
            snap == ids_view(snapshot@),
            plan_all(ws.take(i as int), snap) == Ok::<Seq<MastodonActionV>, SyncError>(
                actions_view(out@)),
    {
        proof {
            assert(ws.take(i + 1).drop_last() =~= ws.take(i as int));
            assert(ws.take(i + 1).last() == ws[i as int]);
        }
        let ghost prev = out@;
        match plan_single_write(&writes[i], snapshot) {
            Ok(Some(a)) => {
                out.push(a);
                proof {
                    assert(actions_view(out@) =~= actions_view(prev).push(out@.last()@));
                }
            },
            Ok(None) => {},
            Err(e) => {
                proof {
                    lemma_plan_all_err_stays(ws, snap, i + 1);
                }
                return Err(e);
            },
        }
    }
    proof {
        assert(ws.take(n as int) =~= ws);
    }
    Ok(out)
}

/// Cache/write correlation: a favorite of index `i` arriving with the next
/// sync resolves to the id of exactly the post whose rendering stood at
/// Content-DB position `i`, and likewise for a boost.
pub proof fn lemma_cache_write_correlation(
    cv: Seq<crate::codec::TootContentV>,
    tv: Seq<Seq<u8>>,
    idv: Seq<Seq<char>>,
    feedv: Seq<crate::post::PostV>,
    selfv: Seq<crate::post::PostV>,
    repv: Seq<Seq<crate::post::PostV>>,
    i: int,
)
    requires
        crate::layout::layout_ok(cv, tv, feedv, selfv, repv),
        crate::layout::snapshot_ok(idv, feedv, selfv, repv),
        crate::layout::post_count(feedv, selfv, repv) <= 0xffff,
        0 <= i < cv.len(),
    ensures
        ({
            let p = crate::layout::post_at(feedv, selfv, repv, i);
            &&& plan_one(TootWriteV::Favorite(i as u16), idv) == Ok::<
                Option<MastodonActionV>,
                SyncError,
            >(Some(MastodonActionV::Favourite { id: p.id }))
            &&& plan_one(TootWriteV::Reblog(i as u16), idv) == Ok::<
                Option<MastodonActionV>,
                SyncError,
            >(Some(MastodonActionV::Reblog { id: p.id }))
            &&& cv[i].contents == crate::transcode::latin1_bytes(
                crate::render::rendered_body_of(p),
            )
        }),
{
    let p = crate::layout::post_at(feedv, selfv, repv, i);
    crate::layout::lemma_record_matches(cv[i], tv, p);
    assert((i as u16) as int == i);
    assert(idv[i] == p.id);
}

} // verus!
