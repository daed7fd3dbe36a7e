//! The paging state machine behind the timeline downloads.
//!
//! The surrounding program performs each HTTP request and hands the
//! outcome back as an event; the pager decides what to do next. A
//! rate-limited response never advances the state, so a retry after the
//! prescribed sleep resumes exactly where it stood. Reply posts are
//! filtered out of the home feed after each page; an empty page ends the
//! download early.
use vstd::prelude::*;

use crate::layout::posts_view;
use crate::post::{Post, PostV};

verus! {

/// What the server answered to one request.
#[derive(Debug)]
pub enum FetchEvent {
    /// A page of posts, possibly empty.
    Page(Vec<Post>),
    /// HTTP 429: too many requests.
    RateLimited,
    /// Any other failure.
    Failed,
}

pub ghost enum FetchEventV {
    Page(Seq<PostV>),
    RateLimited,
    Failed,
}

impl View for FetchEvent {
    type V = FetchEventV;

    open spec fn view(&self) -> FetchEventV {
        match self {
            FetchEvent::Page(posts) => FetchEventV::Page(posts_view(posts@)),
            FetchEvent::RateLimited => FetchEventV::RateLimited,
            FetchEvent::Failed => FetchEventV::Failed,
        }
    }
}

/// What the surrounding program should do next.
#[derive(Debug, Clone, Copy, PartialEq, Eq, Structural)]
pub enum FetchAction {
    /// Request the next page, asking for at most `limit` posts, paging
    /// past the last accumulated post's id.
    Request { limit: usize },
    /// Sleep 100 ms, then repeat the same request.
    Sleep100Retry,
    /// The download is complete.
    Finished,
    /// Give up on this sync.
    Abort,
}

/// Accumulates one timeline download.
#[derive(Debug)]
pub struct Pager {
    /// How many posts to accumulate at most.
    pub target: usize,
    /// Whether reply posts are dropped from each page (the home feed
    /// suppresses them).
    pub filter_replies: bool,
    /// The posts accumulated so far, in server order.
    pub posts: Vec<Post>,
    /// Whether the server has answered with an empty page.
    pub done: bool,
}

pub ghost struct PagerV {
    pub target: usize,
    pub filter_replies: bool,
    pub posts: Seq<PostV>,
    pub done: bool,
}

impl View for Pager {
    type V = PagerV;

    open spec fn view(&self) -> PagerV {
        PagerV {
            target: self.target,
            filter_replies: self.filter_replies,
            posts: posts_view(self.posts@),
            done: self.done,
        }
    }
}

/// The posts of a page that the pager keeps.
pub open spec fn kept(page: Seq<PostV>, filter: bool) -> Seq<PostV>
    decreases page.len(),
{
    if page.len() == 0 {
        Seq::empty()
    } else if !filter || !page.last().is_reply {
        kept(page.drop_last(), filter).push(page.last())
    } else {
        kept(page.drop_last(), filter)
    }
}

/// Accumulated posts never exceed the target; a page longer than asked
/// for is clipped.
pub open spec fn clip_posts(s: Seq<PostV>, target: usize) -> Seq<PostV> {
    if s.len() > target {
        s.take(target as int)
    } else {
        s
    }
}

/// The pager's transition: next state and next action for one event.
pub open spec fn spec_step(s: PagerV, e: FetchEventV) -> (PagerV, FetchAction) {
    match e {
        FetchEventV::RateLimited => (s, FetchAction::Sleep100Retry),
        FetchEventV::Failed => (s, FetchAction::Abort),
        FetchEventV::Page(page) => {
            let posts2 = clip_posts(s.posts + kept(page, s.filter_replies), s.target);
            let done2 = s.done || page.len() == 0;
            let s2 = PagerV { posts: posts2, done: done2, ..s };
            let a = if done2 || posts2.len() == s.target {
                FetchAction::Finished
            } else {
                FetchAction::Request { limit: (s.target - posts2.len()) as usize }
            };
            (s2, a)
        },
    }
}

/// A 429 answered with the prescribed sleep-and-retry leaves the download
/// exactly where it stood: the final result is the one an untroubled
/// download would have produced.
pub proof fn lemma_rate_limit_idempotent(s: PagerV, e: FetchEventV)
    ensures
        spec_step(spec_step(s, FetchEventV::RateLimited).0, e) == spec_step(s, e),
{
}

impl Pager {
    /// A fresh download of up to `target` posts.
    pub fn new(target: usize, filter_replies: bool) -> (r: Pager)
        ensures
            r@.target == target,
            r@.filter_replies == filter_replies,
            r@.posts =~= Seq::<PostV>::empty(),
            !r@.done,
    {
        Pager { target, filter_replies, posts: Vec::new(), done: false }
    }

    /// Whether another request is due.
    pub fn needs_more(&self) -> (r: bool)
        ensures
            r == (!self@.done && self@.posts.len() != self@.target),
    {
        !self.done && self.posts.len() != self.target
    }

    /// The id to page past: the last accumulated post's, if any.
    pub fn last_id(&self) -> (r: Option<&String>)
        ensures
            match r {
                Some(id) => self@.posts.len() > 0 && id@ == self@.posts.last().id,
                None => self@.posts.len() == 0,
            },
    {
        if self.posts.len() == 0 {
            None
        } else {
            Some(&self.posts[self.posts.len() - 1].id)
        }
    }

    /// Feed one server answer into the pager and learn what to do next.
    pub fn handle_event(&mut self, e: FetchEvent) -> (a: FetchAction)
        ensures
            final(self)@ == spec_step(old(self)@, e@).0,
            a == spec_step(old(self)@, e@).1,
    {
        match e {
            FetchEvent::RateLimited => FetchAction::Sleep100Retry,
            FetchEvent::Failed => FetchAction::Abort,
            FetchEvent::Page(page) => {
                let ghost page0 = posts_view(page@);
                let ghost posts0 = self@.posts;
                let raw_len = page.len();
                let mut page = page;
                proof {
                    assert(page0.take(0) =~= Seq::<PostV>::empty());
                    assert(posts0 + kept(page0.take(0), self@.filter_replies) =~= posts0);
                }
                let n = page.len();
                for j in 0..n
                    invariant
                        n == page0.len(),
                        page@.len() == n - j,
                        posts_view(page@) =~= page0.skip(j as int),
                        self.target == old(self).target,
                        self.filter_replies == old(self).filter_replies,
                        self.done == old(self).done,
                        posts_view(self.posts@) == posts0 + kept(page0.take(j as int),
                            self@.filter_replies),
                {
                    let ghost prevpage = page@;
                    let p = page.remove(0);
                    proof {
                        assert(posts_view(prevpage)[0] == page0.skip(j as int)[0]);
                        assert(page0.skip(j as int)[0] == page0[j as int]);
                        assert(p@ == page0[j as int]);
                        assert forall|i2: int| 0 <= i2 < page@.len() implies posts_view(
                            page@)[i2] == page0.skip(j + 1)[i2] by {
                            assert(posts_view(page@)[i2] == prevpage[i2 + 1]@);
                            assert(posts_view(prevpage)[i2 + 1] == page0.skip(j as int)[i2 + 1]);
                            assert(page0.skip(j as int)[i2 + 1] == page0[j + 1 + i2]);
                            assert(page0.skip(j + 1)[i2] == page0[j + 1 + i2]);
                        }
                        assert(posts_view(page@) =~= page0.skip(j + 1));
                        assert(page0.take(j + 1).drop_last() =~= page0.take(j as int));
                        assert(page0.take(j + 1).last() == page0[j as int]);
                    }
                    if !self.filter_replies || !p.is_reply {
                        let ghost before = self.posts@;
                        self.posts.push(p);
                        proof {
                            assert(posts_view(self.posts@) =~= posts_view(before).push(
                                page0[j as int]));
                        }
                    }
                }
                proof {
                    assert(page0.take(n as int) =~= page0);
                }
                if self.posts.len() > self.target {
                    self.posts.truncate(self.target);
                    proof {
                        assert(posts_view(self.posts@) =~= clip_posts(posts0 + kept(page0,
                            old(self)@.filter_replies), old(self)@.target));
                    }
                }
                if raw_len == 0 {
                    self.done = true;
                }
                if self.done || self.posts.len() == self.target {
                    FetchAction::Finished
                } else {
                    FetchAction::Request { limit: self.target - self.posts.len() }
                }
            },
        }
    }
}

/// Keep at most `max_replies_each` replies of a post's descendants.
pub fn keep_replies(descendants: Vec<Post>, max_replies_each: usize) -> (r: Vec<Post>)
    ensures
        posts_view(r@) == (if posts_view(descendants@).len() > max_replies_each {
            posts_view(descendants@).take(max_replies_each as int)
        } else {
            posts_view(descendants@)
        }),
{
    let mut kept_posts = descendants;
    let ghost before = posts_view(kept_posts@);
    if kept_posts.len() > max_replies_each {
        kept_posts.truncate(max_replies_each);
        proof {
            assert(posts_view(kept_posts@) =~= before.take(max_replies_each as int));
        }
    }
    kept_posts
}

} // verus!
