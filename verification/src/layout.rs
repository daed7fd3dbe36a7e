//! Building the on-device databases for one sync.
//!
//! The Content DB is laid out as three regions in a fixed order: home-feed
//! posts, the account's own posts, then one reply block per top-level post,
//! blocks in the same order as their parents. The Author DB holds the
//! distinct author records, sorted bytewise so that the indices stored in
//! content records are reproducible across runs.
use vstd::prelude::*;
use vstd::slice::slice_to_vec;
use vstd::string::StringExecFns;

use crate::codec::{HeffalumpPrefs, TootAuthor, TootContent, TootContentV};
use crate::post::{Post, PostV};
use crate::render::{author_line, author_line_of, render_body, rendered_body_of};
use crate::transcode::{latin1_bytes, latin1_record, to_latin_1};

verus! {

// ---------------------------------------------------------------------------
// Byte-lexicographic order on author records
// ---------------------------------------------------------------------------

/// Strict byte-lexicographic order: a proper prefix comes first, otherwise
/// the first differing byte decides.
pub open spec fn lex_lt(a: Seq<u8>, b: Seq<u8>) -> bool
    decreases a.len(),
{
    if b.len() == 0 {
        false
    } else if a.len() == 0 {
        true
    } else if a[0] < b[0] {
        true
    } else if a[0] > b[0] {
        false
    } else {
        lex_lt(a.skip(1), b.skip(1))
    }
}

pub open spec fn sorted_strict(t: Seq<Seq<u8>>) -> bool {
    forall|i: int, j: int| 0 <= i < j < t.len() ==> lex_lt(t[i], t[j])
}

pub proof fn lemma_lex_irrefl(a: Seq<u8>)
    ensures
        !lex_lt(a, a),
    decreases a.len(),
{
    if a.len() > 0 {
        lemma_lex_irrefl(a.skip(1));
    }
}

pub proof fn lemma_lex_total(a: Seq<u8>, b: Seq<u8>)
    ensures
        lex_lt(a, b) || lex_lt(b, a) || a == b,
    decreases a.len(),
{
    if a.len() == 0 && b.len() == 0 {
        assert(a =~= b);
    } else if a.len() > 0 && b.len() > 0 && a[0] == b[0] {
        lemma_lex_total(a.skip(1), b.skip(1));
        if !lex_lt(a, b) && !lex_lt(b, a) {
            assert(a =~= seq![a[0]] + a.skip(1));
            assert(b =~= seq![b[0]] + b.skip(1));
        }
    }
}

pub proof fn lemma_lex_asym(a: Seq<u8>, b: Seq<u8>)
    ensures
        lex_lt(a, b) ==> !lex_lt(b, a),
    decreases a.len(),
{
    if a.len() > 0 && b.len() > 0 && a[0] == b[0] {
        lemma_lex_asym(a.skip(1), b.skip(1));
    }
}

pub proof fn lemma_lex_trans(a: Seq<u8>, b: Seq<u8>, c: Seq<u8>)
    ensures
        lex_lt(a, b) && lex_lt(b, c) ==> lex_lt(a, c),
    decreases a.len(),
{
    if a.len() > 0 && b.len() > 0 && c.len() > 0 {
        lemma_lex_trans(a.skip(1), b.skip(1), c.skip(1));
    }
}

/// Dropping an equal prefix does not change the order.
proof fn lemma_lex_skip(a: Seq<u8>, b: Seq<u8>, i: int)
    requires
        0 <= i <= a.len(),
        i <= b.len(),
        forall|j: int| 0 <= j < i ==> a[j] == b[j],
    ensures
        lex_lt(a, b) == lex_lt(a.skip(i), b.skip(i)),
    decreases i,
{
    if i == 0 {
        assert(a.skip(0) =~= a);
        assert(b.skip(0) =~= b);
    } else {
        assert(forall|j: int| 0 <= j < i - 1 ==> a.skip(1)[j] == a[j + 1]);
        assert(forall|j: int| 0 <= j < i - 1 ==> b.skip(1)[j] == b[j + 1]);
        lemma_lex_skip(a.skip(1), b.skip(1), i - 1);
        assert(a.skip(1).skip(i - 1) =~= a.skip(i));
        assert(b.skip(1).skip(i - 1) =~= b.skip(i));
    }
}

/// Compare two byte vectors in the strict lexicographic order.
fn lex_lt_bytes(a: &Vec<u8>, b: &Vec<u8>) -> (r: bool)
    ensures
        r == lex_lt(a@, b@),
{
    let n = if a.len() < b.len() {
        a.len()
    } else {
        b.len()
    };
    for i in 0..n
        invariant
            n <= a@.len(),
            n <= b@.len(),
            n == if a@.len() < b@.len() { a@.len() } else { b@.len() },
            forall|j: int| 0 <= j < i ==> a@[j] == b@[j],
    {
        if a[i] < b[i] {
            proof {
                lemma_lex_skip(a@, b@, i as int);
            }
            return true;
        }
        if a[i] > b[i] {
            proof {
                lemma_lex_skip(a@, b@, i as int);
            }
            return false;
        }
    }
    proof {
        lemma_lex_skip(a@, b@, n as int);
    }
    a.len() < b.len()
}

/// Whether two byte vectors hold the same bytes.
fn bytes_eq(a: &Vec<u8>, b: &Vec<u8>) -> (r: bool)
    ensures
        r <==> a@ == b@,
{
    if a.len() != b.len() {
        return false;
    }
    let n = a.len();
    for i in 0..n
        invariant
            n == a@.len(),
            n == b@.len(),
            forall|j: int| 0 <= j < i ==> a@[j] == b@[j],
    {
        if a[i] != b[i] {
            return false;
        }
    }
    proof {
        assert(a@ =~= b@);
    }
    true
}

// ---------------------------------------------------------------------------
// The sorted, duplicate-free author table
// ---------------------------------------------------------------------------

/// The byte views of an author table.
pub open spec fn table_view(t: Seq<TootAuthor>) -> Seq<Seq<u8>> {
    t.map_values(|a: TootAuthor| a@)
}

/// Insert one author record, keeping the table strictly sorted and
/// duplicate-free.
fn insert_author(table: &mut Vec<TootAuthor>, rec: &Vec<u8>)
    requires
        sorted_strict(table_view(old(table)@)),
    ensures
        sorted_strict(table_view(final(table)@)),
        table_view(final(table)@).len() <= table_view(old(table)@).len() + 1,
        forall|x: Seq<u8>|
            table_view(final(table)@).contains(x) <==> table_view(old(table)@).contains(x) || x
                == rec@,
{
    let ghost tv = table_view(table@);
    let n = table.len();
    let mut pos: usize = 0;
    loop
        invariant_except_break
            pos <= n,
            n == table@.len(),
            tv == table_view(table@),
            forall|j: int| 0 <= j < pos ==> lex_lt(tv[j], rec@),
        ensures
            pos <= n,
            n == table@.len(),
            tv == table_view(table@),
            forall|j: int| 0 <= j < pos ==> lex_lt(tv[j], rec@),
            pos < n ==> !lex_lt(tv[pos as int], rec@),
        decreases n - pos,
    {
        if pos == n {
            break;
        }
        if !lex_lt_bytes(&table[pos].author_name, rec) {
            break;
        }
        pos = pos + 1;
    }
    if pos < n {
        if bytes_eq(&table[pos].author_name, rec) {
            proof {
                assert(tv[pos as int] == rec@);
                assert(table_view(table@).contains(rec@));
            }
            return;
        }
    }
    let ghost pi = pos as int;
    table.insert(pos, TootAuthor { author_name: slice_to_vec(rec.as_slice()) });
    proof {
        let tv2 = table_view(table@);
        assert(tv2 =~= tv.insert(pi, rec@));
        // Sortedness: records before `pos` are below `rec`; `rec` is below
        // the record that was at `pos` and, by transitivity, all later ones.
        if pi < tv.len() {
            lemma_lex_total(tv[pi], rec@);
            assert(lex_lt(rec@, tv[pi]));
        }
        assert forall|i: int, j: int| 0 <= i < j < tv2.len() implies lex_lt(tv2[i], tv2[j]) by {
            if i < pi && j == pi {
            } else if i == pi && j > pi {
                lemma_lex_trans(rec@, tv[pi], tv[j - 1]);
            } else if i < pi && j > pi {
            } else {
            }
        }
        assert forall|x: Seq<u8>| tv2.contains(x) implies tv.contains(x) || x == rec@ by {
            let k = choose|k: int| 0 <= k < tv2.len() && tv2[k] == x;
            if k < pi {
                assert(tv[k] == x);
            } else if k > pi {
                assert(tv[k - 1] == x);
            }
        }
        assert forall|x: Seq<u8>| tv.contains(x) || x == rec@ implies tv2.contains(x) by {
            if x == rec@ {
                assert(tv2[pi] == x);
            } else {
                let k = choose|k: int| 0 <= k < tv.len() && tv[k] == x;
                if k < pi {
                    assert(tv2[k] == x);
                } else {
                    assert(tv2[k + 1] == x);
                }
            }
        }
    }
}

// ---------------------------------------------------------------------------
// Where each post stands in the flattened Content DB
// ---------------------------------------------------------------------------

/// The author record of a post: its author line narrowed to ISO-8859-1,
/// clipped to 39 bytes, NUL-terminated.
#[verifier::opaque]
pub open spec fn arec(p: PostV) -> Seq<u8> {
    latin1_record(author_line_of(p), Some(39usize), true)
}

/// An author record is at most 40 bytes.
pub proof fn lemma_arec_len(p: PostV)
    ensures
        arec(p).len() <= 40,
{
    reveal(crate::layout::arec);
}

/// The number of reply records belonging to the first `k` reply blocks.
pub open spec fn prefix_len(repv: Seq<Seq<PostV>>, k: int) -> int
    decreases k,
{
    if k <= 0 {
        0
    } else {
        prefix_len(repv, k - 1) + repv[k - 1].len()
    }
}

/// The number of reply records over all blocks.
pub open spec fn total_replies(repv: Seq<Seq<PostV>>) -> int {
    prefix_len(repv, repv.len() as int)
}

pub proof fn lemma_prefix_len_bounds(repv: Seq<Seq<PostV>>, k: int)
    requires
        0 <= k <= repv.len(),
    ensures
        0 <= prefix_len(repv, k),
        prefix_len(repv, k) <= total_replies(repv),
    decreases repv.len() - k,
{
    lemma_prefix_nonneg(repv, k);
    if k < repv.len() {
        lemma_prefix_len_bounds(repv, k + 1);
    }
}

proof fn lemma_prefix_nonneg(repv: Seq<Seq<PostV>>, k: int)
    ensures
        0 <= prefix_len(repv, k),
    decreases k,
{
    if k > 0 {
        lemma_prefix_nonneg(repv, k - 1);
    }
}

/// The reply record at flattened offset `i`, blocks taken in order.
pub open spec fn reply_at(repv: Seq<Seq<PostV>>, i: int) -> PostV
    decreases repv.len(),
{
    if repv.len() == 0 {
        arbitrary()
    } else if i < repv[0].len() {
        repv[0][i]
    } else {
        reply_at(repv.skip(1), i - repv[0].len())
    }
}

/// Offset `prefix_len(k) + m` lands on `repv[k][m]`.
pub proof fn lemma_reply_at(repv: Seq<Seq<PostV>>, k: int, m: int)
    requires
        0 <= k < repv.len(),
        0 <= m < repv[k].len(),
    ensures
        reply_at(repv, prefix_len(repv, k) + m) == repv[k][m],
    decreases k,
{
    if k == 0 {
        assert(prefix_len(repv, 0) == 0);
    } else {
        let rest = repv.skip(1);
        lemma_prefix_skip(repv, k);
        lemma_prefix_nonneg(rest, k - 1);
        lemma_reply_at(rest, k - 1, m);
        assert(rest[k - 1] == repv[k]);
        assert(prefix_len(repv, k) + m - repv[0].len() == prefix_len(rest, k - 1) + m);
    }
}

/// Prefix counts grow with the block index.
pub proof fn lemma_prefix_monotone(repv: Seq<Seq<PostV>>, a: int, b: int)
    requires
        0 <= a <= b,
    ensures
        prefix_len(repv, a) <= prefix_len(repv, b),
    decreases b,
{
    if a < b {
        lemma_prefix_monotone(repv, a, b - 1);
    }
}

/// Peeling off the first block from a prefix count.
proof fn lemma_prefix_skip(repv: Seq<Seq<PostV>>, k: int)
    requires
        1 <= k <= repv.len(),
    ensures
        prefix_len(repv, k) == repv[0].len() + prefix_len(repv.skip(1), k - 1),
    decreases k,
{
    if k == 1 {
        assert(prefix_len(repv, 1) == prefix_len(repv, 0) + repv[0].len());
        assert(prefix_len(repv.skip(1), 0) == 0);
    } else {
        lemma_prefix_skip(repv, k - 1);
        assert(repv.skip(1)[k - 2] == repv[k - 1]);
        assert(prefix_len(repv, k) == prefix_len(repv, k - 1) + repv[k - 1].len());
        assert(prefix_len(repv.skip(1), k - 1) == prefix_len(repv.skip(1), k - 2) + repv.skip(
            1,
        )[k - 2].len());
    }
}

/// The post whose rendering stands at Content-DB index `i`: first the home
/// feed, then the account's own posts, then the reply blocks in order.
pub open spec fn post_at(feedv: Seq<PostV>, selfv: Seq<PostV>, repv: Seq<Seq<PostV>>, i: int) -> PostV {
    if i < feedv.len() {
        feedv[i]
    } else if i < feedv.len() + selfv.len() {
        selfv[i - feedv.len()]
    } else {
        reply_at(repv, i - feedv.len() - selfv.len())
    }
}

// ---------------------------------------------------------------------------
// Collecting and sorting the author records
// ---------------------------------------------------------------------------

/// Number of posts in one sync: tops plus all replies.
pub open spec fn post_count(feedv: Seq<PostV>, selfv: Seq<PostV>, repv: Seq<Seq<PostV>>) -> int {
    feedv.len() + selfv.len() + total_replies(repv)
}

/// The author record of every post, in Content-DB order.
fn collect_author_recs(feed: &Vec<Post>, selfp: &Vec<Post>, replies: &Vec<Vec<Post>>) -> (recs:
    Vec<Vec<u8>>)
    requires
        replies@.len() == feed@.len() + selfp@.len(),
    ensures
        recs@.len() == post_count(posts_view(feed@), posts_view(selfp@), replies_view(replies@)),
        forall|i: int|
            0 <= i < recs@.len() ==> recs@[i]@ == arec(post_at(posts_view(feed@),
                posts_view(selfp@), replies_view(replies@), i)),
{
    let ghost feedv = posts_view(feed@);
    let ghost selfv = posts_view(selfp@);
    let ghost repv = replies_view(replies@);
    let mut recs: Vec<Vec<u8>> = Vec::new();
    let nf = feed.len();
    for i in 0..nf
        invariant
            nf == feed@.len(),
            feedv == posts_view(feed@),
            recs@.len() == i,
            forall|j: int| 0 <= j < i ==> recs@[j]@ == arec(feedv[j]),
    {
        let line = author_line(&feed[i]);
        recs.push(to_latin_1(line.as_str(), Some(39), true));
        proof {
            reveal(crate::layout::arec);
        }
    }
    let ns = selfp.len();
    for i in 0..ns
        invariant
            nf == feed@.len(),
            ns == selfp@.len(),
            feedv == posts_view(feed@),
            selfv == posts_view(selfp@),
            recs@.len() == nf + i,
            forall|j: int| 0 <= j < nf ==> recs@[j]@ == arec(feedv[j]),
            forall|j: int| 0 <= j < i ==> recs@[nf + j]@ == arec(selfv[j]),
    {
        let line = author_line(&selfp[i]);
        recs.push(to_latin_1(line.as_str(), Some(39), true));
        proof {
            reveal(crate::layout::arec);
        }
    }
    let t = replies.len();
    let nr = replies.len();
    proof {
        assert(t == nf + ns);
    }
    for k in 0..nr
        invariant
            nf == feed@.len(),
            ns == selfp@.len(),
            t == nf + ns,
            nr == replies@.len(),
            nr == t,
            feedv == posts_view(feed@),
            selfv == posts_view(selfp@),
            repv == replies_view(replies@),
            recs@.len() == t + prefix_len(repv, k as int),
            forall|j: int| 0 <= j < nf ==> recs@[j]@ == arec(feedv[j]),
            forall|j: int| 0 <= j < ns ==> recs@[nf + j]@ == arec(selfv[j]),
            forall|j: int| 0 <= j < prefix_len(repv, k as int) ==> recs@[t + j]@ == arec(
                reply_at(repv, j)),
    {
        let block = &replies[k];
        let nb = block.len();
        proof {
            lemma_prefix_nonneg(repv, k as int);
        }
        for m in 0..nb
            invariant
                nf == feed@.len(),
                ns == selfp@.len(),
                t == nf + ns,
                nr == replies@.len(),
                nr == t,
                0 <= k < nr,
                nb == block@.len(),
                block == &replies[k as int],
                0 <= prefix_len(repv, k as int),
                feedv == posts_view(feed@),
                selfv == posts_view(selfp@),
                repv == replies_view(replies@),
                recs@.len() == t + prefix_len(repv, k as int) + m,
                forall|j: int| 0 <= j < nf ==> recs@[j]@ == arec(feedv[j]),
                forall|j: int| 0 <= j < ns ==> recs@[nf + j]@ == arec(selfv[j]),
                forall|j: int| 0 <= j < prefix_len(repv, k as int) + m ==> recs@[t + j]@ == arec(
                    reply_at(repv, j)),
        {
            let line = author_line(&block[m]);
            recs.push(to_latin_1(line.as_str(), Some(39), true));
            proof {
                reveal(crate::layout::arec);
                assert(repv[k as int][m as int] == block@[m as int]@);
                lemma_reply_at(repv, k as int, m as int);
            }
        }
        proof {
            assert(prefix_len(repv, k + 1) == prefix_len(repv, k as int) + repv[k as int].len());
        }
    }
    proof {
        assert forall|i: int| 0 <= i < recs@.len() implies recs@[i]@ == arec(
            post_at(feedv, selfv, repv, i)) by {
            if i >= t {
                lemma_prefix_nonneg(repv, nr as int);
            }
        }
    }
    recs
}

/// Build the sorted, duplicate-free author table from the records.
pub fn author_table_from_recs(recs: &Vec<Vec<u8>>) -> (table: Vec<TootAuthor>)
    ensures
        sorted_strict(table_view(table@)),
        table@.len() <= recs@.len(),
        forall|x: Seq<u8>|
            table_view(table@).contains(x) <==> (exists|i: int|
                0 <= i < recs@.len() && recs@[i]@ == x),
{
    let mut table: Vec<TootAuthor> = Vec::new();
    let n = recs.len();
    for i in 0..n
        invariant
            n == recs@.len(),
            sorted_strict(table_view(table@)),
            table@.len() <= i,
            forall|x: Seq<u8>|
                table_view(table@).contains(x) <==> (exists|j: int|
                    0 <= j < i && recs@[j]@ == x),
    {
        insert_author(&mut table, &recs[i]);
    }
    table
}

// ---------------------------------------------------------------------------
// View helpers
// ---------------------------------------------------------------------------

pub open spec fn posts_view(ps: Seq<Post>) -> Seq<PostV> {
    ps.map_values(|p: Post| p@)
}

pub open spec fn replies_view(rs: Seq<Vec<Post>>) -> Seq<Seq<PostV>> {
    rs.map_values(|r: Vec<Post>| posts_view(r@))
}

pub open spec fn contents_view(cs: Seq<TootContent>) -> Seq<TootContentV> {
    cs.map_values(|c: TootContent| c@)
}

pub open spec fn ids_view(ids: Seq<String>) -> Seq<Seq<char>> {
    ids.map_values(|s: String| s@)
}

// ---------------------------------------------------------------------------
// What a correct build means
// ---------------------------------------------------------------------------

/// A content record carries the rendering of post `p`, and its author index
/// resolves to `p`'s author record in the table.
#[verifier::opaque]
pub open spec fn record_matches(c: TootContentV, tv: Seq<Seq<u8>>, p: PostV) -> bool {
    &&& c.contents == latin1_bytes(rendered_body_of(p))
    &&& (c.author as int) < tv.len()
    &&& tv[c.author as int] == arec(p)
}

/// What `record_matches` says, spelled out.
pub proof fn lemma_record_matches(c: TootContentV, tv: Seq<Seq<u8>>, p: PostV)
    ensures
        record_matches(c, tv, p) <==> (c.contents == latin1_bytes(rendered_body_of(p)) && (
        c.author as int) < tv.len() && tv[c.author as int] == arec(p)),
{
    reveal(crate::layout::record_matches);
}

/// The Content-DB index of reply `m` in block `k`, given the top count.
pub open spec fn reply_pos(tops: int, repv: Seq<Seq<PostV>>, k: int, m: int) -> int {
    tops + prefix_len(repv, k) + m
}

/// The Content DB layout: record `i` renders the post at flattened position
/// `i`; the first `feed + self` records are top-level with their reply-block
/// starts; every later record is a reply, `is_reply_to` holding its parent's
/// position plus one.
pub open spec fn layout_ok(
    cv: Seq<TootContentV>,
    tv: Seq<Seq<u8>>,
    feedv: Seq<PostV>,
    selfv: Seq<PostV>,
    repv: Seq<Seq<PostV>>,
) -> bool {
    let t = feedv.len() + selfv.len();
    &&& cv.len() == post_count(feedv, selfv, repv)
    &&& (forall|i: int|
        0 <= i < cv.len() ==> record_matches(cv[i], tv, post_at(feedv, selfv, repv, i)))
    &&& (forall|k: int| 0 <= k < t ==> cv[k].is_reply_to == 0)
    &&& (forall|k: int|
        0 <= k < t ==> cv[k].replies_start == (if repv[k].len() == 0 {
            0u16
        } else {
            (t + prefix_len(repv, k)) as u16
        }))
    &&& (forall|i: int| t <= i < cv.len() ==> cv[i].is_reply_to > 0 && cv[i].replies_start == 0)
    &&& (forall|k: int, m: int|
        0 <= k < repv.len() && 0 <= m < repv[k].len() ==> cv[#[trigger] reply_pos(t as int, repv,
            k, m)].is_reply_to == k + 1)
}

/// The snapshot id list lines up with the Content DB position for position.
pub open spec fn snapshot_ok(
    idv: Seq<Seq<char>>,
    feedv: Seq<PostV>,
    selfv: Seq<PostV>,
    repv: Seq<Seq<PostV>>,
) -> bool {
    &&& idv.len() == post_count(feedv, selfv, repv)
    &&& (forall|i: int| 0 <= i < idv.len() ==> idv[i] == post_at(feedv, selfv, repv, i).id)
}

/// The author table holds exactly the author records of the sync's posts.
pub open spec fn table_complete(
    tv: Seq<Seq<u8>>,
    feedv: Seq<PostV>,
    selfv: Seq<PostV>,
    repv: Seq<Seq<PostV>>,
) -> bool {
    forall|x: Seq<u8>|
        tv.contains(x) <==> (exists|i: int|
            0 <= i < post_count(feedv, selfv, repv) && arec(post_at(feedv, selfv, repv, i)) == x)
}

/// Index of `rec` in the table.
fn find_author(table: &Vec<TootAuthor>, rec: &Vec<u8>) -> (idx: usize)
    requires
        table_view(table@).contains(rec@),
    ensures
        idx < table@.len(),
        table@[idx as int]@ == rec@,
{
    let n = table.len();
    for i in 0..n
        invariant
            n == table@.len(),
            table_view(table@).contains(rec@),
            forall|j: int| 0 <= j < i ==> table@[j]@ != rec@,
    {
        if bytes_eq(&table[i].author_name, rec) {
            return i;
        }
    }
    proof {
        let k = choose|k: int| 0 <= k < table_view(table@).len() && table_view(table@)[k] == rec@;
        assert(table@[k]@ == rec@);
        assert(false);
    }
    0
}

/// A fresh string with the same characters.
fn copy_string(s: &String) -> (r: String)
    ensures
        r@ == s@,
{
    String::from_str(s.as_str())
}

// ---------------------------------------------------------------------------
// Building everything for one sync
// ---------------------------------------------------------------------------

/// Everything one sync installs on the device, plus the snapshot ids that
/// the next sync's writes will be resolved against.
pub struct SyncBuild {
    /// The Author DB records, sorted bytewise, duplicate-free.
    pub authors: Vec<TootAuthor>,
    /// The Content DB records, in region order.
    pub contents: Vec<TootContent>,
    /// How the device should segment the Content DB.
    pub prefs: HeffalumpPrefs,
    /// Server-side post ids, position for position with `contents`.
    pub snapshot_ids: Vec<String>,
}

/// Build the sorted, duplicate-free Author DB for one sync.
pub fn build_author_table(feed: &Vec<Post>, selfp: &Vec<Post>, replies: &Vec<Vec<Post>>) -> (table:
    Vec<TootAuthor>)
    requires
        replies@.len() == feed@.len() + selfp@.len(),
    ensures
        sorted_strict(table_view(table@)),
        table_complete(table_view(table@), posts_view(feed@), posts_view(selfp@),
            replies_view(replies@)),
        table@.len() <= post_count(posts_view(feed@), posts_view(selfp@), replies_view(replies@)),
        forall|k: int| 0 <= k < table@.len() ==> table_view(table@)[k].len() <= 40,
{
    let ghost feedv = posts_view(feed@);
    let ghost selfv = posts_view(selfp@);
    let ghost repv = replies_view(replies@);
    let ghost pc = post_count(feedv, selfv, repv);
    let recs = collect_author_recs(feed, selfp, replies);
    let table = author_table_from_recs(&recs);
    let ghost tv = table_view(table@);
    proof {
        assert forall|x: Seq<u8>| tv.contains(x) implies (exists|i: int|
            0 <= i < pc && arec(post_at(feedv, selfv, repv, i)) == x) by {
            let i = choose|i: int| 0 <= i < recs@.len() && recs@[i]@ == x;
            assert(recs@[i]@ == arec(post_at(feedv, selfv, repv, i)));
        }
        assert forall|x: Seq<u8>| (exists|i: int|
            0 <= i < pc && arec(post_at(feedv, selfv, repv, i)) == x) implies tv.contains(x) by {
            let i = choose|i: int| 0 <= i < pc && arec(post_at(feedv, selfv, repv, i)) == x;
            assert(recs@[i]@ == x);
        }
        assert forall|k: int| 0 <= k < tv.len() implies tv[k].len() <= 40 by {
            assert(tv.contains(tv[k]));
            let i = choose|i: int| 0 <= i < pc && arec(post_at(feedv, selfv, repv, i)) == tv[k];
            lemma_arec_len(post_at(feedv, selfv, repv, i));
        }
    }
    table
}

/// Common demands on the inputs of one sync build.
pub open spec fn build_input_ok(feed: Seq<Post>, selfp: Seq<Post>, replies: Seq<Vec<Post>>) -> bool {
    &&& replies.len() == feed.len() + selfp.len()
    &&& post_count(posts_view(feed), posts_view(selfp), replies_view(replies)) <= 0xffff
}

/// Facts that hold of the records built so far, however far the reply
/// region has come.
pub open spec fn region_facts(
    cv: Seq<TootContentV>,
    idv: Seq<Seq<char>>,
    tv: Seq<Seq<u8>>,
    feedv: Seq<PostV>,
    selfv: Seq<PostV>,
    repv: Seq<Seq<PostV>>,
) -> bool {
    let t = feedv.len() + selfv.len();
    &&& idv.len() == cv.len()
    &&& cv.len() >= t
    &&& (forall|i: int|
        0 <= i < cv.len() ==> record_matches(cv[i], tv, post_at(feedv, selfv, repv, i)))
    &&& (forall|i: int| 0 <= i < t ==> cv[i].is_reply_to == 0)
    &&& (forall|i: int|
        0 <= i < t ==> cv[i].replies_start == (if repv[i].len() == 0 {
            0u16
        } else {
            (t + prefix_len(repv, i)) as u16
        }))
    &&& (forall|i: int| t <= i < cv.len() ==> cv[i].is_reply_to > 0 && cv[i].replies_start == 0)
    &&& (forall|i: int| 0 <= i < idv.len() ==> idv[i] == post_at(feedv, selfv, repv, i).id)
}

/// The first `k` reply blocks carry their parents' positions plus one.
pub open spec fn blocks_done(cv: Seq<TootContentV>, t: int, repv: Seq<Seq<PostV>>, k: int) -> bool {
    forall|k2: int, m2: int|
        0 <= k2 < k && 0 <= m2 < repv[k2].len() ==> cv[#[trigger] reply_pos(t, repv, k2,
            m2)].is_reply_to == k2 + 1
}

/// The top-level regions: the home feed, then the account's own posts.
#[verifier::loop_isolation(false)]
#[verifier::rlimit(60)]
fn build_tops(
    feed: &Vec<Post>,
    selfp: &Vec<Post>,
    replies: &Vec<Vec<Post>>,
    table: &Vec<TootAuthor>,
) -> (r: (Vec<TootContent>, Vec<String>))
    requires
        build_input_ok(feed@, selfp@, replies@),
        table_complete(table_view(table@), posts_view(feed@), posts_view(selfp@),
            replies_view(replies@)),
        table@.len() <= 0xffff,
    ensures
        r.0@.len() == replies@.len(),
        region_facts(contents_view(r.0@), ids_view(r.1@), table_view(table@), posts_view(feed@),
            posts_view(selfp@), replies_view(replies@)),
{
    let ghost feedv = posts_view(feed@);
    let ghost selfv = posts_view(selfp@);
    let ghost repv = replies_view(replies@);
    let ghost tv = table_view(table@);
    proof {
        lemma_prefix_len_bounds(repv, repv.len() as int);
    }
    let nf = feed.len();
    let t = replies.len();
    let mut contents: Vec<TootContent> = Vec::new();
    let mut ids: Vec<String> = Vec::new();
    let mut start: usize = t;
    for k in 0..t
        invariant
            contents@.len() == k,
            ids@.len() == k,
            start == t + prefix_len(repv, k as int),
            start <= 0xffff,
            forall|i: int|
                0 <= i < k ==> record_matches(contents_view(contents@)[i], tv,
                    post_at(feedv, selfv, repv, i)),
            forall|i: int| 0 <= i < k ==> contents_view(contents@)[i].is_reply_to == 0,
            forall|i: int|
                0 <= i < k ==> contents_view(contents@)[i].replies_start == (if repv[i].len()
                    == 0 {
                    0u16
                } else {
                    (t + prefix_len(repv, i)) as u16
                }),
            forall|i: int| 0 <= i < k ==> ids_view(ids@)[i] == post_at(feedv, selfv, repv, i).id,
    {
        let post = if k < nf {
            &feed[k]
        } else {
            &selfp[k - nf]
        };
        proof {
            assert(post@ == post_at(feedv, selfv, repv, k as int));
        }
        let line = author_line(post);
        let rec = to_latin_1(line.as_str(), Some(39), true);
        proof {
            reveal(crate::layout::arec);
            assert(rec@ == arec(post_at(feedv, selfv, repv, k as int)));
            assert(tv.contains(rec@));
        }
        let idx = find_author(table, &rec);
        let body = render_body(post);
        let body_bytes = to_latin_1(body.as_str(), None, false);
        let rlen = replies[k].len();
        proof {
            lemma_prefix_len_bounds(repv, k as int);
            lemma_prefix_len_bounds(repv, k + 1);
        }
        let rs: u16 = if rlen == 0 {
            0
        } else {
            start as u16
        };
        let record = TootContent {
            author: idx as u16,
            is_reply_to: 0,
            replies_start: rs,
            contents: body_bytes,
        };
        let ghost rv0 = record@;
        let ghost prevc = contents@;
        let ghost previ = ids@;
        contents.push(record);
        let id_copy = copy_string(&post.id);
        let ghost iv0 = id_copy@;
        ids.push(id_copy);
        proof {
            assert(contents_view(contents@) =~= contents_view(prevc).push(rv0));
            assert(ids_view(ids@) =~= ids_view(previ).push(iv0));
            assert(record_matches(rv0, tv, post_at(feedv, selfv, repv, k as int))) by {
                reveal(crate::layout::record_matches);
            }
        }
        start = start + rlen;
    }
    (contents, ids)
}

/// Append reply block `k`: one record per reply, each pointing back at its
/// parent's position plus one.
#[verifier::rlimit(100)]
fn append_reply_block(
    contents: &mut Vec<TootContent>,
    ids: &mut Vec<String>,
    block: &Vec<Post>,
    table: &Vec<TootAuthor>,
    k: usize,
    Ghost(feedv): Ghost<Seq<PostV>>,
    Ghost(selfv): Ghost<Seq<PostV>>,
    Ghost(repv): Ghost<Seq<Seq<PostV>>>,
)
    requires
        0 <= k < repv.len(),
        repv.len() == feedv.len() + selfv.len(),
        post_count(feedv, selfv, repv) <= 0xffff,
        posts_view(block@) == repv[k as int],
        table_complete(table_view(table@), feedv, selfv, repv),
        table@.len() <= 0xffff,
        old(contents)@.len() == repv.len() + prefix_len(repv, k as int),
        region_facts(contents_view(old(contents)@), ids_view(old(ids)@), table_view(table@),
            feedv, selfv, repv),
        blocks_done(contents_view(old(contents)@), repv.len() as int, repv, k as int),
    ensures
        final(contents)@.len() == repv.len() + prefix_len(repv, k + 1),
        region_facts(contents_view(final(contents)@), ids_view(final(ids)@), table_view(table@),
            feedv, selfv, repv),
        blocks_done(contents_view(final(contents)@), repv.len() as int, repv, k + 1),
{
    let ghost tv = table_view(table@);
    let ghost t = repv.len() as int;
    proof {
        lemma_prefix_len_bounds(repv, k as int);
        lemma_prefix_len_bounds(repv, k + 1);
        assert(prefix_len(repv, k + 1) == prefix_len(repv, k as int) + repv[k as int].len());
    }
    let nb = block.len();
    for m in 0..nb
        invariant
            0 <= k < repv.len(),
            repv.len() == feedv.len() + selfv.len(),
            post_count(feedv, selfv, repv) <= 0xffff,
            posts_view(block@) == repv[k as int],
            table_complete(tv, feedv, selfv, repv),
            tv == table_view(table@),
            table@.len() <= 0xffff,
            t == repv.len() as int,
            0 <= prefix_len(repv, k as int),
            prefix_len(repv, k as int) + repv[k as int].len() <= total_replies(repv),
            nb == repv[k as int].len(),
            contents@.len() == t + prefix_len(repv, k as int) + m,
            region_facts(contents_view(contents@), ids_view(ids@), tv, feedv, selfv, repv),
            blocks_done(contents_view(contents@), t, repv, k as int),
            forall|m2: int|
                0 <= m2 < m ==> contents_view(contents@)[reply_pos(t, repv, k as int,
                    m2)].is_reply_to == k + 1,
    {
        let post = &block[m];
        proof {
            lemma_reply_at(repv, k as int, m as int);
            assert(post@ == repv[k as int][m as int]);
            assert(post@ == post_at(feedv, selfv, repv, contents@.len() as int));
        }
        let line = author_line(post);
        let rec = to_latin_1(line.as_str(), Some(39), true);
        proof {
            reveal(crate::layout::arec);
            assert(rec@ == arec(post_at(feedv, selfv, repv, contents@.len() as int)));
            assert(tv.contains(rec@));
        }
        let idx = find_author(table, &rec);
        let body = render_body(post);
        let body_bytes = to_latin_1(body.as_str(), None, false);
        let record = TootContent {
            author: idx as u16,
            is_reply_to: (k + 1) as u16,
            replies_start: 0,
            contents: body_bytes,
        };
        let ghost rv0 = record@;
        let ghost prevc = contents@;
        let ghost previ = ids@;
        contents.push(record);
        let id_copy = copy_string(&post.id);
        let ghost iv0 = id_copy@;
        ids.push(id_copy);
        proof {
            assert(contents_view(contents@) =~= contents_view(prevc).push(rv0));
            assert(ids_view(ids@) =~= ids_view(previ).push(iv0));
            assert(record_matches(rv0, tv, post_at(feedv, selfv, repv, prevc.len() as int))) by {
                reveal(crate::layout::record_matches);
            }
            assert forall|k2: int, m2: int|
                0 <= k2 < k && 0 <= m2 < repv[k2].len() implies contents_view(
                contents@)[#[trigger] reply_pos(t, repv, k2, m2)].is_reply_to == k2 + 1 by {
                lemma_prefix_monotone(repv, 0, k2);
                assert(prefix_len(repv, k2) + m2 < prefix_len(repv, k2 + 1));
                lemma_prefix_monotone(repv, k2 + 1, k as int);
                assert(0 <= reply_pos(t, repv, k2, m2) < prevc.len());
                assert(contents_view(prevc)[reply_pos(t, repv, k2, m2)].is_reply_to == k2 + 1);
                assert(contents_view(contents@)[reply_pos(t, repv, k2, m2)] == contents_view(
                    prevc)[reply_pos(t, repv, k2, m2)]);
            }
        }
    }
    proof {
        assert forall|k2: int, m2: int|
            0 <= k2 < k + 1 && 0 <= m2 < repv[k2].len() implies contents_view(
            contents@)[#[trigger] reply_pos(t, repv, k2, m2)].is_reply_to == k2 + 1 by {
            if k2 == k {
                assert(contents_view(contents@)[reply_pos(t, repv, k as int,
                    m2)].is_reply_to == k + 1);
            }
        }
    }
}

/// Lay out the Author and Content DBs, the preference record and the cache
/// snapshot for one sync, from the fetched home feed, own posts, and one
/// reply list per top-level post.
#[verifier::loop_isolation(false)]
pub fn build_sync(feed: &Vec<Post>, selfp: &Vec<Post>, replies: &Vec<Vec<Post>>) -> (r: SyncBuild)
    requires
        replies@.len() == feed@.len() + selfp@.len(),
        post_count(posts_view(feed@), posts_view(selfp@), replies_view(replies@)) <= 0xffff,
    ensures
        sorted_strict(table_view(r.authors@)),
        table_complete(table_view(r.authors@), posts_view(feed@), posts_view(selfp@),
            replies_view(replies@)),
        r.authors@.len() <= post_count(posts_view(feed@), posts_view(selfp@),
            replies_view(replies@)),
        forall|k: int| 0 <= k < r.authors@.len() ==> table_view(r.authors@)[k].len() <= 40,
        layout_ok(contents_view(r.contents@), table_view(r.authors@), posts_view(feed@),
            posts_view(selfp@), replies_view(replies@)),
        snapshot_ok(ids_view(r.snapshot_ids@), posts_view(feed@), posts_view(selfp@),
            replies_view(replies@)),
        r.prefs.home_timeline_len == feed@.len(),
        r.prefs.self_timeline_len == selfp@.len(),
        r.prefs.reply_content_len == replies@.len(),
{
    let ghost feedv = posts_view(feed@);
    let ghost selfv = posts_view(selfp@);
    let ghost repv = replies_view(replies@);
    let table = build_author_table(feed, selfp, replies);
    let ghost tv = table_view(table@);
    proof {
        lemma_prefix_len_bounds(repv, repv.len() as int);
    }
    let (mut contents, mut ids) = build_tops(feed, selfp, replies, &table);
    let t = replies.len();
    for k in 0..t
        invariant
            contents@.len() == t + prefix_len(repv, k as int),
            region_facts(contents_view(contents@), ids_view(ids@), tv, feedv, selfv, repv),
            blocks_done(contents_view(contents@), t as int, repv, k as int),
    {
        append_reply_block(&mut contents, &mut ids, &replies[k], &table, k, Ghost(feedv),
            Ghost(selfv), Ghost(repv));
    }
    let prefs = HeffalumpPrefs {
        home_timeline_len: (feed.len()) as u16,
        self_timeline_len: (selfp.len()) as u16,
        reply_content_len: t as u16,
    };
    SyncBuild { authors: table, contents, prefs, snapshot_ids: ids }
}

// ---------------------------------------------------------------------------
// Laws
// ---------------------------------------------------------------------------

/// Two strictly sorted tables with the same members are identical.
pub proof fn lemma_sorted_table_unique(t1: Seq<Seq<u8>>, t2: Seq<Seq<u8>>)
    requires
        sorted_strict(t1),
        sorted_strict(t2),
        forall|x: Seq<u8>| t1.contains(x) <==> t2.contains(x),
    ensures
        t1 == t2,
    decreases t1.len(),
{
    if t1.len() == 0 {
        if t2.len() > 0 {
            assert(t2.contains(t2[0]));
            assert(false);
        }
        assert(t1 =~= t2);
    } else {
        if t2.len() == 0 {
            assert(t1.contains(t1[0]));
            assert(false);
        }
        assert(t1.contains(t1[0]));
        assert(t2.contains(t2[0]));
        let j = choose|j: int| 0 <= j < t2.len() && t2[j] == t1[0];
        let i = choose|i: int| 0 <= i < t1.len() && t1[i] == t2[0];
        if t1[0] != t2[0] {
            assert(j != 0 && i != 0);
            assert(lex_lt(t2[0], t2[j]));
            assert(lex_lt(t1[0], t1[i]));
            lemma_lex_asym(t1[0], t2[0]);
            assert(false);
        }
        let r1 = t1.skip(1);
        let r2 = t2.skip(1);
        assert forall|a: int, b: int| 0 <= a < b < r1.len() implies lex_lt(r1[a], r1[b]) by {
            assert(r1[a] == t1[a + 1] && r1[b] == t1[b + 1]);
        }
        assert forall|a: int, b: int| 0 <= a < b < r2.len() implies lex_lt(r2[a], r2[b]) by {
            assert(r2[a] == t2[a + 1] && r2[b] == t2[b + 1]);
        }
        assert forall|x: Seq<u8>| r1.contains(x) implies r2.contains(x) by {
            let k = choose|k: int| 0 <= k < r1.len() && r1[k] == x;
            assert(t1[k + 1] == x);
            assert(t1.contains(x));
            assert(t2.contains(x));
            let l = choose|l: int| 0 <= l < t2.len() && t2[l] == x;
            if l == 0 {
                assert(x == t1[0]);
                assert(lex_lt(t1[0], t1[k + 1]));
                lemma_lex_irrefl(x);
                assert(false);
            }
            assert(r2[l - 1] == x);
        }
        assert forall|x: Seq<u8>| r2.contains(x) implies r1.contains(x) by {
            let k = choose|k: int| 0 <= k < r2.len() && r2[k] == x;
            assert(t2[k + 1] == x);
            assert(t2.contains(x));
            assert(t1.contains(x));
            let l = choose|l: int| 0 <= l < t1.len() && t1[l] == x;
            if l == 0 {
                assert(x == t2[0]);
                assert(lex_lt(t2[0], t2[k + 1]));
                lemma_lex_irrefl(x);
                assert(false);
            }
            assert(r1[l - 1] == x);
        }
        lemma_sorted_table_unique(r1, r2);
        assert forall|a: int| 0 <= a < t1.len() implies t1[a] == t2[a] by {
            if a > 0 {
                assert(t1[a] == r1[a - 1] && t2[a] == r2[a - 1]);
            }
        }
        assert(t1 =~= t2);
    }
}

/// Author indexing is stable: any two builds over the same posts produce
/// the same author table, and every content record carries the same
/// author index in both.
pub proof fn lemma_author_indexing_stable(
    tv1: Seq<Seq<u8>>,
    tv2: Seq<Seq<u8>>,
    cv1: Seq<TootContentV>,
    cv2: Seq<TootContentV>,
    feedv: Seq<PostV>,
    selfv: Seq<PostV>,
    repv: Seq<Seq<PostV>>,
)
    requires
        sorted_strict(tv1),
        sorted_strict(tv2),
        table_complete(tv1, feedv, selfv, repv),
        table_complete(tv2, feedv, selfv, repv),
        layout_ok(cv1, tv1, feedv, selfv, repv),
        layout_ok(cv2, tv2, feedv, selfv, repv),
    ensures
        tv1 == tv2,
        cv1.len() == cv2.len(),
        forall|i: int| 0 <= i < cv1.len() ==> cv1[i].author == cv2[i].author,
{
    lemma_sorted_table_unique(tv1, tv2);
    assert forall|i: int| 0 <= i < cv1.len() implies cv1[i].author == cv2[i].author by {
        let p = post_at(feedv, selfv, repv, i);
        lemma_record_matches(cv1[i], tv1, p);
        lemma_record_matches(cv2[i], tv2, p);
        let a = cv1[i].author as int;
        let b = cv2[i].author as int;
        if a != b {
            assert(tv1[a] == arec(p) && tv1[b] == arec(p));
            if a < b {
                assert(lex_lt(tv1[a], tv1[b]));
            } else {
                assert(lex_lt(tv1[b], tv1[a]));
            }
            lemma_lex_irrefl(arec(p));
            assert(false);
        }
    }
}

/// Region layout: every record before `home + self` is top-level, and
/// every record after them is a reply.
pub proof fn lemma_region_layout(
    cv: Seq<TootContentV>,
    tv: Seq<Seq<u8>>,
    feedv: Seq<PostV>,
    selfv: Seq<PostV>,
    repv: Seq<Seq<PostV>>,
)
    requires
        layout_ok(cv, tv, feedv, selfv, repv),
    ensures
        forall|i: int| 0 <= i < feedv.len() + selfv.len() ==> cv[i].is_reply_to == 0,
        forall|i: int| feedv.len() + selfv.len() <= i < cv.len() ==> cv[i].is_reply_to > 0,
{
}

/// Reply linkage: a top-level post whose reply block is non-empty points
/// at position `s`, and the records at `s, s + 1, ...` through its block
/// are exactly its replies, each holding the parent's position plus one.
#[verifier::rlimit(100)]
pub proof fn lemma_reply_linkage(
    cv: Seq<TootContentV>,
    tv: Seq<Seq<u8>>,
    feedv: Seq<PostV>,
    selfv: Seq<PostV>,
    repv: Seq<Seq<PostV>>,
    k: int,
)
    requires
        layout_ok(cv, tv, feedv, selfv, repv),
        repv.len() == feedv.len() + selfv.len(),
        post_count(feedv, selfv, repv) <= 0xffff,
        0 <= k < repv.len(),
        repv[k].len() > 0,
    ensures
        ({
            let t = feedv.len() + selfv.len();
            let s = t + prefix_len(repv, k);
            &&& cv[k].replies_start == s
            &&& s > 0
            &&& (forall|m: int|
                0 <= m < repv[k].len() ==> reply_pos(t as int, repv, k, m) == s + m)
            &&& (forall|m: int|
                0 <= m < repv[k].len() ==> cv[#[trigger] reply_pos(t as int, repv, k,
                    m)].is_reply_to == k + 1 && cv[reply_pos(t as int, repv, k, m)].contents
                    == latin1_bytes(rendered_body_of(repv[k][m])))
        }),
{
    let t = (feedv.len() + selfv.len()) as int;
    let s = t + prefix_len(repv, k);
    lemma_prefix_len_bounds(repv, k);
    lemma_prefix_len_bounds(repv, k + 1);
    assert(prefix_len(repv, k + 1) == prefix_len(repv, k) + repv[k].len());
    assert(0 <= s <= post_count(feedv, selfv, repv));
    assert(cv[k].replies_start == ((t + prefix_len(repv, k)) as u16));
    assert((s as u16) as int == s);
    assert(s >= t >= repv.len() >= 1);
    assert forall|m: int|
        0 <= m < repv[k].len() implies cv[#[trigger] reply_pos(t, repv, k, m)].is_reply_to == k
        + 1 && cv[reply_pos(t, repv, k, m)].contents == latin1_bytes(
        rendered_body_of(repv[k][m])) by {
        assert(cv[reply_pos(t, repv, k, m)].is_reply_to == k + 1);
        lemma_reply_at(repv, k, m);
        lemma_record_matches(cv[s + m], tv, post_at(feedv, selfv, repv, s + m));
    }
}

} // verus!
