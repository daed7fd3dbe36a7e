//! Codec for the four record shapes shared with the handheld.
//!
//! Every multi-byte integer on the device is big-endian. Each record type
//! has a mathematical encoding (`*_enc`) and a partial decoding (`*_dec`);
//! the executable methods are proved to realize exactly those functions.
use vstd::prelude::*;

use crate::SyncError;
use vstd::slice::{slice_subrange, slice_to_vec};

verus! {

// ---------------------------------------------------------------------------
// Big-endian 16-bit integers
// ---------------------------------------------------------------------------

/// The two big-endian bytes of a 16-bit integer.
pub open spec fn be16(x: u16) -> Seq<u8> {
    seq![(x >> 8) as u8, (x & 0xff) as u8]
}

/// The 16-bit integer read from two big-endian bytes.
pub open spec fn be16_val(hi: u8, lo: u8) -> u16 {
    (((hi as u16) << 8) | (lo as u16)) as u16
}

pub proof fn lemma_be16_round(x: u16)
    ensures
        be16_val(be16(x)[0], be16(x)[1]) == x,
{
    assert((((((x >> 8) as u8) as u16) << 8) | (((x & 0xff) as u8) as u16)) == x)
        by (bit_vector);
}

/// Append the big-endian bytes of `x`.
fn push_be16(out: &mut Vec<u8>, x: u16)
    ensures
        final(out)@ == old(out)@ + be16(x),
{
    out.push((x >> 8) as u8);
    out.push((x & 0xff) as u8);
    assert(out@ =~= old(out)@ + be16(x));
}

/// Read a big-endian 16-bit integer at offset `at`.
fn read_be16(bytes: &[u8], at: usize) -> (r: u16)
    requires
        at + 2 <= bytes@.len(),
    ensures
        r == be16_val(bytes@[at as int], bytes@[at + 1]),
{
    let hi = bytes[at];
    let lo = bytes[at + 1];
    ((hi as u16) << 8) | (lo as u16)
}

// ---------------------------------------------------------------------------
// Record types and their mathematical views
// ---------------------------------------------------------------------------

/// One post body as stored in the Content DB: a fixed header followed by
/// ISO-8859-1 body bytes. The device-side length field is derived from
/// `contents` when encoding.
#[derive(Debug, Clone)]
pub struct TootContent {
    /// Index into the Author DB.
    pub author: u16,
    /// 0 for a top-level post; `parent_index + 1` for a reply.
    pub is_reply_to: u16,
    /// First Content-DB index of this post's reply block, or 0 if none.
    pub replies_start: u16,
    /// ISO-8859-1 body bytes, without a terminating NUL.
    pub contents: Vec<u8>,
}

pub ghost struct TootContentV {
    pub author: u16,
    pub is_reply_to: u16,
    pub replies_start: u16,
    pub contents: Seq<u8>,
}

impl View for TootContent {
    type V = TootContentV;

    open spec fn view(&self) -> TootContentV {
        TootContentV {
            author: self.author,
            is_reply_to: self.is_reply_to,
            replies_start: self.replies_start,
            contents: self.contents@,
        }
    }
}

/// One author line as stored in the Author DB: a one-byte length followed by
/// that many ISO-8859-1 bytes.
#[derive(Debug, Clone)]
pub struct TootAuthor {
    pub author_name: Vec<u8>,
}

impl View for TootAuthor {
    type V = Seq<u8>;

    open spec fn view(&self) -> Seq<u8> {
        self.author_name@
    }
}

/// One pending action uploaded by the handheld.
#[derive(Debug, Clone)]
pub enum TootWrite {
    Favorite(u16),
    Follow(u16),
    Reblog(u16),
    Toot(TootContent),
}

pub ghost enum TootWriteV {
    Favorite(u16),
    Follow(u16),
    Reblog(u16),
    Toot(TootContentV),
}

impl View for TootWrite {
    type V = TootWriteV;

    open spec fn view(&self) -> TootWriteV {
        match self {
            TootWrite::Favorite(t) => TootWriteV::Favorite(*t),
            TootWrite::Follow(t) => TootWriteV::Follow(*t),
            TootWrite::Reblog(t) => TootWriteV::Reblog(*t),
            TootWrite::Toot(c) => TootWriteV::Toot(c@),
        }
    }
}

/// The preference record telling the device how the Content DB is segmented.
#[derive(Debug, Clone, Copy, PartialEq, Eq, Structural, Default)]
pub struct HeffalumpPrefs {
    pub home_timeline_len: u16,
    pub self_timeline_len: u16,
    pub reply_content_len: u16,
}

impl View for HeffalumpPrefs {
    type V = HeffalumpPrefs;

    open spec fn view(&self) -> HeffalumpPrefs {
        *self
    }
}

// ---------------------------------------------------------------------------
// The on-device byte format, as spec functions
// ---------------------------------------------------------------------------

pub open spec fn content_wf(c: TootContentV) -> bool {
    c.contents.len() <= 0xffff
}

pub open spec fn content_enc(c: TootContentV) -> Seq<u8> {
    be16(c.author) + be16(c.is_reply_to) + be16(c.replies_start)
        + be16(c.contents.len() as u16) + c.contents
}

pub open spec fn content_dec(b: Seq<u8>) -> Option<TootContentV> {
    if b.len() < 8 {
        None
    } else {
        let clen = be16_val(b[6], b[7]) as int;
        if b.len() < 8 + clen {
            None
        } else {
            Some(TootContentV {
                author: be16_val(b[0], b[1]),
                is_reply_to: be16_val(b[2], b[3]),
                replies_start: be16_val(b[4], b[5]),
                contents: b.subrange(8, 8 + clen),
            })
        }
    }
}

pub open spec fn author_wf(name: Seq<u8>) -> bool {
    name.len() <= 0xff
}

pub open spec fn author_enc(name: Seq<u8>) -> Seq<u8> {
    seq![name.len() as u8] + name
}

pub open spec fn author_dec(b: Seq<u8>) -> Option<Seq<u8>> {
    if b.len() < 1 {
        None
    } else {
        let n = b[0] as int;
        if b.len() < 1 + n {
            None
        } else {
            Some(b.subrange(1, 1 + n))
        }
    }
}

/// The two-byte discriminant of a write record.
pub open spec fn write_discrim(w: TootWriteV) -> u16 {
    match w {
        TootWriteV::Favorite(_) => 0,
        TootWriteV::Follow(_) => 1,
        TootWriteV::Reblog(_) => 2,
        TootWriteV::Toot(_) => 3,
    }
}

pub open spec fn write_wf(w: TootWriteV) -> bool {
    w matches TootWriteV::Toot(c) ==> content_wf(c)
}

pub open spec fn write_enc(w: TootWriteV) -> Seq<u8> {
    be16(write_discrim(w)) + match w {
        TootWriteV::Favorite(t) => be16(t),
        TootWriteV::Follow(t) => be16(t),
        TootWriteV::Reblog(t) => be16(t),
        TootWriteV::Toot(c) => content_enc(c),
    }
}

pub open spec fn write_dec(b: Seq<u8>) -> Option<TootWriteV> {
    if b.len() < 2 {
        None
    } else {
        let d = be16_val(b[0], b[1]);
        if d == 0 || d == 1 || d == 2 {
            if b.len() < 4 {
                None
            } else {
                let t = be16_val(b[2], b[3]);
                Some(
                    if d == 0 {
                        TootWriteV::Favorite(t)
                    } else if d == 1 {
                        TootWriteV::Follow(t)
                    } else {
                        TootWriteV::Reblog(t)
                    },
                )
            }
        } else if d == 3 {
            match content_dec(b.subrange(2, b.len() as int)) {
                Some(c) => Some(TootWriteV::Toot(c)),
                None => None,
            }
        } else {
            None
        }
    }
}

pub open spec fn prefs_enc(p: HeffalumpPrefs) -> Seq<u8> {
    be16(p.home_timeline_len) + be16(p.self_timeline_len) + be16(p.reply_content_len)
}

pub open spec fn prefs_dec(b: Seq<u8>) -> Option<HeffalumpPrefs> {
    if b.len() < 6 {
        None
    } else {
        Some(HeffalumpPrefs {
            home_timeline_len: be16_val(b[0], b[1]),
            self_timeline_len: be16_val(b[2], b[3]),
            reply_content_len: be16_val(b[4], b[5]),
        })
    }
}

// ---------------------------------------------------------------------------
// The shared record interface
// ---------------------------------------------------------------------------

/// A value with an on-device byte representation.
///
/// `to_hh_bytes` realizes `Self::enc` exactly, refusing a value whose
/// length field would overflow; `from_hh_bytes` realizes `Self::dec`,
/// answering `MalformedRecord` precisely on the byte sequences that
/// `Self::dec` rejects.
pub trait OnDevice: View + Sized {
    /// Bounds under which the value fits the device's length fields.
    spec fn wf(&self) -> bool;

    /// The encoding of a value of this record type.
    spec fn enc(v: Self::V) -> Seq<u8>;

    /// The partial decoding of a byte sequence as this record type.
    spec fn dec(b: Seq<u8>) -> Option<Self::V>;

    fn to_hh_bytes(&self) -> (r: Result<Vec<u8>, SyncError>)
        ensures
            self.wf() ==> (r matches Ok(bytes) && bytes@ == Self::enc(self@)),
            !self.wf() ==> (r matches Err(e) && e == SyncError::MalformedRecord),
    ;

    fn from_hh_bytes(bytes: &[u8]) -> (r: Result<Self, SyncError>)
        ensures
            match Self::dec(bytes@) {
                Some(m) => r matches Ok(v) && v@ == m,
                None => r matches Err(e) && e == SyncError::MalformedRecord,
            },
    ;
}

impl OnDevice for HeffalumpPrefs {
    open spec fn wf(&self) -> bool {
        true
    }

    open spec fn enc(v: HeffalumpPrefs) -> Seq<u8> {
        prefs_enc(v)
    }

    open spec fn dec(b: Seq<u8>) -> Option<HeffalumpPrefs> {
        prefs_dec(b)
    }

    fn to_hh_bytes(&self) -> (r: Result<Vec<u8>, SyncError>) {
        let mut out: Vec<u8> = Vec::new();
        push_be16(&mut out, self.home_timeline_len);
        push_be16(&mut out, self.self_timeline_len);
        push_be16(&mut out, self.reply_content_len);
        assert(out@ =~= prefs_enc(*self));
        Ok(out)
    }

    fn from_hh_bytes(bytes: &[u8]) -> (r: Result<HeffalumpPrefs, SyncError>) {
        if bytes.len() < 6 {
            return Err(SyncError::MalformedRecord);
        }
        Ok(HeffalumpPrefs {
            home_timeline_len: read_be16(bytes, 0),
            self_timeline_len: read_be16(bytes, 2),
            reply_content_len: read_be16(bytes, 4),
        })
    }
}

impl OnDevice for TootAuthor {
    open spec fn wf(&self) -> bool {
        author_wf(self@)
    }

    open spec fn enc(v: Seq<u8>) -> Seq<u8> {
        author_enc(v)
    }

    open spec fn dec(b: Seq<u8>) -> Option<Seq<u8>> {
        author_dec(b)
    }

    fn to_hh_bytes(&self) -> (r: Result<Vec<u8>, SyncError>) {
        if self.author_name.len() > 0xff {
            return Err(SyncError::MalformedRecord);
        }
        let mut out: Vec<u8> = Vec::new();
        out.push(self.author_name.len() as u8);
        out.extend_from_slice(self.author_name.as_slice());
        assert(out@ =~= author_enc(self@));
        Ok(out)
    }

    fn from_hh_bytes(bytes: &[u8]) -> (r: Result<TootAuthor, SyncError>) {
        if bytes.len() < 1 {
            return Err(SyncError::MalformedRecord);
        }
        let n = bytes[0] as usize;
        if bytes.len() - 1 < n {
            return Err(SyncError::MalformedRecord);
        }
        let name = slice_to_vec(slice_subrange(bytes, 1, 1 + n));
        Ok(TootAuthor { author_name: name })
    }
}

impl OnDevice for TootContent {
    open spec fn wf(&self) -> bool {
        content_wf(self@)
    }

    open spec fn enc(v: TootContentV) -> Seq<u8> {
        content_enc(v)
    }

    open spec fn dec(b: Seq<u8>) -> Option<TootContentV> {
        content_dec(b)
    }

    fn to_hh_bytes(&self) -> (r: Result<Vec<u8>, SyncError>) {
        if self.contents.len() > 0xffff {
            return Err(SyncError::MalformedRecord);
        }
        let mut out: Vec<u8> = Vec::new();
        push_be16(&mut out, self.author);
        push_be16(&mut out, self.is_reply_to);
        push_be16(&mut out, self.replies_start);
        push_be16(&mut out, self.contents.len() as u16);
        out.extend_from_slice(self.contents.as_slice());
        assert(out@ =~= content_enc(self@));
        Ok(out)
    }

    fn from_hh_bytes(bytes: &[u8]) -> (r: Result<TootContent, SyncError>) {
        if bytes.len() < 8 {
            return Err(SyncError::MalformedRecord);
        }
        let author = read_be16(bytes, 0);
        let is_reply_to = read_be16(bytes, 2);
        let replies_start = read_be16(bytes, 4);
        let clen = read_be16(bytes, 6) as usize;
        if bytes.len() - 8 < clen {
            return Err(SyncError::MalformedRecord);
        }
        let contents = slice_to_vec(slice_subrange(bytes, 8, 8 + clen));
        Ok(TootContent { author, is_reply_to, replies_start, contents })
    }
}

impl TootWrite {
    /// The numeric tag shared with the device-side C enum.
    pub fn c_enum_val(&self) -> (r: u16)
        ensures
            r == write_discrim(self@),
    {
        match self {
            TootWrite::Favorite(_) => 0,
            TootWrite::Follow(_) => 1,
            TootWrite::Reblog(_) => 2,
            TootWrite::Toot(_) => 3,
        }
    }
}

impl OnDevice for TootWrite {
    open spec fn wf(&self) -> bool {
        write_wf(self@)
    }

    open spec fn enc(v: TootWriteV) -> Seq<u8> {
        write_enc(v)
    }

    open spec fn dec(b: Seq<u8>) -> Option<TootWriteV> {
        write_dec(b)
    }

    fn to_hh_bytes(&self) -> (r: Result<Vec<u8>, SyncError>) {
        let mut out: Vec<u8> = Vec::new();
        push_be16(&mut out, self.c_enum_val());
        match self {
            TootWrite::Favorite(t) => push_be16(&mut out, *t),
            TootWrite::Follow(t) => push_be16(&mut out, *t),
            TootWrite::Reblog(t) => push_be16(&mut out, *t),
            TootWrite::Toot(c) => {
                let body = match c.to_hh_bytes() {
                    Ok(b) => b,
                    Err(e) => {
                        return Err(e);
                    },
                };
                out.extend_from_slice(body.as_slice());
            },
        }
        assert(out@ =~= write_enc(self@));
        Ok(out)
    }

    fn from_hh_bytes(bytes: &[u8]) -> (r: Result<TootWrite, SyncError>) {
        if bytes.len() < 2 {
            return Err(SyncError::MalformedRecord);
        }
        let discrim = read_be16(bytes, 0);
        if discrim <= 2 {
            if bytes.len() < 4 {
                return Err(SyncError::MalformedRecord);
            }
            let target = read_be16(bytes, 2);
            Ok(
                if discrim == 0 {
                    TootWrite::Favorite(target)
                } else if discrim == 1 {
                    TootWrite::Follow(target)
                } else {
                    TootWrite::Reblog(target)
                },
            )
        } else if discrim == 3 {
            let rest = slice_subrange(bytes, 2, bytes.len());
            match TootContent::from_hh_bytes(rest) {
                Ok(c) => Ok(TootWrite::Toot(c)),
                Err(e) => Err(e),
            }
        } else {
            Err(SyncError::MalformedRecord)
        }
    }
}

// ---------------------------------------------------------------------------
// Laws: decoding inverts encoding, and a record cut short is rejected
// ---------------------------------------------------------------------------

/// Decoding a well-formed Content record's encoding returns the record.
pub proof fn lemma_content_round_trip(c: TootContentV)
    requires
        content_wf(c),
    ensures
        content_dec(content_enc(c)) == Some(c),
{
    let e = content_enc(c);
    lemma_be16_round(c.author);
    lemma_be16_round(c.is_reply_to);
    lemma_be16_round(c.replies_start);
    lemma_be16_round(c.contents.len() as u16);
    assert(e.subrange(8, 8 + c.contents.len() as int) =~= c.contents);
}

/// Decoding a Content record's encoding cut short by one byte fails.
pub proof fn lemma_content_truncated(c: TootContentV)
    requires
        content_wf(c),
    ensures
        content_dec(content_enc(c).drop_last()) == None::<TootContentV>,
{
    let e = content_enc(c);
    let t = e.drop_last();
    if c.contents.len() == 0 {
        assert(t.len() < 8);
    } else {
        lemma_be16_round(c.contents.len() as u16);
        assert(t[6] == e[6] && t[7] == e[7]);
        assert(t.len() < 8 + be16_val(t[6], t[7]) as int);
    }
}

/// Decoding a well-formed Author record's encoding returns the name.
pub proof fn lemma_author_round_trip(name: Seq<u8>)
    requires
        author_wf(name),
    ensures
        author_dec(author_enc(name)) == Some(name),
{
    let e = author_enc(name);
    assert(e[0] == name.len() as u8);
    assert(e.subrange(1, 1 + name.len() as int) =~= name);
}

/// Decoding an Author record's encoding cut short by one byte fails.
pub proof fn lemma_author_truncated(name: Seq<u8>)
    requires
        author_wf(name),
    ensures
        author_dec(author_enc(name).drop_last()) == None::<Seq<u8>>,
{
    let e = author_enc(name);
    let t = e.drop_last();
    if name.len() == 0 {
        assert(t.len() < 1);
    } else {
        assert(t[0] == name.len() as u8);
        assert(t.len() < 1 + t[0] as int);
    }
}

/// Decoding a well-formed Write record's encoding returns the record.
pub proof fn lemma_write_round_trip(w: TootWriteV)
    requires
        write_wf(w),
    ensures
        write_dec(write_enc(w)) == Some(w),
{
    let e = write_enc(w);
    lemma_be16_round(write_discrim(w));
    match w {
        TootWriteV::Favorite(t) => {
            lemma_be16_round(t);
        },
        TootWriteV::Follow(t) => {
            lemma_be16_round(t);
        },
        TootWriteV::Reblog(t) => {
            lemma_be16_round(t);
        },
        TootWriteV::Toot(c) => {
            assert(e.subrange(2, e.len() as int) =~= content_enc(c));
            lemma_content_round_trip(c);
        },
    }
}

/// Decoding a Write record's encoding cut short by one byte fails.
pub proof fn lemma_write_truncated(w: TootWriteV)
    requires
        write_wf(w),
    ensures
        write_dec(write_enc(w).drop_last()) == None::<TootWriteV>,
{
    let e = write_enc(w);
    let t = e.drop_last();
    lemma_be16_round(write_discrim(w));
    match w {
        TootWriteV::Favorite(_) => {
            assert(t.len() < 4);
        },
        TootWriteV::Follow(_) => {
            assert(t.len() < 4);
        },
        TootWriteV::Reblog(_) => {
            assert(t.len() < 4);
        },
        TootWriteV::Toot(c) => {
            assert(t[0] == e[0] && t[1] == e[1]);
            assert(t.subrange(2, t.len() as int) =~= content_enc(c).drop_last());
            lemma_content_truncated(c);
        },
    }
}

/// Decoding a Prefs record's encoding returns the record.
pub proof fn lemma_prefs_round_trip(p: HeffalumpPrefs)
    ensures
        prefs_dec(prefs_enc(p)) == Some(p),
{
    lemma_be16_round(p.home_timeline_len);
    lemma_be16_round(p.self_timeline_len);
    lemma_be16_round(p.reply_content_len);
}

/// Decoding a Prefs record's encoding cut short by one byte fails.
pub proof fn lemma_prefs_truncated(p: HeffalumpPrefs)
    ensures
        prefs_dec(prefs_enc(p).drop_last()) == None::<HeffalumpPrefs>,
{
    assert(prefs_enc(p).drop_last().len() < 6);
}

} // verus!

