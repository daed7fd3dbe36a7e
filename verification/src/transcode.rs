//! Text narrowing between Unicode strings and the device's ISO-8859-1 bytes.
//!
//! Encoding keeps exactly the code points at or below U+00FF and silently
//! drops the rest; an optional byte cutoff and a trailing NUL serve the
//! Author DB's fixed-width slots. Decoding maps every byte to the Unicode
//! code point of the same value, so it is total.
use vstd::prelude::*;
use vstd::string::StrSliceExecFns;

verus! {

/// Whether a code point survives ISO-8859-1 encoding.
pub open spec fn latin1_char(c: char) -> bool {
    c as u32 <= 0xff
}

/// The ISO-8859-1 encoding of a string: code points above U+00FF are dropped.
pub open spec fn latin1_bytes(s: Seq<char>) -> Seq<u8>
    decreases s.len(),
{
    if s.len() == 0 {
        Seq::empty()
    } else if latin1_char(s.last()) {
        latin1_bytes(s.drop_last()).push(s.last() as u8)
    } else {
        latin1_bytes(s.drop_last())
    }
}

/// A byte sequence clipped to an optional maximum length.
pub open spec fn clip(b: Seq<u8>, cutoff: Option<usize>) -> Seq<u8> {
    match cutoff {
        Some(c) => if b.len() > c { b.take(c as int) } else { b },
        None => b,
    }
}

/// The full on-device shape: encoded, clipped, optionally NUL-terminated.
pub open spec fn latin1_record(s: Seq<char>, cutoff: Option<usize>, add_null: bool) -> Seq<u8> {
    if add_null {
        clip(latin1_bytes(s), cutoff).push(0u8)
    } else {
        clip(latin1_bytes(s), cutoff)
    }
}

/// The ISO-8859-1 reading of raw bytes; every byte is a valid character.
pub open spec fn latin1_chars(b: Seq<u8>) -> Seq<char>
    decreases b.len(),
{
    if b.len() == 0 {
        Seq::empty()
    } else {
        latin1_chars(b.drop_last()).push(b.last() as char)
    }
}

/// The ASCII narrowing used by an earlier on-device format: code points
/// above U+007F are dropped.
pub open spec fn ascii_bytes(s: Seq<char>) -> Seq<u8>
    decreases s.len(),
{
    if s.len() == 0 {
        Seq::empty()
    } else if s.last() as u32 <= 0x7f {
        ascii_bytes(s.drop_last()).push(s.last() as u8)
    } else {
        ascii_bytes(s.drop_last())
    }
}

/// Relies on String::push: appends exactly the given character.
#[verifier::external_body]
pub(crate) fn push_char(s: &mut String, c: char)
    ensures
        final(s)@ == old(s)@.push(c),
{
    s.push(c);
}

/// Narrow a string to ISO-8859-1 bytes, dropping what cannot be encoded,
/// then clip to `cutoff` bytes and optionally append a NUL.
pub fn to_latin_1(arg: &str, cutoff: Option<usize>, add_null: bool) -> (r: Vec<u8>)
    ensures
        r@ == latin1_record(arg@, cutoff, add_null),
{
    let mut out: Vec<u8> = Vec::new();
    let n = arg.unicode_len();
    for i in 0..n
        invariant
            n == arg@.len(),
            out@ == latin1_bytes(arg@.take(i as int)),
    {
        let c = arg.get_char(i);
        proof {
            assert(arg@.take(i + 1).drop_last() =~= arg@.take(i as int));
            assert(arg@.take(i + 1).last() == arg@[i as int]);
        }
        if (c as u32) <= 0xff {
            out.push(c as u8);
        }
    }
    proof {
        assert(arg@.take(n as int) =~= arg@);
    }
    if let Some(c) = cutoff {
        if out.len() > c {
            out.truncate(c);
        }
    }
    if add_null {
        out.push(0);
    }
    out
}

/// Read raw device bytes as ISO-8859-1 text. Every byte sequence is valid,
/// so this cannot fail.
pub fn from_latin_1(bytes: &[u8]) -> (r: String)
    ensures
        r@ == latin1_chars(bytes@),
{
    let mut out = String::new();
    let n = bytes.len();
    for i in 0..n
        invariant
            n == bytes@.len(),
            out@ == latin1_chars(bytes@.take(i as int)),
    {
        proof {
            assert(bytes@.take(i + 1).drop_last() =~= bytes@.take(i as int));
            assert(bytes@.take(i + 1).last() == bytes@[i as int]);
        }
        push_char(&mut out, bytes[i] as char);
    }
    proof {
        assert(bytes@.take(n as int) =~= bytes@);
    }
    out
}

/// Narrow a string to its ASCII characters' bytes, dropping the rest.
pub fn to_ascii(arg: String) -> (r: Vec<u8>)
    ensures
        r@ == ascii_bytes(arg@),
{
    let mut out: Vec<u8> = Vec::new();
    let s = arg.as_str();
    let n = s.unicode_len();
    for i in 0..n
        invariant
            n == s@.len(),
            s@ == arg@,
            out@ == ascii_bytes(s@.take(i as int)),
    {
        let c = s.get_char(i);
        proof {
            assert(s@.take(i + 1).drop_last() =~= s@.take(i as int));
            assert(s@.take(i + 1).last() == s@[i as int]);
        }
        if (c as u32) <= 0x7f {
            out.push(c as u8);
        }
    }
    proof {
        assert(s@.take(n as int) =~= s@);
    }
    out
}

} // verus!
