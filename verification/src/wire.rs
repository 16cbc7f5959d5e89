//! Byte layouts shared by the stored records: little-endian numbers and length-prefixed text.
use crate::text::{from_utf8, utf8_of};
use vstd::bytes::{
    lemma_auto_spec_u64_to_from_le_bytes, spec_u64_from_le_bytes, spec_u64_to_le_bytes,
    u64_from_le_bytes, u64_to_le_bytes,
};
use vstd::prelude::*;
use vstd::slice::{slice_subrange, slice_to_vec};
use vstd::utf8::{
    decode_utf8, encode_utf8, encode_utf8_decode_utf8, encode_utf8_valid_utf8, valid_utf8,
};

verus! {

/// The number in the eight bytes from `at` on.
pub open spec fn number_at(b: Seq<u8>, at: int) -> u64 {
    spec_u64_from_le_bytes(b.subrange(at, at + 8))
}

/// A text's bytes behind their count.
pub open spec fn counted(s: Seq<char>) -> Seq<u8> {
    spec_u64_to_le_bytes(encode_utf8(s).len() as u64) + encode_utf8(s)
}

/// The counted text from `at` on, and where it ends.
pub open spec fn counted_at(b: Seq<u8>, at: int) -> Option<(Seq<char>, int)> {
    if 0 <= at && at + 8 <= b.len() {
        let end = at + 8 + number_at(b, at);
        if end <= b.len() && valid_utf8(b.subrange(at + 8, end)) {
            Some((decode_utf8(b.subrange(at + 8, end)), end))
        } else {
            None
        }
    } else {
        None
    }
}

/// The number in the eight bytes from `at` on.
pub fn read_u64(b: &[u8], at: usize) -> (r: u64)
    requires
        at + 8 <= b@.len(),
    ensures
        r == number_at(b@, at as int),
{
    let len: usize = b.len();
    assert(at + 8 <= len);
    u64_from_le_bytes(slice_subrange(b, at, at + 8))
}

/// `v` with the number's eight bytes behind it.
pub fn put_u64(v: &mut Vec<u8>, n: u64)
    ensures
        final(v)@ == old(v)@ + spec_u64_to_le_bytes(n),
{
    let mut bytes = u64_to_le_bytes(n);
    v.append(&mut bytes);
}

/// `v` with these bytes behind it.
pub fn put_bytes(v: &mut Vec<u8>, b: &[u8])
    ensures
        final(v)@ == old(v)@ + b@,
{
    let mut copy = slice_to_vec(b);
    v.append(&mut copy);
}

/// `v` with the counted text behind it.
pub fn put_text(v: &mut Vec<u8>, s: &str)
    ensures
        final(v)@ == old(v)@ + counted(s@),
{
    let bytes = utf8_of(s);
    put_u64(v, bytes.len() as u64);
    put_bytes(v, bytes.as_slice());
    assert(v@ =~= old(v)@ + counted(s@));
}

/// The bytes from `at` on.
pub fn tail(b: &[u8], at: usize) -> (r: Vec<u8>)
    requires
        at <= b@.len(),
    ensures
        r@ == b@.subrange(at as int, b@.len() as int),
{
    slice_to_vec(slice_subrange(b, at, b.len()))
}

/// The counted text from `at` on, and where it ends.
pub fn read_text(b: &[u8], at: usize) -> (r: Option<(String, usize)>)
    ensures
        r is Some == counted_at(b@, at as int) is Some,
        r matches Some((s, end)) ==> counted_at(b@, at as int) == Some((s@, end as int)),
        r matches Some((s, end)) ==> end <= b@.len(),
{
    let len: usize = b.len();
    if at > len || len - at < 8 {
        return None;
    }
    let count: u64 = read_u64(b, at);
    let body: usize = at + 8;
    if count > (len - body) as u64 {
        return None;
    }
    let end: usize = body + count as usize;
    match from_utf8(slice_subrange(b, body, end)) {
        Some(s) => Some((s, end)),
        None => None,
    }
}

/// A number written is the number read, wherever it stands.
pub proof fn lemma_number_reads_back(pre: Seq<u8>, n: u64, post: Seq<u8>)
    ensures
        spec_u64_to_le_bytes(n).len() == 8,
        number_at(pre + spec_u64_to_le_bytes(n) + post, pre.len() as int) == n,
{
    lemma_auto_spec_u64_to_from_le_bytes();
    let b = pre + spec_u64_to_le_bytes(n) + post;
    assert(b.subrange(pre.len() as int, pre.len() as int + 8) =~= spec_u64_to_le_bytes(n));
}

/// A counted text written is the text read, wherever it stands.
pub proof fn lemma_text_reads_back(pre: Seq<u8>, s: Seq<char>, post: Seq<u8>)
    requires
        encode_utf8(s).len() <= u64::MAX,
    ensures
        counted_at(pre + counted(s) + post, pre.len() as int) == Some(
            (s, (pre.len() + counted(s).len()) as int),
        ),
        counted(s).len() == 8 + encode_utf8(s).len(),
{
    let bytes = encode_utf8(s);
    let n = bytes.len() as u64;
    let b = pre + counted(s) + post;
    lemma_number_reads_back(pre, n, bytes + post);
    assert(b =~= pre + spec_u64_to_le_bytes(n) + (bytes + post));
    let at = pre.len() as int;
    assert(b.subrange(at + 8, at + 8 + n) =~= bytes);
    encode_utf8_valid_utf8(s);
    encode_utf8_decode_utf8(s);
}

} // verus!
