//! Thirty-two bytes as sixty-four hexadecimal characters, and back.
use crate::numeral::{digit_value, hex_fixed, lemma_digit, to_hex_byte};
use crate::text::chars_of;
use vstd::prelude::*;
use vstd::string::*;

verus! {

/// One byte as two lower-case hexadecimal digits.
pub open spec fn hex_byte(b: u8) -> Seq<char> {
    hex_fixed(b as nat, 2)
}

/// Every byte as two lower-case hexadecimal digits.
pub open spec fn hex_of(bytes: Seq<u8>) -> Seq<char>
    decreases bytes.len(),
{
    if bytes.len() == 0 {
        Seq::empty()
    } else {
        hex_of(bytes.drop_last()) + hex_byte(bytes.last())
    }
}

/// What the `i`th pair of characters stands for: both are hexadecimal digits, of either case.
pub open spec fn pair_at(s: Seq<char>, i: int) -> Option<nat> {
    match (digit_value(s[2 * i], 16), digit_value(s[2 * i + 1], 16)) {
        (Some(h), Some(l)) => Some(16 * h + l),
        _ => None,
    }
}

/// Are these sixty-four characters that read as thirty-two pairs?
pub open spec fn is_hex32(s: Seq<char>) -> bool {
    &&& s.len() == 64
    &&& forall|i: int| 0 <= i < 32 ==> (#[trigger] pair_at(s, i)) is Some
}

/// The thirty-two bytes that sixty-four hexadecimal characters stand for.
pub open spec fn hex32_bytes(s: Seq<char>) -> Option<Seq<u8>> {
    if is_hex32(s) {
        Some(Seq::new(32, |i: int| pair_at(s, i)->0 as u8))
    } else {
        None
    }
}

/// `bytes` as sixty-four lower-case hexadecimal characters.
pub fn hex32(bytes: &[u8; 32]) -> (r: String)
    ensures
        r@ == hex_of(bytes@),
{
    let mut s = String::new();
    let mut i: usize = 0;
    assert(bytes@.take(0) =~= Seq::empty());
    while i < 32
        invariant
            i <= 32,
            bytes@.len() == 32,
            s@ == hex_of(bytes@.take(i as int)),
        decreases 32 - i,
    {
        let pair = to_hex_byte(bytes[i]);
        s.append(pair.as_str());
        assert(bytes@.take(i + 1).drop_last() =~= bytes@.take(i as int));
        i += 1;
    }
    assert(bytes@.take(32) =~= bytes@);
    s
}

fn hex_digit(c: char) -> (r: Option<u8>)
    ensures
        match digit_value(c, 16) {
            Some(d) => r matches Some(v) && v == d && v < 16,
            None => r is None,
        },
{
    if '0' <= c && c <= '9' {
        Some((c as u32 - '0' as u32) as u8)
    } else if 'a' <= c && c <= 'f' {
        Some((c as u32 - 'a' as u32 + 10) as u8)
    } else if 'A' <= c && c <= 'F' {
        Some((c as u32 - 'A' as u32 + 10) as u8)
    } else {
        None
    }
}

/// The thirty-two bytes that sixty-four hexadecimal characters stand for. The text is taken character by
/// character, so one that is not ASCII is refused like any other that is not hexadecimal.
pub fn parse_hex32(s: &str) -> (r: Option<[u8; 32]>)
    ensures
        match hex32_bytes(s@) {
            Some(b) => r matches Some(v) && v@ == b,
            None => r is None,
        },
{
    let v = chars_of(s);
    if v.len() != 64 {
        return None;
    }
    let mut out: [u8; 32] = [0u8; 32];
    let mut i: usize = 0;
    while i < 32
        invariant
            i <= 32,
            v@ == s@,
            v@.len() == 64,
            out@.len() == 32,
            forall|j: int| 0 <= j < i ==> pair_at(s@, j) == Some(#[trigger] out@[j] as nat),
        decreases 32 - i,
    {
        match (hex_digit(v[2 * i]), hex_digit(v[2 * i + 1])) {
            (Some(h), Some(l)) => {
                out[i] = 16 * h + l;
            },
            _ => {
                assert(pair_at(s@, i as int) is None);
                return None;
            },
        }
        i += 1;
    }
    assert forall|j: int| 0 <= j < 32 implies (#[trigger] pair_at(s@, j)) is Some by {
        assert(pair_at(s@, j) == Some(out@[j] as nat));
    }
    assert(out@ =~= hex32_bytes(s@)->0);
    Some(out)
}

/// The pairs of a hexadecimal text are the digits of its bytes.
pub proof fn lemma_hex_of_pairs(bytes: Seq<u8>)
    ensures
        hex_of(bytes).len() == 2 * bytes.len(),
        forall|i: int|
            0 <= i < bytes.len() ==> hex_of(bytes).subrange(2 * i, 2 * i + 2) == hex_byte(
                #[trigger] bytes[i],
            ),
    decreases bytes.len(),
{
    if bytes.len() > 0 {
        let front = bytes.drop_last();
        lemma_hex_of_pairs(front);
        reveal_with_fuel(hex_fixed, 3);
        assert forall|i: int| 0 <= i < bytes.len() implies hex_of(bytes).subrange(2 * i, 2 * i + 2)
            == hex_byte(#[trigger] bytes[i]) by {
            if i < front.len() {
                assert(front[i] == bytes[i]);
                assert(hex_of(bytes).subrange(2 * i, 2 * i + 2) =~= hex_of(front).subrange(
                    2 * i,
                    2 * i + 2,
                ));
            } else {
                assert(hex_of(bytes).subrange(2 * i, 2 * i + 2) =~= hex_byte(bytes.last()));
            }
        }
    }
}

/// The text of thirty-two bytes reads back as those bytes.
pub proof fn lemma_hex32_reads_back(bytes: Seq<u8>)
    requires
        bytes.len() == 32,
    ensures
        hex32_bytes(hex_of(bytes)) == Some(bytes),
{
    lemma_hex_of_pairs(bytes);
    let s = hex_of(bytes);
    assert forall|i: int| 0 <= i < 32 implies (#[trigger] pair_at(s, i)) == Some(bytes[i] as nat) by {
        let b = bytes[i] as nat;
        reveal_with_fuel(hex_fixed, 3);
        let pair = s.subrange(2 * i, 2 * i + 2);
        assert(pair == hex_byte(bytes[i]));
        assert(pair[0] == s[2 * i] && pair[1] == s[2 * i + 1]);
        lemma_digit(b / 16, 16);
        lemma_digit(b % 16, 16);
        assert((b / 16) % 16 == b / 16);
    }
    assert(hex32_bytes(s)->0 =~= bytes);
}

} // verus!
