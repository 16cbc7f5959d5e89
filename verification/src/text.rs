//! Text primitives: the string operations the key formats and the gateway are written in, with
//! their meaning given on sequences of characters.
use vstd::prelude::*;
use vstd::string::*;
use vstd::utf8::{decode_utf8, encode_utf8, valid_utf8};

verus! {

/// Does `s` begin with `p`?
pub open spec fn has_prefix(s: Seq<char>, p: Seq<char>) -> bool {
    s.len() >= p.len() && s.subrange(0, p.len() as int) == p
}

/// What follows `p` in `s`, when `s` begins with `p`.
pub open spec fn after_prefix(s: Seq<char>, p: Seq<char>) -> Option<Seq<char>> {
    if has_prefix(s, p) {
        Some(s.subrange(p.len() as int, s.len() as int))
    } else {
        None
    }
}

/// What stands before `t` at the end of `s`, when `s` ends with `t`.
pub open spec fn before_suffix(s: Seq<char>, t: Seq<char>) -> Option<Seq<char>> {
    if s.len() >= t.len() && s.subrange(s.len() - t.len(), s.len() as int) == t {
        Some(s.subrange(0, s.len() - t.len()))
    } else {
        None
    }
}

/// The index of the first `c` in `s`, or the length of `s` when there is none.
pub open spec fn first_index(s: Seq<char>, c: char) -> int
    decreases s.len(),
{
    if s.len() == 0 {
        0
    } else if s[0] == c {
        0
    } else {
        1 + first_index(s.drop_first(), c)
    }
}

/// The two parts of `s` around its first `c`.
pub open spec fn split_at_first(s: Seq<char>, c: char) -> Option<(Seq<char>, Seq<char>)> {
    let i = first_index(s, c);
    if i < s.len() {
        Some((s.subrange(0, i), s.subrange(i + 1, s.len() as int)))
    } else {
        None
    }
}

/// The part of `s` before its first `c`: all of it when there is none.
pub open spec fn before_first(s: Seq<char>, c: char) -> Seq<char> {
    s.subrange(0, first_index(s, c))
}

/// The two parts of `s` around its last `c`.
pub open spec fn split_at_last(s: Seq<char>, c: char) -> Option<(Seq<char>, Seq<char>)>
    decreases s.len(),
{
    if s.len() == 0 {
        None
    } else if s.last() == c {
        Some((s.drop_last(), Seq::empty()))
    } else {
        match split_at_last(s.drop_last(), c) {
            Some((a, b)) => Some((a, b.push(s.last()))),
            None => None,
        }
    }
}

/// `s` without the run of `c` it ends in.
pub open spec fn trim_end(s: Seq<char>, c: char) -> Seq<char>
    decreases s.len(),
{
    if s.len() > 0 && s.last() == c {
        trim_end(s.drop_last(), c)
    } else {
        s
    }
}

/// The texts of a list of strings.
pub open spec fn texts(v: Seq<String>) -> Seq<Seq<char>> {
    Seq::new(v.len(), |i: int| v[i]@)
}

/// Where [`first_index`] points: nothing before it is `c`, and it is `c` unless it is the end.
pub proof fn lemma_first_index(s: Seq<char>, c: char)
    ensures
        0 <= first_index(s, c) <= s.len(),
        forall|j: int| 0 <= j < first_index(s, c) ==> s[j] != c,
        first_index(s, c) < s.len() ==> s[first_index(s, c)] == c,
    decreases s.len(),
{
    if s.len() > 0 && s[0] != c {
        let t = s.drop_first();
        lemma_first_index(t, c);
        assert forall|j: int| 0 <= j < first_index(s, c) implies s[j] != c by {
            if j > 0 {
                assert(s[j] == t[j - 1]);
            }
        }
    }
}

/// An index with those properties is the one [`first_index`] gives.
pub proof fn lemma_first_index_is(s: Seq<char>, c: char, i: int)
    requires
        0 <= i <= s.len(),
        forall|j: int| 0 <= j < i ==> s[j] != c,
        i < s.len() ==> s[i] == c,
    ensures
        first_index(s, c) == i,
{
    lemma_first_index(s, c);
}

/// Text that holds no `c` splits off whole in front of one.
pub proof fn lemma_split_at_first_of_joined(a: Seq<char>, c: char, b: Seq<char>)
    requires
        !a.contains(c),
    ensures
        split_at_first(a + seq![c] + b, c) == Some((a, b)),
{
    let s = a + seq![c] + b;
    assert forall|j: int| 0 <= j < a.len() implies s[j] != c by {
        assert(s[j] == a[j]);
        assert(a.contains(a[j]));
    }
    lemma_first_index_is(s, c, a.len() as int);
    assert(s.subrange(0, a.len() as int) =~= a);
    assert(s.subrange(a.len() as int + 1, s.len() as int) =~= b);
}

/// Text that holds no `c` splits off whole behind one.
pub proof fn lemma_split_at_last_of_joined(a: Seq<char>, c: char, b: Seq<char>)
    requires
        !b.contains(c),
    ensures
        split_at_last(a + seq![c] + b, c) == Some((a, b)),
    decreases b.len(),
{
    let s = a + seq![c] + b;
    if b.len() == 0 {
        assert(s.last() == c);
        assert(s.drop_last() =~= a);
        assert(b =~= Seq::empty());
    } else {
        let t = b.drop_last();
        assert(b.contains(b.last()));
        assert(s.last() == b.last());
        assert(s.drop_last() =~= a + seq![c] + t);
        assert forall|x: char| t.contains(x) implies b.contains(x) by {
            let j = choose|j: int| 0 <= j < t.len() && t[j] == x;
            assert(b[j] == x);
        }
        lemma_split_at_last_of_joined(a, c, t);
        assert(t.push(b.last()) =~= b);
    }
}

/// Are the two texts the same?
pub(crate) fn same(a: &str, b: &str) -> (r: bool)
    ensures
        r == (a@ == b@),
{
    let x = chars_of(a);
    let y = chars_of(b);
    if x.len() != y.len() {
        return false;
    }
    let mut i: usize = 0;
    while i < x.len()
        invariant
            i <= x@.len() == y@.len(),
            x@ == a@,
            y@ == b@,
            forall|j: int| 0 <= j < i ==> x@[j] == y@[j],
        decreases x@.len() - i,
    {
        if x[i] != y[i] {
            return false;
        }
        i += 1;
    }
    assert(a@ =~= b@);
    true
}

/// The text these bytes spell, where they are UTF-8.
///
/// The check and the conversion are `std::str::from_utf8`, taken to accept exactly the well-formed
/// byte sequences and to decode them.
#[verifier::external_body]
pub(crate) fn from_utf8(bytes: &[u8]) -> (r: Option<String>)
    ensures
        r is Some == valid_utf8(bytes@),
        r matches Some(s) ==> s@ == decode_utf8(bytes@),
{
    std::str::from_utf8(bytes).ok().map(|s| s.to_owned())
}

/// The text of some bytes with what is not UTF-8 in them replaced.
pub uninterp spec fn lossy_text(bytes: Seq<u8>) -> Seq<char>;

/// `String::from_utf8_lossy`: the text of the bytes, which is exact where they are UTF-8.
#[verifier::external_body]
pub(crate) fn from_utf8_lossy(bytes: &[u8]) -> (r: String)
    ensures
        r@ == lossy_text(bytes@),
        valid_utf8(bytes@) ==> r@ == decode_utf8(bytes@),
{
    String::from_utf8_lossy(bytes).into_owned()
}

/// The UTF-8 bytes of `s`.
pub fn utf8_of(s: &str) -> (r: Vec<u8>)
    ensures
        r@ == encode_utf8(s@),
{
    vstd::slice::slice_to_vec(s.as_bytes())
}

/// `String::push`: the character goes to the end and nothing else changes.
#[verifier::external_body]
pub(crate) fn push(s: &mut String, c: char)
    ensures
        final(s)@ == old(s)@.push(c),
{
    s.push(c);
}

/// The characters of `s`, in order.
pub fn chars_of(s: &str) -> (r: Vec<char>)
    ensures
        r@ == s@,
{
    let mut v: Vec<char> = Vec::new();
    for c in it: s.chars()
        invariant
            it.seq() == s@,
            v@ == s@.subrange(0, it.index() as int),
    {
        v.push(c);
        assert(v@ =~= s@.subrange(0, it.index() as int + 1));
    }
    assert(s@.subrange(0, s@.len() as int) =~= s@);
    v
}

/// The text of the characters `from..to` of `v`.
pub fn string_of(v: &Vec<char>, from: usize, to: usize) -> (r: String)
    requires
        from <= to <= v@.len(),
    ensures
        r@ == v@.subrange(from as int, to as int),
{
    let mut s = String::new();
    let mut i: usize = from;
    while i < to
        invariant
            from <= i <= to <= v@.len(),
            s@ == v@.subrange(from as int, i as int),
        decreases to - i,
    {
        push(&mut s, v[i]);
        i += 1;
        assert(s@ =~= v@.subrange(from as int, i as int));
    }
    s
}

/// The same texts again.
pub fn copy_texts(v: &Vec<String>) -> (r: Vec<String>)
    ensures
        texts(r@) == texts(v@),
{
    let mut out: Vec<String> = Vec::new();
    let mut i: usize = 0;
    while i < v.len()
        invariant
            i <= v@.len(),
            out@.len() == i,
            forall|j: int| 0 <= j < i ==> (#[trigger] out@[j])@ == v@[j]@,
        decreases v@.len() - i,
    {
        out.push(v[i].clone());
        i += 1;
    }
    assert(texts(out@) =~= texts(v@));
    out
}

/// `a` followed by `b`.
pub fn join(a: &str, b: &str) -> (r: String)
    ensures
        r@ == a@ + b@,
{
    let mut s = a.to_owned();
    s.append(b);
    s
}

/// Does `s` begin with `p`?
pub fn starts_with(s: &str, p: &str) -> (r: bool)
    ensures
        r == has_prefix(s@, p@),
{
    strip_prefix(s, p).is_some()
}

/// What follows `p` in `s`, or `None` when `s` does not begin with `p`.
pub fn strip_prefix(s: &str, p: &str) -> (r: Option<String>)
    ensures
        r is Some == has_prefix(s@, p@),
        r matches Some(rest) ==> after_prefix(s@, p@) == Some(rest@),
{
    let sv = chars_of(s);
    let pv = chars_of(p);
    if sv.len() < pv.len() {
        return None;
    }
    let mut i: usize = 0;
    while i < pv.len()
        invariant
            i <= pv@.len() <= sv@.len(),
            sv@ == s@,
            pv@ == p@,
            forall|j: int| 0 <= j < i ==> sv@[j] == pv@[j],
        decreases pv@.len() - i,
    {
        if sv[i] != pv[i] {
            assert(s@.subrange(0, p@.len() as int)[i as int] != p@[i as int]);
            return None;
        }
        i += 1;
    }
    assert(s@.subrange(0, p@.len() as int) =~= p@);
    Some(string_of(&sv, pv.len(), sv.len()))
}

/// What stands before `t` at the end of `s`, or `None` when `s` does not end with `t`.
pub fn strip_suffix(s: &str, t: &str) -> (r: Option<String>)
    ensures
        r is Some == before_suffix(s@, t@) is Some,
        r matches Some(rest) ==> before_suffix(s@, t@) == Some(rest@),
{
    let sv = chars_of(s);
    let tv = chars_of(t);
    if sv.len() < tv.len() {
        return None;
    }
    let n: usize = sv.len();
    let from: usize = n - tv.len();
    let mut i: usize = 0;
    while i < tv.len()
        invariant
            i <= tv@.len() <= sv@.len(),
            n == sv@.len(),
            from == n - tv@.len(),
            sv@ == s@,
            tv@ == t@,
            forall|j: int| 0 <= j < i ==> sv@[from + j] == tv@[j],
        decreases tv@.len() - i,
    {
        if sv[from + i] != tv[i] {
            assert(s@.subrange(from as int, s@.len() as int)[i as int] != t@[i as int]);
            return None;
        }
        i += 1;
    }
    assert(s@.subrange(from as int, s@.len() as int) =~= t@);
    Some(string_of(&sv, 0, from))
}

/// The two parts of `s` around its first `c`, or `None` when it holds none.
pub fn split_once(s: &str, c: char) -> (r: Option<(String, String)>)
    ensures
        r is Some == split_at_first(s@, c) is Some,
        r matches Some((a, b)) ==> split_at_first(s@, c) == Some((a@, b@)),
{
    let v = chars_of(s);
    let mut i: usize = 0;
    while i < v.len()
        invariant
            i <= v@.len(),
            v@ == s@,
            forall|j: int| 0 <= j < i ==> v@[j] != c,
        decreases v@.len() - i,
    {
        if v[i] == c {
            proof {
                lemma_first_index_is(s@, c, i as int);
            }
            return Some((string_of(&v, 0, i), string_of(&v, i + 1, v.len())));
        }
        i += 1;
    }
    proof {
        lemma_first_index_is(s@, c, i as int);
    }
    None
}

/// The part of `s` before its first `c`: all of it when it holds none.
pub fn head(s: &str, c: char) -> (r: String)
    ensures
        r@ == before_first(s@, c),
{
    match split_once(s, c) {
        Some((a, _)) => a,
        None => {
            proof {
                lemma_first_index(s@, c);
                assert(s@.subrange(0, s@.len() as int) =~= s@);
            }
            s.to_owned()
        },
    }
}

/// The two parts of `s` around its last `c`, or `None` when it holds none.
pub fn rsplit_once(s: &str, c: char) -> (r: Option<(String, String)>)
    ensures
        r is Some == split_at_last(s@, c) is Some,
        r matches Some((a, b)) ==> split_at_last(s@, c) == Some((a@, b@)),
{
    let v = chars_of(s);
    let mut i: usize = v.len();
    while i > 0
        invariant
            i <= v@.len(),
            v@ == s@,
            forall|j: int| i <= j < v@.len() ==> v@[j] != c,
        decreases i,
    {
        if v[i - 1] == c {
            let a = string_of(&v, 0, i - 1);
            let b = string_of(&v, i, v.len());
            proof {
                assert(s@ =~= a@ + seq![c] + b@);
                lemma_split_at_last_of_joined(a@, c, b@);
            }
            return Some((a, b));
        }
        i -= 1;
    }
    proof {
        lemma_split_at_last_none(s@, c);
    }
    None
}

/// Text without a `c` has no parts around one.
pub proof fn lemma_split_at_last_none(s: Seq<char>, c: char)
    requires
        forall|j: int| 0 <= j < s.len() ==> s[j] != c,
    ensures
        split_at_last(s, c) is None,
    decreases s.len(),
{
    if s.len() > 0 {
        lemma_split_at_last_none(s.drop_last(), c);
    }
}

/// `s` without the run of `c` it ends in.
pub fn trim_end_of(s: &str, c: char) -> (r: String)
    ensures
        r@ == trim_end(s@, c),
{
    let v = chars_of(s);
    let mut i: usize = v.len();
    assert(s@.subrange(0, v@.len() as int) =~= s@);
    while i > 0 && v[i - 1] == c
        invariant
            i <= v@.len(),
            v@ == s@,
            trim_end(s@, c) == trim_end(s@.subrange(0, i as int), c),
        decreases i,
    {
        let ghost t = s@.subrange(0, i as int);
        i -= 1;
        assert(t.drop_last() =~= s@.subrange(0, i as int));
    }
    assert(i > 0 ==> s@.subrange(0, i as int).last() == v@[i - 1]);
    string_of(&v, 0, i)
}

} // verus!
