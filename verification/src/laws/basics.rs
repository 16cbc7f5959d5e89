//! Laws of the plain things everything else is made of: texts, numbers, names, keys, JSON.
use vstd::prelude::*;
use vstd::bytes::*;
use vstd::utf8::*;

use crate::hex::{hex32, parse_hex32};
use crate::http::body::{carried_bytes, clamp, node_at, number_or, payload_at};
use crate::http::reply::{error, failure, ok, serve, Reply};
use crate::json::{member_from, Json, JsonModel};
use crate::keys::{
    cap_key, cap_parts, grp_prefix, is_cap_locality_key, lemma_after_prefix_of_joined, parse_cap_key, slash,
};
use crate::node_id::{contains, insert, lemma_node_text_parses, node_of, nodes, valid_host, NodeId};
use crate::numeral::{
    decimal, lemma_decimal_parses, lemma_hex16_order, lemma_hex16_parses, parse_radix, parsed, to_decimal, to_hex16,
};
use crate::order::{sort, text_at_or_before, Ranked};
use crate::text::{
    head, join, lemma_first_index, lemma_split_at_first_of_joined, rsplit_once, split_at_last, split_once, starts_with,
    strip_prefix, strip_suffix, texts, trim_end, trim_end_of,
};
use crate::wire::{put_text, put_u64, read_text, read_u64};

verus! {

/// A prefix is one where the text begins with it; stripping it leaves what follows.
pub proof fn lemma_prefixes(s: &str, p: &str, r: Option<String>, b: bool, joined: String)
    requires
        call_ensures(strip_prefix, (s, p), r),
        call_ensures(starts_with, (s, p), b),
        call_ensures(join, (p, s), joined),
    ensures
        b <==> r is Some,
        r matches Some(rest) ==> s@ == p@ + rest@,
        (exists|rest: Seq<char>| s@ == #[trigger] (p@ + rest)) ==> r is Some,
        joined@ == p@ + s@,
{
    if r is Some {
        assert(s@ =~= p@ + (r->0)@);
    }
    if exists|rest: Seq<char>| s@ == #[trigger] (p@ + rest) {
        let rest = choose|rest: Seq<char>| s@ == #[trigger] (p@ + rest);
        lemma_after_prefix_of_joined(p@, rest);
    }
}

/// A suffix is one where the text ends with it; stripping it leaves what comes before.
pub proof fn lemma_suffixes(s: &str, t: &str, r: Option<String>)
    requires
        call_ensures(strip_suffix, (s, t), r),
    ensures
        r matches Some(front) ==> s@ == front@ + t@,
        (exists|front: Seq<char>| s@ == #[trigger] (front + t@)) ==> r is Some,
{
    if r is Some {
        assert(s@ =~= (r->0)@ + t@);
    }
    if exists|front: Seq<char>| s@ == #[trigger] (front + t@) {
        let front = choose|front: Seq<char>| s@ == #[trigger] (front + t@);
        assert(s@.subrange(s@.len() - t@.len(), s@.len() as int) =~= t@);
    }
}

/// A text is split at the first, or the last, place where a letter stands: the pieces around it make
/// the text, and the first piece, or the last, is free of it. Where it stands nowhere, nothing is
/// split.
pub proof fn lemma_splits(
    s: &str,
    c: char,
    r: Option<(String, String)>,
    l: Option<(String, String)>,
    h: String,
)
    requires
        call_ensures(split_once, (s, c), r),
        call_ensures(rsplit_once, (s, c), l),
        call_ensures(head, (s, c), h),
    ensures
        r is Some <==> s@.contains(c),
        r matches Some((a, b)) ==> s@ == a@ + seq![c] + b@ && !a@.contains(c) && h@ == a@,
        r is None ==> h@ == s@,
        l is Some <==> s@.contains(c),
        l matches Some((a, b)) ==> s@ == a@ + seq![c] + b@ && !b@.contains(c),
{
    lemma_first_index(s@, c);
    let i = crate::text::first_index(s@, c);
    if s@.contains(c) {
        let k = choose|k: int| 0 <= k < s@.len() && s@[k] == c;
        assert(i <= k);
    }
    if i < s@.len() {
        assert(s@.contains(s@[i]));
        let a = s@.subrange(0, i);
        let b = s@.subrange(i + 1, s@.len() as int);
        assert(s@ =~= a + seq![c] + b);
        assert(!a.contains(c)) by {
            if a.contains(c) {
                let k = choose|k: int| 0 <= k < a.len() && a[k] == c;
                assert(s@[k] == c);
            }
        }
    } else {
        assert(crate::text::before_first(s@, c) =~= s@);
    }
    lemma_last(s@, c);
}

proof fn lemma_last(s: Seq<char>, c: char)
    ensures
        split_at_last(s, c) is Some <==> s.contains(c),
        split_at_last(s, c) matches Some((a, b)) ==> s == a + seq![c] + b && !b.contains(c),
    decreases s.len(),
{
    if s.len() > 0 {
        let front = s.drop_last();
        lemma_last(front, c);
        if s.last() == c {
            assert(s[s.len() - 1] == c);
            assert(s =~= front + seq![c] + Seq::empty());
        } else {
            if front.contains(c) {
                let k = choose|k: int| 0 <= k < front.len() && front[k] == c;
                assert(s[k] == c);
            }
            if s.contains(c) {
                let k = choose|k: int| 0 <= k < s.len() && s[k] == c;
                assert(front[k] == c);
            }
            if split_at_last(front, c) is Some {
                let (a, b) = split_at_last(front, c)->0;
                let longer = b.push(s.last());
                assert(front == a + seq![c] + b);
                assert(s =~= front.push(s.last()));
                assert((a + seq![c] + b).push(s.last()) =~= a + seq![c] + longer);
                assert(!longer.contains(c)) by {
                    if longer.contains(c) {
                        let k = choose|k: int| 0 <= k < longer.len() && longer[k] == c;
                        if k < b.len() {
                            assert(b[k] == c);
                        }
                    }
                }
            }
        }
    }
}

/// Trimming takes away every such letter at the end and nothing else.
pub proof fn lemma_trimming(s: &str, c: char, r: String)
    requires
        call_ensures(trim_end_of, (s, c), r),
    ensures
        r@.len() > 0 ==> r@.last() != c,
        r@.len() <= s@.len(),
        r@ == s@.subrange(0, r@.len() as int),
        forall|i: int| r@.len() <= i < s@.len() ==> #[trigger] s@[i] == c,
{
    lemma_trimmed(s@, c);
}

proof fn lemma_trimmed(s: Seq<char>, c: char)
    ensures
        trim_end(s, c).len() > 0 ==> trim_end(s, c).last() != c,
        trim_end(s, c).len() <= s.len(),
        trim_end(s, c) == s.subrange(0, trim_end(s, c).len() as int),
        forall|i: int| trim_end(s, c).len() <= i < s.len() ==> #[trigger] s[i] == c,
    decreases s.len(),
{
    if s.len() > 0 && s.last() == c {
        let front = s.drop_last();
        lemma_trimmed(front, c);
        let t = trim_end(s, c);
        assert(front.subrange(0, t.len() as int) =~= s.subrange(0, t.len() as int));
        assert forall|i: int| t.len() <= i < s.len() implies #[trigger] s[i] == c by {
            if i < front.len() {
                assert(front[i] == c);
            }
        }
    } else {
        assert(s.subrange(0, s.len() as int) =~= s);
    }
}

/// Numbers read back as they were written, in decimal and in sixteen hexadecimal digits, and the
/// latter are in the order of the numbers.
pub proof fn lemma_numbers_read_back(n: u64, m: u64, d: String, h: String, g: String, s: &str, t: &str, rd: Option<u64>, rh: Option<u64>)
    requires
        call_ensures(to_decimal, (n,), d),
        call_ensures(to_hex16, (n,), h),
        call_ensures(to_hex16, (m,), g),
        s@ == d@,
        t@ == h@,
        call_ensures(parse_radix, (s, 10), rd),
        call_ensures(parse_radix, (t, 16), rh),
    ensures
        rd == Some(n),
        rh == Some(n),
        h@.len() == 16,
        n <= m <==> crate::order::text_le(h@, g@),
{
    lemma_decimal_parses(n);
    lemma_hex16_parses(n);
    lemma_hex16_order(n, m);
}

/// Thirty-two bytes read back from their hexadecimal digits.
pub proof fn lemma_hex_reads_back(b: &[u8; 32], h: String, s: &str, r: Option<[u8; 32]>)
    requires
        call_ensures(hex32, (b,), h),
        s@ == h@,
        call_ensures(parse_hex32, (s,), r),
    ensures
        r matches Some(v) && v@ == b@,
        h@.len() == 64,
{
    crate::hex::lemma_hex32_reads_back(b@);
    crate::hex::lemma_hex_of_pairs(b@);
}

/// What is no run of sixty-four hexadecimal digits is no key.
pub proof fn lemma_hex_needs_its_length(s: &str, r: Option<[u8; 32]>)
    requires
        call_ensures(parse_hex32, (s,), r),
        s@.len() != 64,
    ensures
        r is None,
{
}

/// A node's name is its host, a colon and its port, reads back as the node, and is no other node's;
/// a host that is empty or holds a slash names nobody.
pub proof fn lemma_node_names(host: &str, port: u16, r: Result<NodeId, String>, t: String, s: &str, back: Option<NodeId>)
    requires
        call_ensures(NodeId::new, (host, port), r),
        r is Ok,
        call_ensures(NodeId::text, (&r->Ok_0,), t),
        s@ == t@,
        call_ensures(NodeId::parse, (s,), back),
    ensures
        host@.len() > 0 && !host@.contains('/'),
        t@ == host@ + ":"@ + decimal(port as nat),
        back matches Some(n) && n@ == (r->Ok_0)@,
        (r->Ok_0)@.host == host@ && (r->Ok_0)@.port == port,
{
    reveal_strlit(":");
    assert(t@ =~= host@ + ":"@ + decimal(port as nat));
    lemma_node_text_parses((r->Ok_0)@);
}

/// What reads as a node is a host, a colon and a port; the host is not empty and holds no slash.
pub proof fn lemma_read_nodes(s: &str, r: Option<NodeId>, host: &str, port: u16, n: Result<NodeId, String>)
    requires
        call_ensures(NodeId::parse, (s,), r),
        call_ensures(NodeId::new, (host, port), n),
    ensures
        r matches Some(m) ==> m@.host.len() > 0 && !m@.host.contains('/') && exists|digits: Seq<char>|
            s@ == m@.host + seq![':'] + digits && parsed(digits, 10) == Some(m@.port as nat),
        n is Ok <==> host@.len() > 0 && !host@.contains('/'),
        !s@.contains(':') ==> r is None,
{
    lemma_last(s@, ':');
    if r is Some {
        let (h, digits) = split_at_last(s@, ':')->0;
        assert(s@ == h + seq![':'] + digits);
    }
}

/// Nodes are one where their hosts and ports are.
pub proof fn lemma_same_nodes(a: &NodeId, b: &NodeId, r: bool, v: &Vec<NodeId>, c: bool, w: &mut Vec<NodeId>, n: NodeId)
    requires
        call_ensures(NodeId::is, (a, b), r),
        call_ensures(contains, (v, a), c),
        call_ensures(insert, (w, n), ()),
    ensures
        r <==> a@.host == b@.host && a@.port == b@.port,
        c <==> exists|i: int| 0 <= i < v@.len() && (#[trigger] v@[i])@ == a@,
        nodes(final(w)@).contains(n@),
        nodes(old(w)@).contains(n@) ==> nodes(final(w)@) == nodes(old(w)@),
        !nodes(old(w)@).contains(n@) ==> nodes(final(w)@) == nodes(old(w)@).push(n@),
{
    crate::laws::governor::lemma_found(v@, a@);
    let x = a@;
    let y = b@;
    assert(x.host == y.host && x.port == y.port ==> x =~= y);
    if !nodes(old(w)@).contains(n@) {
        assert(nodes(final(w)@)[nodes(old(w)@).len() as int] == n@);
    }
}

/// A capability's key is made of its node, namespace and name, and gives them back; what is read as
/// one begins with `cap/`, has a node next, and the namespace up to the following slash.
pub proof fn lemma_capability_keys(
    node: &NodeId,
    ns: &str,
    name: &str,
    k: String,
    s: &str,
    r: Option<(NodeId, String, String)>,
    any: &str,
    p: Option<(NodeId, String, String)>,
)
    requires
        call_ensures(cap_key, (node, ns, name), k),
        s@ == k@,
        call_ensures(parse_cap_key, (s,), r),
        call_ensures(parse_cap_key, (any,), p),
        valid_host(node@.host),
        !ns@.contains('/'),
    ensures
        k@ == "cap/"@ + node@.text() + "/"@ + ns@ + "/"@ + name@,
        r matches Some((n, x, y)) && n@ == node@ && x@ == ns@ && y@ == name@,
        p matches Some((n, x, y)) ==> exists|id: Seq<char>|
            #![trigger node_of(id)]
            any@ == "cap/"@ + id + "/"@ + x@ + "/"@ + y@ && node_of(id) == Some(n@) && !id.contains('/')
                && !x@.contains('/'),
{
    reveal_strlit("/");
    assert(k@ =~= "cap/"@ + node@.text() + "/"@ + ns@ + "/"@ + name@);
    crate::keys::lemma_cap_key_parts(node@, ns@, name@);
    if p is Some {
        lemma_cap_parts(any@);
    }
}

/// The parts of a capability's key make the key.
pub proof fn lemma_cap_parts(key: Seq<char>)
    requires
        cap_parts(key) is Some,
    ensures
        exists|id: Seq<char>|
            #![trigger node_of(id)]
            key == "cap/"@ + id + "/"@ + (cap_parts(key)->0).1 + "/"@ + (cap_parts(key)->0).2 && node_of(id) == Some(
                (cap_parts(key)->0).0,
            ) && !id.contains('/') && !(cap_parts(key)->0).1.contains('/'),
{
    reveal_strlit("/");
    let rest = crate::text::after_prefix(key, "cap/"@)->0;
    let (id, cap) = crate::text::split_at_first(rest, '/')->0;
    let (ns, name) = crate::text::split_at_first(cap, '/')->0;
    lemma_first_split(rest, '/');
    lemma_first_split(cap, '/');
    assert(key =~= "cap/"@ + rest);
    assert(key =~= "cap/"@ + id + "/"@ + ns + "/"@ + name);
    assert(node_of(id) == Some((cap_parts(key)->0).0));
}

proof fn lemma_first_split(s: Seq<char>, c: char)
    requires
        crate::text::split_at_first(s, c) is Some,
    ensures
        s == (crate::text::split_at_first(s, c)->0).0 + seq![c] + (crate::text::split_at_first(s, c)->0).1,
        !(crate::text::split_at_first(s, c)->0).0.contains(c),
{
    lemma_first_index(s, c);
    let i = crate::text::first_index(s, c);
    let a = s.subrange(0, i);
    assert(s =~= a + seq![c] + s.subrange(i + 1, s.len() as int));
    if a.contains(c) {
        let k = choose|k: int| 0 <= k < a.len() && a[k] == c;
        assert(s[k] == c);
    }
}

/// A locality key is a node's name between `cap/` and `/locality/self`, and no other key is one.
pub proof fn lemma_locality_keys(key: &str, r: bool)
    requires
        call_ensures(is_cap_locality_key, (key,), r),
    ensures
        r <==> exists|id: Seq<char>| key@ == #[trigger] ("cap/"@ + id + "/locality/self"@) && !id.contains('/'),
{
    reveal_strlit("/locality/self");
    reveal_strlit("locality/self");
    assert("/locality/self"@ =~= seq!['/'] + "locality/self"@);
    if r {
        let rest = crate::text::after_prefix(key@, "cap/"@)->0;
        let (id, t) = crate::text::split_at_first(rest, '/')->0;
        lemma_first_split(rest, '/');
        assert(t == "locality/self"@);
        assert(key@ =~= "cap/"@ + rest);
        assert("cap/"@ + (id + seq!['/'] + "locality/self"@) =~= "cap/"@ + id + (seq!['/'] + "locality/self"@));
        assert(key@ == "cap/"@ + id + "/locality/self"@);
    }
    if exists|id: Seq<char>| key@ == #[trigger] ("cap/"@ + id + "/locality/self"@) && !id.contains('/') {
        let id = choose|id: Seq<char>| key@ == #[trigger] ("cap/"@ + id + "/locality/self"@) && !id.contains('/');
        let rest = id + seq!['/'] + "locality/self"@;
        assert(key@ =~= "cap/"@ + rest);
        lemma_after_prefix_of_joined("cap/"@, rest);
        lemma_split_at_first_of_joined(id, '/', "locality/self"@);
    }
}

/// A group's members stand under its own name.
pub proof fn lemma_group_prefix(group: &str, r: String, a: &str, b: &str, s: String)
    requires
        call_ensures(grp_prefix, (group,), r),
        call_ensures(slash, (a, b), s),
    ensures
        r@ == "grp/"@ + group@ + "/"@,
        s@ == a@ + "/"@ + b@,
{
    reveal_strlit("/");
    assert(s@ =~= a@ + "/"@ + b@);
}

/// Two texts are in the order of their letters: a text comes after its own beginnings, and the first
/// letter that differs decides.
pub proof fn lemma_text_order(a: &str, b: &str, r: bool, s: bool)
    requires
        call_ensures(text_at_or_before, (a, b), r),
        call_ensures(text_at_or_before, (b, a), s),
    ensures
        r || s,
        r && s <==> a@ == b@,
        a@.len() > 0 && b@.len() > 0 && a@[0] != b@[0] ==> (r <==> a@[0] < b@[0]),
        (exists|t: Seq<char>| b@ == #[trigger] (a@ + t)) ==> r,
{
    crate::order::lemma_text_le_total(a@, b@);
    if a@ == b@ {
        crate::order::lemma_text_le_total(a@, a@);
    }
    if exists|t: Seq<char>| b@ == #[trigger] (a@ + t) {
        let t = choose|t: Seq<char>| b@ == #[trigger] (a@ + t);
        crate::order::lemma_text_le_prefix(a@, Seq::empty(), t);
        assert(a@ + Seq::empty() =~= a@);
    }
}

/// Sorting keeps what is there and puts it in order.
pub proof fn lemma_sorting<T: Ranked>(v: Vec<T>, r: Vec<T>)
    requires
        call_ensures(sort::<T>, (v,), r),
    ensures
        r@.to_multiset() == v@.to_multiset(),
        forall|i: int, j: int|
            #![trigger r@[i], r@[j]]
            0 <= i < j < r@.len() ==> r@[i].at_or_before(&r@[j]),
{
}

/// A member of an object is the value of the first field of that name; of anything else there is
/// none.
pub proof fn lemma_members(j: &Json, key: &str, g: Option<&Json>, a: Json)
    requires
        call_ensures(Json::get, (j, key), g),
        call_ensures(Json::at, (j, key), a),
    ensures
        !(j@ is Obj) ==> g is None,
        j@ matches JsonModel::Obj(f) ==> {
            &&& g is None <==> forall|i: int| 0 <= i < f.len() ==> (#[trigger] f[i]).0 != key@
            &&& g matches Some(v) ==> exists|i: int|
                0 <= i < f.len() && (#[trigger] f[i]).0 == key@ && f[i].1 == v@ && forall|l: int|
                    0 <= l < i ==> (#[trigger] f[l]).0 != key@
        },
        g matches Some(v) ==> a@ == v@,
        g is None ==> a@ == JsonModel::Null,
{
    if j@ is Obj {
        lemma_member(j@->Obj_0, key@, 0);
    }
}

proof fn lemma_member(f: Seq<(Seq<char>, JsonModel)>, key: Seq<char>, i: int)
    requires
        0 <= i <= f.len(),
    ensures
        member_from(f, key, i) is None <==> forall|l: int| i <= l < f.len() ==> (#[trigger] f[l]).0 != key,
        member_from(f, key, i) matches Some(v) ==> exists|k: int|
            i <= k < f.len() && (#[trigger] f[k]).0 == key && f[k].1 == v && forall|l: int|
                i <= l < k ==> (#[trigger] f[l]).0 != key,
    decreases f.len() - i,
{
    if i < f.len() {
        lemma_member(f, key, i + 1);
        if f[i].0 != key && member_from(f, key, i) is Some {
            let v = member_from(f, key, i)->0;
            let k = choose|k: int|
                i + 1 <= k < f.len() && (#[trigger] f[k]).0 == key && f[k].1 == v && forall|l: int|
                    i + 1 <= l < k ==> (#[trigger] f[l]).0 != key;
            assert(f[k].0 == key);
        }
    }
}

/// A value is read as what it is and as nothing else.
pub proof fn lemma_values_are_read_as_they_are(
    j: &Json,
    s: Option<&str>,
    n: Option<u64>,
    b: Option<bool>,
    v: Option<&Vec<Json>>,
    c: Json,
)
    requires
        call_ensures(Json::as_str, (j,), s),
        call_ensures(Json::as_u64, (j,), n),
        call_ensures(Json::as_bool, (j,), b),
        call_ensures(Json::as_array, (j,), v),
        call_ensures(Json::copy, (j,), c),
    ensures
        s is Some <==> j@ is Str,
        s matches Some(t) ==> j@ == JsonModel::Str(t@),
        n is Some <==> j@ is Int && j@->Int_0 >= 0,
        n matches Some(k) ==> j@ == JsonModel::Int(k as int),
        b is Some <==> j@ is Bool,
        b matches Some(t) ==> j@ == JsonModel::Bool(t),
        v is Some <==> j@ is Arr,
        v matches Some(w) ==> j@->Arr_0.len() == w@.len() && forall|i: int|
            0 <= i < w@.len() ==> j@->Arr_0[i] == (#[trigger] w@[i])@,
        c@ == j@,
{
    if v is Some {
        let w = (v->0)@;
        assert forall|i: int| 0 <= i < w.len() implies j@->Arr_0[i] == (#[trigger] w[i])@ by {
            assert(j@.elements()->0[i] == w[i]@);
        }
    }
}

/// A field that is put into an object is read from it, where it had none of that name before, and
/// every other member stays as it was.
pub proof fn lemma_put_fields_are_read(j: Json, key: &str, value: Json, r: Json, other: Seq<char>)
    requires
        j@ is Obj,
        call_ensures(Json::with, (j, key, value), r),
        other != key@,
    ensures
        j@.member(key@) is None ==> r@.member(key@) == Some(value@),
        r@.member(other) == j@.member(other),
{
    let f = j@->Obj_0;
    lemma_pushed_member(f, key@, value@, key@, 0);
    lemma_pushed_member(f, key@, value@, other, 0);
}

proof fn lemma_pushed_member(f: Seq<(Seq<char>, JsonModel)>, key: Seq<char>, value: JsonModel, name: Seq<char>, i: int)
    requires
        0 <= i <= f.len(),
    ensures
        member_from(f.push((key, value)), name, i) == match member_from(f, name, i) {
            Some(v) => Some(v),
            None => if name == key {
                Some(value)
            } else {
                None
            },
        },
    decreases f.len() - i,
{
    let g = f.push((key, value));
    if i < f.len() {
        assert(g[i] == f[i]);
        lemma_pushed_member(f, key, value, name, i + 1);
    } else {
        reveal_with_fuel(member_from, 2);
        assert(g[i] == (key, value));
    }
}

/// What a request's fields carry: the bytes of its base64, none where the field is missing; the
/// node it names; the number, or the one to take instead; a number within its bounds.
pub proof fn lemma_request_fields(
    body: &Json,
    key: &str,
    other: u64,
    p: Option<Vec<u8>>,
    n: Option<NodeId>,
    m: u64,
    b64: Option<&str>,
    c: Option<Vec<u8>>,
    x: u64,
    lo: u64,
    hi: u64,
    y: u64,
)
    requires
        call_ensures(payload_at, (body, key), p),
        call_ensures(node_at, (body, key), n),
        call_ensures(number_or, (body, key, other), m),
        call_ensures(carried_bytes, (b64,), c),
        lo <= hi,
        call_ensures(clamp, (x, lo, hi), y),
    ensures
        body@.at(key@) matches JsonModel::Str(t) ==> (p is Some <==> crate::b64::base64_bytes(t) is Some) && (p is Some
            ==> crate::b64::base64_bytes(t) == Some((p->0)@)),
        !(body@.at(key@) is Str) ==> p is Some && (p->0)@.len() == 0 && n is None,
        body@.at(key@) matches JsonModel::Str(t) ==> (n is Some <==> node_of(t) is Some) && (n is Some ==> node_of(t)
            == Some((n->0)@)),
        body@.at(key@) matches JsonModel::Int(k) ==> (0 <= k <= u64::MAX ==> m == k),
        !(body@.at(key@) is Int) ==> m == other,
        b64 is None ==> c is Some && (c->0)@.len() == 0,
        b64 matches Some(t) ==> (c is Some ==> crate::b64::base64_bytes(t@) == Some((c->0)@)),
        lo <= y <= hi,
        lo <= x <= hi ==> y == x,
        x < lo ==> y == lo,
        x > hi ==> y == hi,
{
}

/// Answers carry their status and what they say.
pub proof fn lemma_answers(status: u16, message: &str, body: Json, e: Reply, f: Reply, s: Reply, o: Reply)
    requires
        call_ensures(error, (status, message), e),
        call_ensures(failure, (status, message), f),
        call_ensures(serve, (body,), s),
        call_ensures(ok, (), o),
    ensures
        e.status == status && e.body@.at("error"@) == JsonModel::Str(message@),
        f.status == status && f.body@.at("error"@) == JsonModel::Str(message@) && f.body@.at("ok"@) == JsonModel::Bool(
            false,
        ),
        s.status == 200 && s.body@ == body@,
        o.status == 200 && o.body@.at("ok"@) == JsonModel::Bool(true),
{
    assert(e.status == e@.status && e.body@ == e@.body);
    assert(f.status == f@.status && f.body@ == f@.body);
    assert(s.status == s@.status && s.body@ == s@.body);
    assert(o.status == o@.status && o.body@ == o@.body);
    reveal_with_fuel(member_from, 3);
    reveal_strlit("ok");
    reveal_strlit("error");
    assert("ok"@.len() == 2 && "error"@.len() == 5);
}

/// Numbers and counted texts put on the wire are read from where they were put.
pub proof fn lemma_wire_reads_back(
    v: &mut Vec<u8>,
    n: u64,
    w: &mut Vec<u8>,
    s: &str,
    b: &[u8],
    at: usize,
    c: &[u8],
    from: usize,
    rn: u64,
    rs: Option<(String, usize)>,
)
    requires
        call_ensures(put_u64, (v, n), ()),
        call_ensures(put_text, (w, s), ()),
        b@ == final(v)@,
        at == old(v)@.len(),
        c@ == final(w)@,
        from == old(w)@.len(),
        encode_utf8(s@).len() <= u64::MAX,
        call_ensures(read_u64, (b, at), rn),
        call_ensures(read_text, (c, from), rs),
    ensures
        rn == n,
        rs matches Some((t, end)) && t@ == s@ && end == final(w)@.len(),
{
    crate::wire::lemma_number_reads_back(old(v)@, n, Seq::empty());
    assert(old(v)@ + spec_u64_to_le_bytes(n) + Seq::<u8>::empty() =~= final(v)@);
    crate::wire::lemma_text_reads_back(old(w)@, s@, Seq::empty());
    assert(old(w)@ + crate::wire::counted(s@) + Seq::<u8>::empty() =~= final(w)@);
}

} // verus!
