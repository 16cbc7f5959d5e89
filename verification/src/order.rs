//! Orders and sorting: the order of keys, and a sort that keeps every element.
use crate::text::chars_of;
use vstd::multiset::Multiset;
use vstd::prelude::*;

verus! {

/// The order of texts: character by character, a shorter text before its continuations.
pub open spec fn text_le(a: Seq<char>, b: Seq<char>) -> bool
    decreases a.len(),
{
    if a.len() == 0 {
        true
    } else if b.len() == 0 {
        false
    } else if a[0] == b[0] {
        text_le(a.drop_first(), b.drop_first())
    } else {
        a[0] < b[0]
    }
}

/// The order of texts is total.
pub proof fn lemma_text_le_total(a: Seq<char>, b: Seq<char>)
    ensures
        text_le(a, b) || text_le(b, a),
        text_le(a, b) && text_le(b, a) ==> a == b,
    decreases a.len(),
{
    if a.len() == 0 {
        if b.len() == 0 {
            assert(a =~= b);
        }
    } else if b.len() > 0 && a[0] == b[0] {
        lemma_text_le_total(a.drop_first(), b.drop_first());
        if a.drop_first() == b.drop_first() {
            assert(a =~= seq![a[0]] + a.drop_first());
            assert(b =~= seq![b[0]] + b.drop_first());
        }
    }
}

/// The order of texts is transitive.
pub proof fn lemma_text_le_transitive(a: Seq<char>, b: Seq<char>, c: Seq<char>)
    requires
        text_le(a, b),
        text_le(b, c),
    ensures
        text_le(a, c),
    decreases a.len(),
{
    if a.len() > 0 && b.len() > 0 && c.len() > 0 && a[0] == b[0] && b[0] == c[0] {
        lemma_text_le_transitive(a.drop_first(), b.drop_first(), c.drop_first());
    }
}

/// A common beginning does not change the order.
pub proof fn lemma_text_le_prefix(p: Seq<char>, a: Seq<char>, b: Seq<char>)
    ensures
        text_le(p + a, p + b) == text_le(a, b),
    decreases p.len(),
{
    if p.len() == 0 {
        assert(p + a =~= a);
        assert(p + b =~= b);
    } else {
        lemma_text_le_prefix(p.drop_first(), a, b);
        assert((p + a).drop_first() =~= p.drop_first() + a);
        assert((p + b).drop_first() =~= p.drop_first() + b);
    }
}

/// Of two texts as long as each other, one more character at the end counts only between equals.
pub proof fn lemma_text_le_push(s: Seq<char>, t: Seq<char>, x: char, y: char)
    requires
        s.len() == t.len(),
    ensures
        text_le(s.push(x), t.push(y)) == if s == t {
            x <= y
        } else {
            text_le(s, t)
        },
    decreases s.len(),
{
    let a = s.push(x);
    let b = t.push(y);
    if s.len() == 0 {
        assert(s =~= t);
        assert(a.drop_first() =~= Seq::empty());
        assert(text_le(a.drop_first(), b.drop_first()));
    } else {
        assert(a[0] == s[0] && b[0] == t[0]);
        assert(a.drop_first() =~= s.drop_first().push(x));
        assert(b.drop_first() =~= t.drop_first().push(y));
        if s[0] == t[0] {
            lemma_text_le_push(s.drop_first(), t.drop_first(), x, y);
            if s.drop_first() == t.drop_first() {
                assert(s =~= seq![s[0]] + s.drop_first());
                assert(t =~= seq![t[0]] + t.drop_first());
            }
        }
    }
}

/// Is `a` at or before `b` in the order of texts?
pub fn text_at_or_before(a: &str, b: &str) -> (r: bool)
    ensures
        r == text_le(a@, b@),
{
    let x = chars_of(a);
    let y = chars_of(b);
    let mut i: usize = 0;
    assert(a@.skip(0) =~= a@);
    assert(b@.skip(0) =~= b@);
    while i < x.len() && i < y.len()
        invariant
            x@ == a@,
            y@ == b@,
            i <= x@.len(),
            i <= y@.len(),
            text_le(a@, b@) == text_le(a@.skip(i as int), b@.skip(i as int)),
        decreases x@.len() - i,
    {
        if x[i] != y[i] {
            assert(a@.skip(i as int)[0] == x@[i as int]);
            assert(b@.skip(i as int)[0] == y@[i as int]);
            return x[i] < y[i];
        }
        assert(a@.skip(i as int).drop_first() =~= a@.skip(i + 1));
        assert(b@.skip(i as int).drop_first() =~= b@.skip(i + 1));
        i += 1;
    }
    i == x.len()
}

/// What can be sorted: a total order, and how to ask it.
pub trait Ranked: Sized {
    /// At or before.
    spec fn at_or_before(&self, other: &Self) -> bool;

    /// The order is total and transitive.
    proof fn lemma_order(a: &Self, b: &Self, c: &Self)
        ensures
            a.at_or_before(b) || b.at_or_before(a),
            a.at_or_before(b) && b.at_or_before(c) ==> a.at_or_before(c),
    ;

    /// Is this at or before the other?
    fn rank(&self, other: &Self) -> (r: bool)
        ensures
            r == self.at_or_before(other),
    ;
}

/// Is the sequence in order?
pub open spec fn sorted<T: Ranked>(s: Seq<T>) -> bool {
    forall|i: int, j: int|
        #![trigger s[i], s[j]]
        0 <= i < j < s.len() ==> s[i].at_or_before(&s[j])
}

/// The elements of the same rank as `x`, in the order they stand in.
pub open spec fn tied_with<T: Ranked>(s: Seq<T>, x: T) -> Seq<T> {
    s.filter(|y: T| x.at_or_before(&y) && y.at_or_before(&x))
}

/// The same elements, in order. Elements of one rank keep their order among themselves.
pub fn sort<T: Ranked>(v: Vec<T>) -> (r: Vec<T>)
    ensures
        sorted(r@),
        r@.to_multiset() == v@.to_multiset(),
        r@.len() == v@.len(),
        forall|x: T| #[trigger] tied_with(r@, x) == tied_with(v@, x),
{
    broadcast use vstd::seq_lib::group_to_multiset_ensures;

    let ghost given = v@;
    let ghost whole = v@.to_multiset();
    let ghost n = v@.len();
    let mut rest = v;
    let mut out: Vec<T> = Vec::new();
    proof {
        assert(out@.to_multiset().add(rest@.to_multiset()) =~= whole);
        assert forall|x: T| tied_with(out@, x) + #[trigger] tied_with(rest@, x) == tied_with(given, x) by {
            reveal(Seq::filter);
            assert(tied_with(out@, x) =~= Seq::empty());
            assert(tied_with(out@, x) + tied_with(rest@, x) =~= tied_with(given, x));
        }
    }
    while rest.len() > 0
        invariant
            sorted(out@),
            forall|x: T| tied_with(out@, x) + #[trigger] tied_with(rest@, x) == tied_with(given, x),
            out@.to_multiset().add(rest@.to_multiset()) == whole,
            out@.len() + rest@.len() == n,
        decreases rest@.len(),
    {
        broadcast use vstd::seq_lib::group_to_multiset_ensures;

        let ghost rest0 = rest@;
        let ghost out0 = out@;
        let x = rest.remove(0);
        assert(rest0.remove(0) =~= rest@);
        let at: usize = place(&out, &x);
        let ghost gx = x;
        out.insert(at, x);
        proof {
            lemma_insert_sorted(out0, gx, at as int);
            assert(out@ =~= out0.insert(at as int, gx));
            assert(out@.to_multiset() =~= out0.to_multiset().insert(gx));
            assert(rest@.to_multiset() =~= rest0.to_multiset().remove(gx));
            assert(rest0[0] == gx);
            assert(rest0.to_multiset().contains(gx));
            assert(out@.to_multiset().add(rest@.to_multiset()) =~= whole);
            assert forall|x: T| tied_with(out@, x) + #[trigger] tied_with(rest@, x) == tied_with(given, x) by {
                lemma_insert_tied(out0, gx, at as int, x);
                assert(rest0 =~= seq![gx] + rest@);
                assert(tied_with(out0, x) + tied_with(rest0, x) == tied_with(given, x));
                lemma_tied_append(seq![gx], rest@, x);
                assert(tied_with(out0, x) + (tied_with(seq![gx], x) + tied_with(rest@, x)) =~= (tied_with(
                    out0,
                    x,
                ) + tied_with(seq![gx], x)) + tied_with(rest@, x));
            }
        }
    }
    proof {
        assert(rest@.to_multiset() =~= Multiset::empty());
        assert(out@.to_multiset() =~= whole);
        assert forall|x: T| #[trigger] tied_with(out@, x) == tied_with(given, x) by {
            reveal(Seq::filter);
            assert(tied_with(rest@, x) =~= Seq::empty());
            assert(tied_with(out@, x) + tied_with(rest@, x) =~= tied_with(out@, x));
        }
    }
    out
}

proof fn lemma_tied_append<T: Ranked>(a: Seq<T>, b: Seq<T>, x: T)
    ensures
        tied_with(a + b, x) == tied_with(a, x) + tied_with(b, x),
{
    Seq::filter_distributes_over_add(a, b, |y: T| x.at_or_before(&y) && y.at_or_before(&x));
}

/// Behind everything at or before it, and before everything else, an element comes last of its rank.
proof fn lemma_insert_tied<T: Ranked>(s: Seq<T>, g: T, at: int, x: T)
    requires
        0 <= at <= s.len(),
        forall|i: int| #![trigger s[i]] at <= i < s.len() ==> !s[i].at_or_before(&g),
    ensures
        tied_with(s.insert(at, g), x) == tied_with(s, x) + tied_with(seq![g], x),
{
    let front = s.take(at);
    let back = s.skip(at);
    let tied = |y: T| x.at_or_before(&y) && y.at_or_before(&x);
    assert(s =~= front + back);
    assert(s.insert(at, g) =~= (front + seq![g]) + back);
    lemma_tied_append(front, back, x);
    lemma_tied_append(front + seq![g], back, x);
    lemma_tied_append(front, seq![g], x);
    reveal(Seq::filter);
    let f = tied_with(front, x);
    let b = tied_with(back, x);
    let m = tied_with(seq![g], x);
    assert(seq![g].drop_last() =~= Seq::empty());
    if tied(g) {
        assert forall|i: int| 0 <= i < back.len() implies !tied(#[trigger] back[i]) by {
            assert(back[i] == s[at + i]);
            T::lemma_order(&back[i], &x, &g);
        }
        if b.len() > 0 {
            back.lemma_filter_pred(tied, 0);
            back.lemma_filter_contains_rev(tied, b[0]);
            let i = choose|i: int| 0 <= i < back.len() && back[i] == b[0];
            assert(!tied(back[i]));
        }
        assert(b =~= Seq::empty());
        assert((f + m) + b =~= (f + b) + m);
    } else {
        let one = seq![g];
        if m.len() > 0 {
            one.lemma_filter_pred(tied, 0);
            one.lemma_filter_contains_rev(tied, m[0]);
            assert(one[0] == m[0]);
        }
        assert(m =~= Seq::empty());
        assert((f + m) + b =~= (f + b) + m);
    }
}

/// Taking each element for another thing and then choosing is choosing first, by what it is taken for.
pub proof fn lemma_filter_mapped<A, B>(s: Seq<A>, f: spec_fn(A) -> B, p: spec_fn(B) -> bool)
    ensures
        s.map_values(f).filter(p) == s.filter(|a: A| p(f(a))).map_values(f),
    decreases s.len(),
{
    reveal(Seq::filter);
    let q = |a: A| p(f(a));
    if s.len() == 0 {
        assert(s.map_values(f).filter(p) =~= s.filter(q).map_values(f));
    } else {
        lemma_filter_mapped(s.drop_last(), f, p);
        assert(s.map_values(f).drop_last() =~= s.drop_last().map_values(f));
        assert(s.map_values(f).last() == f(s.last()));
        let front = s.drop_last().filter(q);
        assert(s.drop_last().map_values(f).filter(p) == front.map_values(f));
        if p(f(s.last())) {
            assert(q(s.last()));
            assert(s.filter(q) == front.push(s.last()));
            assert(front.push(s.last()).map_values(f) =~= front.map_values(f).push(f(s.last())));
        } else {
            assert(!q(s.last()));
        }
        assert(s.map_values(f).filter(p) =~= s.filter(q).map_values(f));
    }
}

/// Two arrangements of the same elements stay so when each element is taken for another thing.
pub proof fn lemma_arrangement_mapped<A, B>(s: Seq<A>, t: Seq<A>, f: spec_fn(A) -> B)
    requires
        s.to_multiset() == t.to_multiset(),
    ensures
        s.map_values(f).to_multiset() == t.map_values(f).to_multiset(),
    decreases s.len(),
{
    broadcast use vstd::seq_lib::group_to_multiset_ensures;

    assert(s.len() == s.to_multiset().len() && t.len() == t.to_multiset().len());
    if s.len() == 0 {
        assert(s.map_values(f) =~= t.map_values(f));
    } else {
        let x = s.last();
        assert(s[s.len() - 1] == x);
        assert(s.contains(x));
        assert(t.to_multiset().count(x) > 0);
        let j = choose|j: int| 0 <= j < t.len() && t[j] == x;
        let s0 = s.remove(s.len() - 1);
        let t0 = t.remove(j);
        assert(s0.to_multiset() =~= t0.to_multiset());
        lemma_arrangement_mapped(s0, t0, f);
        let sm = s.map_values(f);
        let tm = t.map_values(f);
        assert(sm.remove(s.len() - 1) =~= s0.map_values(f));
        assert(tm.remove(j) =~= t0.map_values(f));
        assert(sm[s.len() - 1] == f(x) && tm[j] == f(x));
        assert(sm.contains(f(x)) && tm.contains(f(x)));
        assert(sm.to_multiset().remove(f(x)) == tm.to_multiset().remove(f(x)));
        assert(sm.to_multiset() =~= sm.to_multiset().remove(f(x)).insert(f(x)));
        assert(tm.to_multiset() =~= tm.to_multiset().remove(f(x)).insert(f(x)));
    }
}

/// Where `x` goes in `out`: behind everything at or before it.
fn place<T: Ranked>(out: &Vec<T>, x: &T) -> (at: usize)
    requires
        sorted(out@),
    ensures
        at <= out@.len(),
        forall|i: int| 0 <= i < at ==> (#[trigger] out@[i]).at_or_before(x),
        forall|i: int|
            #![trigger out@[i]]
            at <= i < out@.len() ==> x.at_or_before(&out@[i]) && !out@[i].at_or_before(x),
{
    let mut at: usize = out.len();
    while at > 0
        invariant
            at <= out@.len(),
            sorted(out@),
            forall|i: int|
                #![trigger out@[i]]
                at <= i < out@.len() ==> x.at_or_before(&out@[i]) && !out@[i].at_or_before(x),
        decreases at,
    {
        if out[at - 1].rank(x) {
            proof {
                assert forall|i: int| 0 <= i < at implies (#[trigger] out@[i]).at_or_before(x) by {
                    if i < at - 1 {
                        T::lemma_order(&out@[i], &out@[at - 1], x);
                    }
                }
            }
            return at;
        }
        proof {
            T::lemma_order(x, &out@[at - 1], x);
        }
        at -= 1;
    }
    at
}

proof fn lemma_insert_sorted<T: Ranked>(s: Seq<T>, x: T, at: int)
    requires
        sorted(s),
        0 <= at <= s.len(),
        forall|i: int| 0 <= i < at ==> (#[trigger] s[i]).at_or_before(&x),
        forall|i: int| #![trigger s[i]] at <= i < s.len() ==> x.at_or_before(&s[i]),
    ensures
        sorted(s.insert(at, x)),
{
    let t = s.insert(at, x);
    assert forall|i: int, j: int|
        #![trigger t[i], t[j]]
        0 <= i < j < t.len() implies t[i].at_or_before(&t[j]) by {
        if i < at {
            assert(t[i] == s[i]);
        } else if i > at {
            assert(t[i] == s[i - 1]);
        }
        if j < at {
            assert(t[j] == s[j]);
        } else if j > at {
            assert(t[j] == s[j - 1]);
        }
    }
}

} // verus!
