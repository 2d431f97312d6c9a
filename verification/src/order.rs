//! Lexicographic order of strings, and a stable sort of records by their slug.

use vstd::prelude::*;

use crate::text::chars_of;

verus! {

broadcast use vstd::seq_lib::group_seq_properties;

/// Whether `a` comes strictly before `b`, comparing characters by code point and a
/// proper prefix before any longer string (the order of `str::cmp`).
pub open spec fn lex_lt(a: Seq<char>, b: Seq<char>) -> bool
    decreases a.len(),
{
    if a.len() == 0 {
        b.len() > 0
    } else if b.len() == 0 {
        false
    } else if a[0] != b[0] {
        (a[0] as u32) < (b[0] as u32)
    } else {
        lex_lt(a.drop_first(), b.drop_first())
    }
}

pub proof fn lemma_lex_irreflexive(a: Seq<char>)
    ensures
        !lex_lt(a, a),
    decreases a.len(),
{
    if a.len() > 0 {
        lemma_lex_irreflexive(a.drop_first());
    }
}

pub proof fn lemma_lex_transitive(a: Seq<char>, b: Seq<char>, c: Seq<char>)
    requires
        lex_lt(a, b),
        lex_lt(b, c),
    ensures
        lex_lt(a, c),
    decreases a.len(),
{
    if a.len() > 0 && b.len() > 0 && c.len() > 0 && a[0] == b[0] && b[0] == c[0] {
        lemma_lex_transitive(a.drop_first(), b.drop_first(), c.drop_first());
    }
}

pub proof fn lemma_lex_total(a: Seq<char>, b: Seq<char>)
    ensures
        a == b || lex_lt(a, b) || lex_lt(b, a),
    decreases a.len(),
{
    if a.len() > 0 && b.len() > 0 && a[0] == b[0] {
        lemma_lex_total(a.drop_first(), b.drop_first());
        if a.drop_first() == b.drop_first() {
            assert(a =~= seq![a[0]] + a.drop_first());
            assert(b =~= seq![b[0]] + b.drop_first());
        }
    } else if a.len() == 0 && b.len() == 0 {
        assert(a =~= b);
    } else if a.len() > 0 && b.len() > 0 {
        vstd::utf8::char_u32_cast(a[0], a[0] as u32);
        vstd::utf8::char_u32_cast(b[0], b[0] as u32);
    }
}

pub proof fn lemma_lex_asymmetric(a: Seq<char>, b: Seq<char>)
    requires
        lex_lt(a, b),
    ensures
        !lex_lt(b, a),
{
    if lex_lt(b, a) {
        lemma_lex_transitive(a, b, a);
        lemma_lex_irreflexive(a);
    }
}

/// Whether `a` comes strictly before `b` (`a < b` on strings).
pub fn lex_less(a: &str, b: &str) -> (r: bool)
    ensures
        r == lex_lt(a@, b@),
{
    let x = chars_of(a);
    let y = chars_of(b);
    let mut i: usize = 0;
    while i < x.len() && i < y.len()
        invariant
            x@ == a@,
            y@ == b@,
            i <= x@.len(),
            i <= y@.len(),
            x@.subrange(0, i as int) == y@.subrange(0, i as int),
            lex_lt(x@, y@) == lex_lt(x@.skip(i as int), y@.skip(i as int)),
        decreases x@.len() - i,
    {
        assert(x@.skip(i as int)[0] == x@[i as int]);
        assert(y@.skip(i as int)[0] == y@[i as int]);
        let (c, d) = (x[i], y[i]);
        if c != d {
            let r = (c as u32) < (d as u32);
            assert(x@.skip(i as int).len() > 0 && y@.skip(i as int).len() > 0);
            assert(lex_lt(x@.skip(i as int), y@.skip(i as int)) == r);
            return r;
        }
        assert(x@.skip(i as int).drop_first() == x@.skip(i + 1));
        assert(y@.skip(i as int).drop_first() == y@.skip(i + 1));
        assert(x@.subrange(0, i + 1) == x@.subrange(0, i as int).push(x@[i as int]));
        assert(y@.subrange(0, i + 1) == y@.subrange(0, i as int).push(y@[i as int]));
        i += 1;
    }
    i < y.len()
}

/// A record with a slug, by which lists of them are ordered.
pub trait Slugged {
    spec fn slug_view(&self) -> Seq<char>;

    fn slug_str(&self) -> (r: &str)
        ensures
            r@ == self.slug_view(),
    ;
}

/// Whether no record of `s` has a slug before that of a record ahead of it.
pub open spec fn sorted_by_slug<T: Slugged>(s: Seq<T>) -> bool {
    forall|i: int, j: int|
        0 <= i < j < s.len() ==> !lex_lt(#[trigger] s[j].slug_view(), #[trigger] s[i].slug_view())
}

proof fn lemma_insert_multiset<T>(s: Seq<T>, pos: int, x: T)
    requires
        0 <= pos <= s.len(),
    ensures
        s.insert(pos, x).to_multiset() =~= s.to_multiset().insert(x),
{
    let t = s.insert(pos, x);
    assert(t.remove(pos) =~= s);
    t.to_multiset_ensures();
    assert(t.contains(x)) by {
        assert(t[pos] == x);
    }
    assert(t.to_multiset().remove(x) =~= s.to_multiset());
}

/// Where a record with slug `key` goes in `s`: before the first record whose slug comes
/// after `key`, so after every record with the same slug.
pub open spec fn insert_pos<T: Slugged>(s: Seq<T>, key: Seq<char>) -> nat
    decreases s.len(),
{
    if s.len() == 0 {
        0
    } else if lex_lt(key, s[0].slug_view()) {
        0
    } else {
        1 + insert_pos(s.drop_first(), key)
    }
}

/// `s` ordered by slug the way a stable sort orders it: each record in turn is put after
/// every earlier record whose slug does not come after its own, so records with equal
/// slugs keep their order.
pub open spec fn stable_sort_spec<T: Slugged>(s: Seq<T>) -> Seq<T>
    decreases s.len(),
{
    if s.len() == 0 {
        Seq::empty()
    } else {
        let t = stable_sort_spec(s.drop_last());
        t.insert(insert_pos(t, s.last().slug_view()) as int, s.last())
    }
}

proof fn lemma_insert_pos<T: Slugged>(s: Seq<T>, key: Seq<char>, p: int)
    requires
        0 <= p <= s.len(),
        forall|k: int| 0 <= k < p ==> !lex_lt(key, #[trigger] s[k].slug_view()),
        p < s.len() ==> lex_lt(key, s[p].slug_view()),
    ensures
        insert_pos(s, key) == p,
    decreases s.len(),
{
    if s.len() > 0 && p > 0 {
        let t = s.drop_first();
        assert forall|k: int| 0 <= k < p - 1 implies !lex_lt(key, #[trigger] t[k].slug_view()) by {
            assert(t[k] == s[k + 1]);
        }
        if p - 1 < t.len() {
            assert(t[p - 1] == s[p]);
        }
        assert(!lex_lt(key, s[0].slug_view()));
        lemma_insert_pos(t, key, p - 1);
    }
}

/// `v` ordered by slug, equal slugs kept in their order (`sort_by` on the slug).
pub fn sort_by_slug<T: Slugged>(v: Vec<T>) -> (r: Vec<T>)
    ensures
        r@ == stable_sort_spec(v@),
        r@.to_multiset() == v@.to_multiset(),
        sorted_by_slug(r@),
{
    let mut src = v;
    let mut out: Vec<T> = Vec::new();
    let ghost n: int = 0;
    assert(v@.subrange(0, 0) =~= Seq::<T>::empty());
    assert(v@.subrange(0, v@.len() as int) == v@);
    while src.len() > 0
        invariant
            0 <= n <= v@.len(),
            src@ == v@.subrange(n, v@.len() as int),
            out@ == stable_sort_spec(v@.subrange(0, n)),
            out@.to_multiset().add(src@.to_multiset()) == v@.to_multiset(),
            sorted_by_slug(out@),
        decreases src@.len(),
    {
        let ghost before_src = src@;
        let x = src.remove(0);
        proof {
            before_src.to_multiset_ensures();
            assert(before_src.to_multiset() =~= src@.to_multiset().insert(x));
            assert(x == v@[n]);
            assert(v@.subrange(0, n + 1).drop_last() == v@.subrange(0, n));
            assert(v@.subrange(0, n + 1).last() == x);
            n = n + 1;
            assert(src@ == v@.subrange(n, v@.len() as int));
        }
        let key = x.slug_str();
        let mut pos: usize = 0;
        while pos < out.len() && !lex_less(key, out[pos].slug_str())
            invariant
                pos <= out@.len(),
                key@ == x.slug_view(),
                forall|k: int| 0 <= k < pos ==> !lex_lt(x.slug_view(), #[trigger] out@[k].slug_view()),
            decreases out@.len() - pos,
        {
            pos += 1;
        }
        let ghost before_out = out@;
        proof {
            lemma_insert_multiset(before_out, pos as int, x);
            if (pos as int) < before_out.len() {
                assert(lex_lt(x.slug_view(), before_out[pos as int].slug_view()));
            }
            lemma_insert_pos(before_out, x.slug_view(), pos as int);
        }
        out.insert(pos, x);
        proof {
            let s = out@;
            assert(s == before_out.insert(pos as int, x));
            assert forall|i: int, j: int| 0 <= i < j < s.len() implies !lex_lt(
                #[trigger] s[j].slug_view(),
                #[trigger] s[i].slug_view(),
            ) by {
                let p = pos as int;
                if j < p {
                    assert(s[i] == before_out[i] && s[j] == before_out[j]);
                } else if j == p {
                    assert(s[i] == before_out[i]);
                    lemma_lex_total(x.slug_view(), before_out[i].slug_view());
                    if lex_lt(x.slug_view(), before_out[i].slug_view()) {
                        assert(false);
                    }
                } else if i > p {
                    assert(s[i] == before_out[i - 1] && s[j] == before_out[j - 1]);
                } else if i == p {
                    // x came before the record now at `j`, which is not before `x`.
                    assert(s[j] == before_out[j - 1]);
                    assert(pos < before_out.len());
                    let y = before_out[p];
                    assert(lex_lt(x.slug_view(), y.slug_view()));
                    if j - 1 > p {
                        assert(!lex_lt(before_out[j - 1].slug_view(), y.slug_view()));
                        lemma_lex_total(before_out[j - 1].slug_view(), y.slug_view());
                        if before_out[j - 1].slug_view() != y.slug_view() {
                            lemma_lex_transitive(x.slug_view(), y.slug_view(), before_out[j - 1].slug_view());
                        }
                    }
                    lemma_lex_asymmetric(x.slug_view(), s[j].slug_view());
                } else {
                    assert(s[i] == before_out[i] && s[j] == before_out[j - 1]);
                }
            }
            assert(out@.to_multiset().add(src@.to_multiset()) =~= v@.to_multiset());
        }
    }
    proof {
        assert(v@.subrange(0, n) == v@);
        assert(src@.to_multiset() =~= vstd::multiset::Multiset::<T>::empty());
        assert(out@.to_multiset().add(vstd::multiset::Multiset::<T>::empty()) =~= out@.to_multiset());
    }
    out
}

impl Slugged for String {
    open spec fn slug_view(&self) -> Seq<char> {
        self@
    }

    fn slug_str(&self) -> (r: &str) {
        self.as_str()
    }
}

/// Names in ascending order (`sort` on strings).
pub fn sort_names(v: Vec<String>) -> (r: Vec<String>)
    ensures
        r@ == stable_sort_spec(v@),
        r@.to_multiset() == v@.to_multiset(),
        sorted_by_slug(r@),
{
    sort_by_slug(v)
}

} // verus!
