//! A small map from strings to strings, specified as a `Map` of character sequences.

use vstd::prelude::*;

use crate::text::str_eq;

verus! {

/// A map from strings to strings. A later `insert` of a key replaces the earlier value.
pub struct StringMap {
    entries: Vec<(String, String)>,
}

/// The map made by a sequence of insertions, in order.
pub open spec fn env_map(s: Seq<(Seq<char>, Seq<char>)>) -> Map<Seq<char>, Seq<char>>
    decreases s.len(),
{
    if s.len() == 0 {
        Map::empty()
    } else {
        env_map(s.drop_last()).insert(s.last().0, s.last().1)
    }
}

pub open spec fn entry_views(v: Seq<(String, String)>) -> Seq<(Seq<char>, Seq<char>)> {
    v.map_values(|p: (String, String)| (p.0@, p.1@))
}

impl View for StringMap {
    type V = Map<Seq<char>, Seq<char>>;

    closed spec fn view(&self) -> Map<Seq<char>, Seq<char>> {
        env_map(entry_views(self.entries@))
    }
}

/// The value of `k` in `m`, if set.
pub open spec fn lookup(m: Map<Seq<char>, Seq<char>>, k: Seq<char>) -> Option<Seq<char>> {
    if m.contains_key(k) {
        Some(m[k])
    } else {
        None
    }
}

impl StringMap {
    /// The empty map.
    pub fn new() -> (r: StringMap)
        ensures
            r@ == Map::<Seq<char>, Seq<char>>::empty(),
    {
        let r = StringMap { entries: Vec::new() };
        proof {
            assert(entry_views(r.entries@) =~= Seq::<(Seq<char>, Seq<char>)>::empty());
        }
        r
    }

    /// Sets `key` to `value`.
    pub fn insert(&mut self, key: String, value: String)
        ensures
            final(self)@ == old(self)@.insert(key@, value@),
    {
        let ghost before = entry_views(self.entries@);
        let ghost kv = key@;
        let ghost vv = value@;
        self.entries.push((key, value));
        proof {
            assert(entry_views(self.entries@) == before.push((kv, vv)));
            assert(entry_views(self.entries@).drop_last() == before);
        }
    }

    /// The value of `key`, if set.
    pub fn get(&self, key: &str) -> (r: Option<&String>)
        ensures
            match r {
                Some(v) => lookup(self@, key@) == Some(v@),
                None => lookup(self@, key@) is None,
            },
    {
        let mut i = self.entries.len();
        proof {
            let s = entry_views(self.entries@);
            assert(s.subrange(0, s.len() as int) == s);
            assert(s.subrange(s.len() as int, s.len() as int) =~= Seq::<(Seq<char>, Seq<char>)>::empty());
            assert(env_map(s.subrange(s.len() as int, s.len() as int)) == Map::<Seq<char>, Seq<char>>::empty());
            assert(env_map(s).union_prefer_right(Map::empty()) =~= env_map(s));
        }
        while i > 0
            invariant
                i <= self.entries@.len(),
                env_map(entry_views(self.entries@)) == env_map(
                    entry_views(self.entries@).subrange(0, i as int),
                ).union_prefer_right(env_map(entry_views(self.entries@).subrange(i as int, self.entries@.len() as int))),
                !env_map(
                    entry_views(self.entries@).subrange(i as int, self.entries@.len() as int),
                ).contains_key(key@),
            decreases i,
        {
            let ghost s = entry_views(self.entries@);
            let ghost n = self.entries@.len() as int;
            proof {
                lemma_env_map_split(s.subrange(0, i as int), i - 1);
                assert(s.subrange(0, i as int).subrange(0, i - 1) == s.subrange(0, i - 1));
                assert(s.subrange(0, i as int).subrange(i - 1, i as int) == s.subrange(i - 1, i as int));
                lemma_env_map_split(s.subrange(i - 1, n), 1);
                assert(s.subrange(i - 1, n).subrange(0, 1) == s.subrange(i - 1, i as int));
                assert(s.subrange(i - 1, n).subrange(1, n - i + 1) == s.subrange(i as int, n));
                lemma_env_map_single(s.subrange(i - 1, i as int));
                assert(s.subrange(i - 1, i as int)[0] == s[i - 1]);
            }
            if str_eq(self.entries[i - 1].0.as_str(), key) {
                proof {
                    assert(s[i - 1].0 == key@);
                }
                return Some(&self.entries[i - 1].1);
            }
            i -= 1;
        }
        proof {
            let s = entry_views(self.entries@);
            assert(s.subrange(0, 0) =~= Seq::<(Seq<char>, Seq<char>)>::empty());
            assert(env_map(s.subrange(0, 0)) =~= Map::<Seq<char>, Seq<char>>::empty());
        }
        None
    }
}

proof fn lemma_env_map_single(s: Seq<(Seq<char>, Seq<char>)>)
    requires
        s.len() == 1,
    ensures
        env_map(s) == Map::<Seq<char>, Seq<char>>::empty().insert(s[0].0, s[0].1),
{
    assert(s.drop_last() =~= Seq::<(Seq<char>, Seq<char>)>::empty());
    assert(env_map(s.drop_last()) == Map::<Seq<char>, Seq<char>>::empty());
    assert(s.last() == s[0]);
}

/// Insertions split in two: the later part's values win.
proof fn lemma_env_map_split(s: Seq<(Seq<char>, Seq<char>)>, k: int)
    requires
        0 <= k <= s.len(),
    ensures
        env_map(s) == env_map(s.subrange(0, k)).union_prefer_right(
            env_map(s.subrange(k, s.len() as int)),
        ),
    decreases s.len() - k,
{
    if k == s.len() {
        assert(s.subrange(0, k) == s);
        assert(s.subrange(k, s.len() as int) =~= Seq::<(Seq<char>, Seq<char>)>::empty());
        assert(env_map(s).union_prefer_right(Map::empty()) =~= env_map(s));
    } else {
        let t = s.subrange(k, s.len() as int);
        lemma_env_map_split(s.drop_last(), k);
        assert(s.drop_last().subrange(0, k) == s.subrange(0, k));
        assert(s.drop_last().subrange(k, s.len() - 1) == t.drop_last());
        assert(t.last() == s.last());
        assert(env_map(s) =~= env_map(s.subrange(0, k)).union_prefer_right(env_map(t)));
    }
}

/// A key set at position `i` and never after keeps the value set there.
pub proof fn lemma_env_map_at(s: Seq<(Seq<char>, Seq<char>)>, i: int)
    requires
        0 <= i < s.len(),
        forall|j: int| i < j < s.len() ==> #[trigger] s[j].0 != s[i].0,
    ensures
        env_map(s).contains_key(s[i].0),
        env_map(s)[s[i].0] == s[i].1,
    decreases s.len(),
{
    if i < s.len() - 1 {
        let t = s.drop_last();
        assert forall|j: int| i < j < t.len() implies #[trigger] t[j].0 != t[i].0 by {
            assert(t[j] == s[j]);
        }
        lemma_env_map_at(t, i);
    }
}

/// A key that is never set is absent.
pub proof fn lemma_env_map_absent(s: Seq<(Seq<char>, Seq<char>)>, k: Seq<char>)
    requires
        forall|j: int| 0 <= j < s.len() ==> #[trigger] s[j].0 != k,
    ensures
        !env_map(s).contains_key(k),
    decreases s.len(),
{
    if s.len() > 0 {
        let t = s.drop_last();
        assert forall|j: int| 0 <= j < t.len() implies #[trigger] t[j].0 != k by {
            assert(t[j] == s[j]);
        }
        lemma_env_map_absent(t, k);
    }
}

} // verus!
