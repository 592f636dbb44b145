//! A map from texts to values.

use vstd::prelude::*;

verus! {

/// At most one value for each text.
#[derive(Debug)]
pub struct TextMap<V: DeepView> {
    entries: Vec<(String, V)>,
}

spec fn has_key<V>(entries: Seq<(String, V)>, key: Seq<char>) -> bool {
    exists|i: int| 0 <= i < entries.len() && (#[trigger] entries[i]).0@ == key
}

spec fn position_of<V>(entries: Seq<(String, V)>, key: Seq<char>) -> int {
    choose|i: int| 0 <= i < entries.len() && (#[trigger] entries[i]).0@ == key
}

spec fn distinct_keys<V>(entries: Seq<(String, V)>) -> bool {
    forall|i: int, j: int|
        0 <= i < j < entries.len() ==> (#[trigger] entries[i]).0@ != (#[trigger] entries[j]).0@
}

spec fn contents<V: DeepView>(entries: Seq<(String, V)>) -> Map<Seq<char>, V::V> {
    Map::new(
        |key: Seq<char>| has_key(entries, key),
        |key: Seq<char>| entries[position_of(entries, key)].1.deep_view(),
    )
}

/// What is left of a map when only the values with some property stay.
pub open spec fn keeping<W>(map: Map<Seq<char>, W>, keep: spec_fn(W) -> bool) -> Map<Seq<char>, W> {
    Map::new(
        |key: Seq<char>| map.dom().contains(key) && keep(map[key]),
        |key: Seq<char>| map[key],
    )
}

proof fn lemma_entry<V: DeepView>(entries: Seq<(String, V)>, i: int)
    requires
        distinct_keys(entries),
        0 <= i < entries.len(),
    ensures
        contents(entries).dom().contains(entries[i].0@),
        contents(entries)[entries[i].0@] == entries[i].1.deep_view(),
{
    let key = entries[i].0@;
    let p = position_of(entries, key);
    assert(entries[i].0@ == key);
    assert(p == i);
}

/// A rule that says which values stay.
pub trait Retention<V: DeepView> {
    /// Whether a value stays.
    spec fn keeps(&self, value: V::V) -> bool;

    /// Whether a value stays.
    fn keep(&self, value: &V) -> (res: bool)
        ensures
            res == self.keeps(value.deep_view()),
    ;
}

impl<V: DeepView> TextMap<V> {
    /// The values by text.
    pub closed spec fn view(&self) -> Map<Seq<char>, V::V> {
        contents(self.entries@)
    }

    #[verifier::type_invariant]
    spec fn no_key_twice(self) -> bool {
        distinct_keys(self.entries@)
    }

    /// A map without entries.
    pub fn new() -> (map: Self)
        ensures
            map@ == Map::<Seq<char>, V::V>::empty(),
    {
        let map = TextMap { entries: Vec::new() };
        assert(map@ =~= Map::<Seq<char>, V::V>::empty());
        map
    }

    /// Whether there are no entries.
    pub fn is_empty(&self) -> (res: bool)
        ensures
            res == (self@ == Map::<Seq<char>, V::V>::empty()),
    {
        proof {
            use_type_invariant(self);
            if self.entries@.len() > 0 {
                lemma_entry(self.entries@, 0);
                assert(!Map::<Seq<char>, V::V>::empty().dom().contains(self.entries@[0].0@));
            } else {
                assert(self@ =~= Map::<Seq<char>, V::V>::empty());
            }
        }
        self.entries.len() == 0
    }

    fn find(&self, key: &String) -> (res: Option<usize>)
        ensures
            match res {
                Some(i) => i < self.entries@.len() && self.entries@[i as int].0@ == key@,
                None => !has_key(self.entries@, key@),
            },
    {
        let mut i: usize = 0;
        while i < self.entries.len()
            invariant
                i <= self.entries@.len(),
                forall|j: int| 0 <= j < i ==> (#[trigger] self.entries@[j]).0@ != key@,
            decreases self.entries@.len() - i,
        {
            if self.entries[i].0 == *key {
                return Some(i);
            }
            i = i + 1;
        }
        None
    }

    /// The value stored under a text.
    pub fn get(&self, key: &String) -> (res: Option<&V>)
        ensures
            match res {
                Some(value) => self@.dom().contains(key@) && self@[key@] == value.deep_view(),
                None => !self@.dom().contains(key@),
            },
    {
        proof {
            use_type_invariant(self);
        }
        match self.find(key) {
            Some(i) => {
                proof {
                    lemma_entry(self.entries@, i as int);
                }
                Some(&self.entries[i].1)
            },
            None => None,
        }
    }

    /// Stores a value under a text, in place of one that was there.
    pub fn insert(&mut self, key: &String, value: V)
        ensures
            final(self)@ == old(self)@.insert(key@, value.deep_view()),
    {
        proof {
            use_type_invariant(&*self);
        }
        let ghost before = self.entries@;
        let found = self.find(key);
        let mut entries: Vec<(String, V)> = Vec::new();
        std::mem::swap(&mut entries, &mut self.entries);
        let ghost at: int = match found {
            Some(i) => i as int,
            None => before.len() as int,
        };
        match found {
            Some(i) => {
                entries[i] = (key.clone(), value);
            },
            None => {
                entries.push((key.clone(), value));
            },
        }
        let ghost after = entries@;
        assert(distinct_keys(after)) by {
            assert forall|i: int, j: int| 0 <= i < j < after.len() implies (#[trigger] after[i]).0@
                != (#[trigger] after[j]).0@ by {
                if found is None {
                    if j == at {
                        assert(after[i] == before[i]);
                    } else {
                        assert(after[i] == before[i] && after[j] == before[j]);
                    }
                } else {
                    assert(after[i].0@ == before[i].0@ && after[j].0@ == before[j].0@);
                }
            }
        }
        self.entries = entries;
        proof {
            assert(after[at].0@ == key@ && after[at].1 == value);
            assert forall|k: Seq<char>| #[trigger]
                has_key(after, k) == (has_key(before, k) || k == key@) by {
                if has_key(before, k) {
                    let p = position_of(before, k);
                    assert(after[p].0@ == k);
                }
                if has_key(after, k) && k != key@ {
                    let p = position_of(after, k);
                    assert(before[p].0@ == k);
                }
            }
            assert forall|k: Seq<char>| has_key(after, k) implies #[trigger] contents(after)[k] == (
            if k == key@ {
                value.deep_view()
            } else {
                contents(before)[k]
            }) by {
                let p = position_of(after, k);
                if k == key@ {
                    assert(p == at);
                } else {
                    assert(before[p].0@ == k);
                    lemma_entry(before, p);
                }
            }
            assert(self@ =~= old(self)@.insert(key@, value.deep_view()));
        }
    }

    /// Drops the entries that a rule does not keep.
    pub fn retain<R: Retention<V>>(&mut self, rule: &R)
        ensures
            final(self)@ == keeping(old(self)@, |value: V::V| rule.keeps(value)),
    {
        let ghost keep = |value: V::V| rule.keeps(value);
        proof {
            use_type_invariant(&*self);
        }
        let ghost before = self.entries@;
        let mut entries: Vec<(String, V)> = Vec::new();
        std::mem::swap(&mut entries, &mut self.entries);
        let mut kept: Vec<(String, V)> = Vec::new();
        proof {
            lemma_kept_nothing::<V>(before, keep);
        }
        let mut n: usize = 0;
        let total: usize = entries.len();
        while n < total
            invariant
                n <= total,
                total == before.len(),
                entries@ == before.skip(n as int),
                kept@ == kept_of(before, n as nat, keep),
                keep == (|value: V::V| rule.keeps(value)),
            decreases total - n,
        {
            let entry = entries.remove(0);
            assert(entry == before[n as int]);
            let stays = rule.keep(&entry.1);
            if stays {
                kept.push(entry);
            }
            n = n + 1;
            assert(entries@ =~= before.skip(n as int));
        }
        proof {
            lemma_kept(before, keep);
        }
        self.entries = kept;
        proof {
            assert(self@ =~= keeping(old(self)@, keep));
        }
    }
}

spec fn kept_of<V: DeepView>(
    entries: Seq<(String, V)>,
    n: nat,
    keep: spec_fn(V::V) -> bool,
) -> Seq<(String, V)>
    decreases n,
{
    if n == 0 {
        Seq::empty()
    } else {
        let earlier = kept_of(entries, (n - 1) as nat, keep);
        if keep(entries[n - 1].1.deep_view()) {
            earlier.push(entries[n - 1])
        } else {
            earlier
        }
    }
}

proof fn lemma_kept_nothing<V: DeepView>(entries: Seq<(String, V)>, keep: spec_fn(V::V) -> bool)
    ensures
        kept_of(entries, 0, keep) == Seq::<(String, V)>::empty(),
        entries.skip(0) == entries,
{
    assert(entries.skip(0) =~= entries);
}

/// Whether an entry is among the first `n`, and its value has the property.
spec fn stays<V: DeepView>(
    entries: Seq<(String, V)>,
    n: nat,
    keep: spec_fn(V::V) -> bool,
    entry: (String, V),
) -> bool {
    keep(entry.1.deep_view()) && exists|j: int| 0 <= j < n && #[trigger] entries[j] == entry
}

proof fn lemma_kept_members<V: DeepView>(
    entries: Seq<(String, V)>,
    n: nat,
    keep: spec_fn(V::V) -> bool,
)
    requires
        n <= entries.len(),
        distinct_keys(entries),
    ensures
        distinct_keys(kept_of(entries, n, keep)),
        forall|entry: (String, V)| #[trigger]
            kept_of(entries, n, keep).contains(entry) == stays(entries, n, keep, entry),
    decreases n,
{
    if n > 0 {
        let m = (n - 1) as nat;
        lemma_kept_members(entries, m, keep);
        let earlier = kept_of(entries, m, keep);
        let kept = kept_of(entries, n, keep);
        let last = entries[n - 1];
        assert forall|entry: (String, V)| #[trigger]
            kept.contains(entry) == stays(entries, n, keep, entry) by {
            assert(earlier.contains(entry) == stays(entries, m, keep, entry));
            if keep(last.1.deep_view()) {
                assert(kept[kept.len() - 1] == last);
                if kept.contains(entry) {
                    let i = choose|i: int| 0 <= i < kept.len() && kept[i] == entry;
                    if i < earlier.len() {
                        assert(earlier[i] == entry);
                    }
                }
                if earlier.contains(entry) {
                    let i = choose|i: int| 0 <= i < earlier.len() && earlier[i] == entry;
                    assert(kept[i] == entry);
                }
            }
        }
        if keep(last.1.deep_view()) {
            assert forall|a: int, b: int| 0 <= a < b < kept.len() implies (#[trigger] kept[a]).0@
                != (#[trigger] kept[b]).0@ by {
                assert(kept[a] == earlier[a]);
                if b < earlier.len() {
                    assert(kept[b] == earlier[b]);
                } else {
                    assert(earlier.contains(earlier[a]));
                    let j = choose|j: int| 0 <= j < m && #[trigger] entries[j] == earlier[a];
                    assert(entries[j].0@ != entries[n - 1].0@);
                }
            }
        }
    }
}

proof fn lemma_kept<V: DeepView>(entries: Seq<(String, V)>, keep: spec_fn(V::V) -> bool)
    requires
        distinct_keys(entries),
    ensures
        distinct_keys(kept_of(entries, entries.len(), keep)),
        contents(kept_of(entries, entries.len(), keep)) == keeping(contents(entries), keep),
{
    let n = entries.len();
    let kept = kept_of(entries, n, keep);
    lemma_kept_members(entries, n, keep);
    assert forall|key: Seq<char>| #[trigger]
        has_key(kept, key) implies keeping(contents(entries), keep).dom().contains(key) && contents(
        kept,
    )[key] == contents(entries)[key] by {
        let i = position_of(kept, key);
        lemma_entry(kept, i);
        assert(kept.contains(kept[i]));
        let j = choose|j: int| 0 <= j < n && #[trigger] entries[j] == kept[i];
        lemma_entry(entries, j);
    }
    assert forall|key: Seq<char>| keeping(contents(entries), keep).dom().contains(key) implies #[trigger] has_key(
        kept, key) by {
        let j = position_of(entries, key);
        lemma_entry(entries, j);
        assert(stays(entries, n, keep, entries[j]));
        assert(kept.contains(entries[j]));
        let i = choose|i: int| 0 <= i < kept.len() && kept[i] == entries[j];
        assert(kept[i].0@ == key);
    }
    assert(contents(kept) =~= keeping(contents(entries), keep));
}

} // verus!
