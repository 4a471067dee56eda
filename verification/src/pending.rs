use vstd::prelude::*;

verus! {

/// A key under which a request waits for its answer, and the value it stands
/// for: two keys are the same key exactly when they stand for the same value.
pub trait RequestKey: Sized {
    type Value;

    spec fn key_value(&self) -> Self::Value;

    fn same_key(&self, other: &Self) -> (r: bool)
        ensures
            r == (self.key_value() == other.key_value()),
    ;
}

/// No two entries have the same key.
pub open spec fn keys_distinct<K, V>(s: Seq<(K, V)>) -> bool {
    forall|i: int, j: int| 0 <= i < j < s.len() ==> s[i].0 != s[j].0
}

/// The map that a list of entries stands for: each key to the value of its
/// entry.
pub open spec fn map_of<K, V>(s: Seq<(K, V)>) -> Map<K, V>
    decreases s.len(),
{
    if s.len() == 0 {
        Map::empty()
    } else {
        map_of(s.drop_last()).insert(s.last().0, s.last().1)
    }
}

proof fn lemma_map_of_dom<K, V>(s: Seq<(K, V)>, k: K)
    ensures
        map_of(s).dom().contains(k) <==> exists|i: int| 0 <= i < s.len() && s[i].0 == k,
    decreases s.len(),
{
    if s.len() > 0 {
        lemma_map_of_dom(s.drop_last(), k);
        if map_of(s).dom().contains(k) {
            if k != s.last().0 {
                let i = choose|i: int| 0 <= i < s.drop_last().len() && s.drop_last()[i].0 == k;
                assert(s[i].0 == k);
            } else {
                assert(s[s.len() - 1].0 == k);
            }
        }
        if exists|i: int| 0 <= i < s.len() && s[i].0 == k {
            let i = choose|i: int| 0 <= i < s.len() && s[i].0 == k;
            if i < s.len() - 1 {
                assert(s.drop_last()[i].0 == k);
            }
        }
    }
}

proof fn lemma_map_of_value<K, V>(s: Seq<(K, V)>, i: int)
    requires
        keys_distinct(s),
        0 <= i < s.len(),
    ensures
        map_of(s).dom().contains(s[i].0),
        map_of(s)[s[i].0] == s[i].1,
    decreases s.len(),
{
    if i < s.len() - 1 {
        assert(s.drop_last()[i] == s[i]);
        lemma_map_of_value(s.drop_last(), i);
        assert(s[i].0 != s.last().0);
    }
}

proof fn lemma_map_of_remove<K, V>(s: Seq<(K, V)>, i: int)
    requires
        keys_distinct(s),
        0 <= i < s.len(),
    ensures
        map_of(s.remove(i)) =~= map_of(s).remove(s[i].0),
    decreases s.len(),
{
    let k = s[i].0;
    if i == s.len() - 1 {
        assert(s.remove(i) =~= s.drop_last());
        lemma_map_of_dom(s.drop_last(), k);
        if map_of(s.drop_last()).dom().contains(k) {
            let j = choose|j: int| 0 <= j < s.drop_last().len() && s.drop_last()[j].0 == k;
            assert(s[j].0 == k);
        }
    } else {
        let t = s.drop_last();
        assert(s.remove(i).drop_last() =~= t.remove(i));
        assert(s.remove(i).last() == s.last());
        assert(t[i] == s[i]);
        lemma_map_of_remove(t, i);
        assert(s.last().0 != k);
    }
}

proof fn lemma_map_of_absent<K, V>(s: Seq<(K, V)>, k: K)
    requires
        forall|i: int| 0 <= i < s.len() ==> s[i].0 != k,
    ensures
        !map_of(s).dom().contains(k),
{
    lemma_map_of_dom(s, k);
}

/// Recording a request under a key and then answering that key hands back
/// the request just recorded, and leaves the table as it would be had the key
/// been answered before the recording.
pub proof fn law_answer_after_record<K, V>(table: Map<K, V>, key: K, value: V)
    ensures
        table.insert(key, value).dom().contains(key),
        table.insert(key, value)[key] == value,
        table.insert(key, value).remove(key) == table.remove(key),
{
    assert(table.insert(key, value).remove(key) =~= table.remove(key));
}

/// Answering a key leaves every request that waits under another key as it
/// was, and that key no longer waits.
pub proof fn law_answer_leaves_others<K, V>(table: Map<K, V>, key: K, other: K)
    requires
        other != key,
    ensures
        !table.remove(key).dom().contains(key),
        table.remove(key).dom().contains(other) == table.dom().contains(other),
        table.dom().contains(other) ==> table.remove(key)[other] == table[other],
{
}

/// The entries of a table with each key replaced by the value it stands for.
pub open spec fn keyed<K: RequestKey, V>(entries: Seq<(K, V)>) -> Seq<(K::Value, V)> {
    entries.map_values(|e: (K, V)| (e.0.key_value(), e.1))
}

/// The requests that wait for an answer, each under its own key, with what
/// is to receive the answer.
pub struct PendingTable<K: RequestKey, V> {
    entries: Vec<(K, V)>,
}

impl<K: RequestKey, V> View for PendingTable<K, V> {
    type V = Map<K::Value, V>;

    closed spec fn view(&self) -> Map<K::Value, V> {
        map_of(keyed(self.entries@))
    }
}

impl<K: RequestKey, V> PendingTable<K, V> {
    #[verifier::type_invariant]
    closed spec fn distinct(self) -> bool {
        keys_distinct(keyed(self.entries@))
    }

    /// An empty table.
    pub fn new() -> (t: PendingTable<K, V>)
        ensures
            t@ == Map::<K::Value, V>::empty(),
    {
        let t = PendingTable { entries: Vec::new() };
        assert(keyed(t.entries@) =~= Seq::<(K::Value, V)>::empty());
        t
    }

    fn find(&self, key: &K) -> (r: Option<usize>)
        ensures
            match r {
                Some(i) => i < self.entries@.len() && keyed(self.entries@)[i as int].0
                    == key.key_value(),
                None => forall|i: int|
                    0 <= i < self.entries@.len() ==> keyed(self.entries@)[i].0 != key.key_value(),
            },
    {
        let mut i: usize = 0;
        while i < self.entries.len()
            invariant
                i <= self.entries@.len(),
                forall|j: int| 0 <= j < i ==> keyed(self.entries@)[j].0 != key.key_value(),
            decreases self.entries@.len() - i,
        {
            if self.entries[i].0.same_key(key) {
                return Some(i);
            }
            i = i + 1;
        }
        None
    }

    /// Whether a request waits under `key`.
    pub fn contains_key(&self, key: &K) -> (r: bool)
        ensures
            r == self@.dom().contains(key.key_value()),
    {
        proof {
            use_type_invariant(self);
        }
        match self.find(key) {
            Some(i) => {
                proof {
                    lemma_map_of_value(keyed(self.entries@), i as int);
                }
                true
            },
            None => {
                proof {
                    lemma_map_of_absent(keyed(self.entries@), key.key_value());
                }
                false
            },
        }
    }

    /// Takes the request that waits under `key`, if any, out of the table.
    pub fn remove(&mut self, key: &K) -> (r: Option<V>)
        ensures
            final(self)@ == old(self)@.remove(key.key_value()),
            r == (if old(self)@.dom().contains(key.key_value()) {
                Some(old(self)@[key.key_value()])
            } else {
                None::<V>
            }),
    {
        proof {
            use_type_invariant(&*self);
        }
        match self.find(key) {
            Some(i) => {
                proof {
                    lemma_map_of_value(keyed(self.entries@), i as int);
                    lemma_map_of_remove(keyed(self.entries@), i as int);
                }
                let mut entries: Vec<(K, V)> = Vec::new();
                std::mem::swap(&mut entries, &mut self.entries);
                let ghost before = entries@;
                let (_, v) = entries.remove(i);
                proof {
                    assert(entries@ == before.remove(i as int));
                    assert(keyed(entries@) =~= keyed(before).remove(i as int));
                    let kb = keyed(before);
                    let ka = keyed(entries@);
                    assert forall|a: int, b: int| 0 <= a < b < ka.len() implies ka[a].0 != ka[b].0 by {
                        let a0 = if a < i { a } else { a + 1 };
                        let b0 = if b < i { b } else { b + 1 };
                        assert(ka[a] == kb[a0]);
                        assert(ka[b] == kb[b0]);
                    }
                }
                self.entries = entries;
                Some(v)
            },
            None => {
                proof {
                    lemma_map_of_absent(keyed(self.entries@), key.key_value());
                    assert(map_of(keyed(self.entries@)).remove(key.key_value()) =~= map_of(
                        keyed(self.entries@),
                    ));
                }
                None
            },
        }
    }

    /// Records a request under `key`, in place of the one that waited there
    /// before, which is given back.
    pub fn insert(&mut self, key: K, value: V) -> (r: Option<V>)
        ensures
            final(self)@ == old(self)@.insert(key.key_value(), value),
            r == (if old(self)@.dom().contains(key.key_value()) {
                Some(old(self)@[key.key_value()])
            } else {
                None::<V>
            }),
    {
        let ghost kv = key.key_value();
        let replaced = self.remove(&key);
        proof {
            use_type_invariant(&*self);
            lemma_map_of_dom(keyed(self.entries@), kv);
        }
        let mut entries: Vec<(K, V)> = Vec::new();
        std::mem::swap(&mut entries, &mut self.entries);
        let ghost before = entries@;
        entries.push((key, value));
        proof {
            assert(keyed(entries@) =~= keyed(before).push((kv, value)));
            assert(keyed(entries@).drop_last() =~= keyed(before));
            assert(map_of(keyed(entries@)) =~= old(self)@.remove(kv).insert(kv, value));
        }
        self.entries = entries;
        replaced
    }
}

} // verus!
