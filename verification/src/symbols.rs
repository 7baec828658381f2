use vstd::prelude::*;

verus! {

/// Index of the last entry whose key is `k`, or -1 when no entry has that key.
pub open spec fn find_last<V>(s: Seq<(Seq<char>, V)>, k: Seq<char>) -> int
    decreases s.len(),
{
    if s.len() == 0 {
        -1
    } else if s.last().0 == k {
        s.len() - 1
    } else {
        find_last(s.drop_last(), k)
    }
}

/// The value bound to `k` in an association list (the latest binding wins).
pub open spec fn assoc_get<V>(s: Seq<(Seq<char>, V)>, k: Seq<char>) -> Option<V> {
    let i = find_last(s, k);
    if i < 0 {
        None
    } else {
        Some(s[i].1)
    }
}

pub proof fn lemma_find_last_bounds<V>(s: Seq<(Seq<char>, V)>, k: Seq<char>)
    ensures
        -1 <= find_last(s, k) < s.len(),
        find_last(s, k) >= 0 ==> s[find_last(s, k)].0 == k,
        find_last(s, k) < 0 ==> forall|j: int| 0 <= j < s.len() ==> s[j].0 != k,
    decreases s.len(),
{
    if s.len() > 0 && s.last().0 != k {
        lemma_find_last_bounds(s.drop_last(), k);
        if find_last(s, k) < 0 {
            assert forall|j: int| 0 <= j < s.len() implies s[j].0 != k by {
                if j < s.len() - 1 {
                    assert(s.drop_last()[j] == s[j]);
                }
            }
        }
    }
}

pub proof fn lemma_find_last_push<V>(s: Seq<(Seq<char>, V)>, k: Seq<char>, e: (Seq<char>, V))
    ensures
        find_last(s.push(e), k) == if e.0 == k { s.len() as int } else { find_last(s, k) },
{
    assert(s.push(e).drop_last() =~= s);
}

/// A map from names to values that keeps entries in insertion order.
#[derive(Debug)]
pub struct SymbolMap<V> {
    entries: Vec<(String, V)>,
}

impl<V: View> View for SymbolMap<V> {
    type V = Seq<(Seq<char>, V::V)>;

    closed spec fn view(&self) -> Seq<(Seq<char>, V::V)> {
        self.entries@.map_values(|e: (String, V)| (e.0@, e.1@))
    }
}

impl<V: View> SymbolMap<V> {
    /// Creates an empty map.
    pub fn new() -> (r: Self)
        ensures
            r@ == Seq::<(Seq<char>, V::V)>::empty(),
    {
        let r = SymbolMap { entries: Vec::new() };
        assert(r@ =~= Seq::<(Seq<char>, V::V)>::empty());
        r
    }

    /// Number of entries.
    pub fn len(&self) -> (r: usize)
        ensures
            r == self@.len(),
    {
        self.entries.len()
    }

    /// Position of the latest entry with the given key.
    fn position(&self, key: &String) -> (r: Option<usize>)
        ensures
            match r {
                Some(i) => i == find_last(self@, key@) && i < self@.len(),
                None => find_last(self@, key@) < 0,
            },
    {
        let mut i = self.entries.len();
        assert(self@.take(i as int) =~= self@);
        while i > 0
            invariant
                i <= self.entries.len(),
                find_last(self@, key@) == find_last(self@.take(i as int), key@),
            decreases i,
        {
            let ghost t = self@.take(i as int);
            assert(t.last() == self@[i - 1]);
            if self.entries[i - 1].0 == *key {
                return Some(i - 1);
            }
            assert(t.drop_last() =~= self@.take(i - 1));
            i = i - 1;
        }
        None
    }

    /// Whether the key is bound.
    pub fn contains_key(&self, key: &str) -> (r: bool)
        ensures
            r == (find_last(self@, key@) >= 0),
    {
        let k = key.to_owned();
        self.position(&k).is_some()
    }

    /// Whether the key is bound (owned key).
    pub fn contains(&self, key: &String) -> (r: bool)
        ensures
            r == (find_last(self@, key@) >= 0),
    {
        self.position(key).is_some()
    }

    /// The value bound to the key.
    pub fn get(&self, key: &String) -> (r: Option<&V>)
        ensures
            match r {
                Some(v) => assoc_get(self@, key@) == Some(v@),
                None => assoc_get(self@, key@).is_none(),
            },
    {
        match self.position(key) {
            Some(i) => Some(&self.entries[i].1),
            None => None,
        }
    }

    /// Adds a binding at the end.
    pub fn insert(&mut self, key: String, value: V)
        ensures
            final(self)@ == old(self)@.push((key@, value@)),
    {
        self.entries.push((key, value));
        assert(self@ =~= old(self)@.push((key@, value@)));
    }

    /// Removes every binding.
    pub fn clear(&mut self)
        ensures
            final(self)@ == Seq::<(Seq<char>, V::V)>::empty(),
    {
        self.entries.clear();
        assert(self@ =~= Seq::<(Seq<char>, V::V)>::empty());
    }
}

} // verus!
