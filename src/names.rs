use vstd::prelude::*;

verus! {

/// The map that a sequence of `(key, value)` pairs builds when the pairs are
/// inserted in order: a later pair with the same key replaces an earlier one.
pub open spec fn map_of_pairs(s: Seq<(Seq<char>, Seq<char>)>) -> Map<Seq<char>, Seq<char>>
    decreases s.len(),
{
    if s.len() == 0 {
        Map::empty()
    } else {
        map_of_pairs(s.drop_last()).insert(s.last().0, s.last().1)
    }
}

/// The views of a sequence of strings.
pub open spec fn string_views(v: Seq<String>) -> Seq<Seq<char>> {
    v.map_values(|s: String| s@)
}

/// The views of a sequence of string pairs.
pub open spec fn pair_views(v: Seq<(String, String)>) -> Seq<(Seq<char>, Seq<char>)> {
    v.map_values(|p: (String, String)| (p.0@, p.1@))
}

/// `inv` maps each value of `m`, and nothing else, back to a key that `m`
/// maps to it.
pub open spec fn is_inverse(inv: Map<Seq<char>, Seq<char>>, m: Map<Seq<char>, Seq<char>>) -> bool {
    &&& forall|v: Seq<char>|
        #[trigger] inv.contains_key(v) <==> exists|k: Seq<char>|
            #[trigger] m.contains_key(k) && m[k] == v
    &&& forall|v: Seq<char>|
        #[trigger] inv.contains_key(v) ==> m.contains_key(inv[v]) && m[inv[v]] == v
}

/// Whether two strings hold the same characters.
pub fn str_eq(a: &str, b: &str) -> (r: bool)
    ensures
        r == (a@ == b@),
{
    let n = a.unicode_len();
    if n != b.unicode_len() {
        return false;
    }
    let mut i: usize = 0;
    while i < n
        invariant
            n == a@.len() == b@.len(),
            0 <= i <= n,
            a@.take(i as int) == b@.take(i as int),
        decreases n - i,
    {
        if a.get_char(i) != b.get_char(i) {
            assert(a@.take(i + 1)[i as int] != b@.take(i + 1)[i as int]);
            return false;
        }
        assert(a@.take(i + 1) =~= a@.take(i as int).push(a@[i as int]));
        assert(b@.take(i + 1) =~= b@.take(i as int).push(b@[i as int]));
        i = i + 1;
    }
    assert(a@.take(n as int) =~= a@);
    assert(b@.take(n as int) =~= b@);
    true
}

/// Copies a list of strings.
pub(crate) fn clone_strings(v: &Vec<String>) -> (r: Vec<String>)
    ensures
        r@ == v@,
{
    let mut r: Vec<String> = Vec::new();
    let mut i: usize = 0;
    while i < v.len()
        invariant
            0 <= i <= v@.len(),
            r@ == v@.take(i as int),
        decreases v@.len() - i,
    {
        r.push(v[i].clone());
        proof {
            assert(r@ =~= v@.take(i + 1));
        }
        i = i + 1;
    }
    assert(v@.take(i as int) =~= v@);
    r
}

/// Copies an optional string.
pub(crate) fn clone_opt(o: &Option<String>) -> (r: Option<String>)
    ensures
        r == *o,
{
    match o {
        Some(s) => Some(s.clone()),
        None => None,
    }
}

/// A table from names to names, with each key held once.
///
/// It serves as the configured channel mapping of the bridge and as the
/// identity caches that turn network ids into display names. It keeps its
/// entries in the order in which their keys were first inserted.
#[derive(Debug)]
pub struct NameMap {
    entries: Vec<(String, String)>,
}

impl NameMap {
    /// The keys, in the order in which they were first inserted.
    pub closed spec fn key_seq(&self) -> Seq<Seq<char>> {
        self.entries@.map_values(|p: (String, String)| p.0@)
    }

    closed spec fn val_seq(&self) -> Seq<Seq<char>> {
        self.entries@.map_values(|p: (String, String)| p.1@)
    }

    #[verifier::type_invariant]
    closed spec fn keys_unique(&self) -> bool {
        self.key_seq().no_duplicates()
    }

    /// An entry's value is what its key maps to.
    proof fn lemma_entry(&self, i: int)
        requires
            self.keys_unique(),
            0 <= i < self.entries@.len(),
        ensures
            self@.contains_key(self.key_seq()[i]),
            self@[self.key_seq()[i]] == self.val_seq()[i],
    {
        let k = self.key_seq()[i];
        assert(self.key_seq().contains(k));
        let j = self.key_seq().index_of(k);
        assert(j == i);
    }

    /// Builds an empty table.
    pub fn new() -> (r: NameMap)
        ensures
            r@ == Map::<Seq<char>, Seq<char>>::empty(),
            r.key_seq() == Seq::<Seq<char>>::empty(),
    {
        let r = NameMap { entries: Vec::new() };
        assert(r@ =~= Map::<Seq<char>, Seq<char>>::empty());
        assert(r.key_seq() =~= Seq::<Seq<char>>::empty());
        r
    }

    /// The number of keys.
    pub fn len(&self) -> (r: usize)
        ensures
            r == self@.len(),
            r == self.key_seq().len(),
    {
        proof {
            use_type_invariant(self);
            self.key_seq().unique_seq_to_set();
            assert(self@.dom() =~= self.key_seq().to_set());
        }
        self.entries.len()
    }

    /// Looks a key up.
    pub fn get(&self, key: &String) -> (r: Option<&String>)
        ensures
            r is Some <==> self@.contains_key(key@),
            r is Some ==> r->0@ == self@[key@],
    {
        proof {
            use_type_invariant(self);
        }
        let mut i: usize = 0;
        while i < self.entries.len()
            invariant
                self.keys_unique(),
                0 <= i <= self.entries@.len(),
                forall|j: int| 0 <= j < i ==> self.key_seq()[j] != key@,
            decreases self.entries@.len() - i,
        {
            if self.entries[i].0 == *key {
                proof {
                    self.lemma_entry(i as int);
                }
                return Some(&self.entries[i].1);
            }
            i = i + 1;
        }
        assert(!self.key_seq().contains(key@));
        None
    }

    /// Sets what `key` maps to. A key already present keeps its place in the
    /// order of keys; a new key goes last.
    pub fn insert(&mut self, key: String, value: String)
        ensures
            final(self)@ == old(self)@.insert(key@, value@),
            old(self)@.contains_key(key@) ==> final(self).key_seq() == old(self).key_seq(),
            !old(self)@.contains_key(key@) ==> final(self).key_seq() == old(self).key_seq().push(
                key@,
            ),
    {
        proof {
            use_type_invariant(&*self);
        }
        let ghost before: NameMap = *self;
        let mut entries: Vec<(String, String)> = Vec::new();
        std::mem::swap(&mut entries, &mut self.entries);
        let mut i: usize = 0;
        while i < entries.len()
            invariant
                before == *old(self),
                before.entries == entries,
                before.keys_unique(),
                0 <= i <= entries@.len(),
                forall|j: int| 0 <= j < i ==> before.key_seq()[j] != key@,
            decreases entries@.len() - i,
        {
            if entries[i].0 == key {
                entries.set(i, (key, value));
                let ghost after = NameMap { entries };
                proof {
                    assert(after.key_seq() =~= before.key_seq());
                    assert(after.keys_unique());
                    before.lemma_entry(i as int);
                    assert forall|k: Seq<char>|
                        after@.contains_key(k) implies #[trigger] after@[k] == before@.insert(
                            key@,
                            value@,
                        )[k] by {
                        let j = after.key_seq().index_of(k);
                        assert(after.key_seq()[j] == k);
                        after.lemma_entry(j);
                        if j != i {
                            before.lemma_entry(j);
                            assert(after.val_seq()[j] == before.val_seq()[j]);
                        }
                    }
                    assert(after@.dom() =~= before@.insert(key@, value@).dom());
                    assert(after@ =~= before@.insert(key@, value@));
                }
                self.entries = entries;
                assert(self.entries == after.entries);
                return ;
            }
            i = i + 1;
        }
        entries.push((key, value));
        let ghost after = NameMap { entries };
        proof {
            assert(after.key_seq() =~= before.key_seq().push(key@));
            assert(!before.key_seq().contains(key@));
            assert(after.keys_unique()) by {
                assert forall|a: int, b: int|
                    0 <= a < after.key_seq().len() && 0 <= b < after.key_seq().len() && a != b
                        implies after.key_seq()[a] != after.key_seq()[b] by {
                    if a == before.key_seq().len() as int {
                        assert(before.key_seq()[b] == after.key_seq()[b]);
                    } else if b == before.key_seq().len() as int {
                        assert(before.key_seq()[a] == after.key_seq()[a]);
                    }
                }
            }
            let n = before.key_seq().len() as int;
            after.lemma_entry(n);
            assert forall|k: Seq<char>|
                after@.contains_key(k) implies #[trigger] after@[k] == before@.insert(
                    key@,
                    value@,
                )[k] by {
                let j = after.key_seq().index_of(k);
                assert(after.key_seq()[j] == k);
                after.lemma_entry(j);
                if j != n {
                    before.lemma_entry(j);
                    assert(after.val_seq()[j] == before.val_seq()[j]);
                }
            }
            assert forall|k: Seq<char>|
                #[trigger] before@.insert(key@, value@).contains_key(k) implies after@.contains_key(k) by {
                if k != key@ {
                    let j = before.key_seq().index_of(k);
                    assert(after.key_seq()[j] == k);
                }
            }
            assert(after@.dom() =~= before@.insert(key@, value@).dom());
            assert(after@ =~= before@.insert(key@, value@));
        }
        self.entries = entries;
    }

    /// The keys, each once, in the order in which they were first inserted.
    pub fn keys(&self) -> (r: Vec<String>)
        ensures
            string_views(r@) == self.key_seq(),
            self.key_seq().no_duplicates(),
            self.key_seq().to_set() == self@.dom(),
    {
        proof {
            use_type_invariant(self);
            assert(self.key_seq().to_set() =~= self@.dom());
        }
        let mut r: Vec<String> = Vec::new();
        let mut i: usize = 0;
        while i < self.entries.len()
            invariant
                0 <= i <= self.entries@.len(),
                r@.len() == i,
                string_views(r@) == self.key_seq().take(i as int),
            decreases self.entries@.len() - i,
        {
            let ghost prev = r@;
            let key = self.entries[i].0.clone();
            r.push(key);
            proof {
                assert(r@ == prev.push(key));
                assert(key@ == self.key_seq()[i as int]);
                assert forall|j: int| 0 <= j <= i implies #[trigger] string_views(r@)[j] == self.key_seq().take(i + 1)[j] by {
                    if j < i {
                        assert(r@[j] == prev[j]);
                        assert(string_views(prev)[j] == self.key_seq().take(
                            i as int,
                        )[j]);
                    }
                }
                assert(string_views(r@) =~= self.key_seq().take(i + 1));
            }
            i = i + 1;
        }
        assert(self.key_seq().take(i as int) =~= self.key_seq());
        r
    }

    /// Builds the table that maps each value back to a key that maps to it.
    /// Where several keys share a value, the one inserted last wins.
    pub fn inverse(&self) -> (r: NameMap)
        ensures
            is_inverse(r@, self@),
    {
        proof {
            use_type_invariant(self);
        }
        let mut r = NameMap::new();
        let mut i: usize = 0;
        while i < self.entries.len()
            invariant
                self.keys_unique(),
                0 <= i <= self.entries@.len(),
                forall|v: Seq<char>|
                    #[trigger] r@.contains_key(v) <==> exists|j: int|
                        0 <= j < i && #[trigger] self.val_seq()[j] == v,
                forall|v: Seq<char>|
                    #[trigger] r@.contains_key(v) ==> exists|j: int|
                        0 <= j < i && #[trigger] self.key_seq()[j] == r@[v] && self.val_seq()[j]
                            == v,
            decreases self.entries@.len() - i,
        {
            let value = self.entries[i].1.clone();
            let key = self.entries[i].0.clone();
            let ghost prev = r@;
            r.insert(value, key);
            proof {
                assert(self.key_seq()[i as int] == key@);
                assert(self.val_seq()[i as int] == value@);
                assert forall|v: Seq<char>|
                    #[trigger] r@.contains_key(v) implies exists|j: int|
                        0 <= j < i + 1 && #[trigger] self.key_seq()[j] == r@[v]
                            && self.val_seq()[j] == v by {
                    if v == value@ {
                        assert(self.key_seq()[i as int] == r@[v]);
                    } else {
                        assert(prev.contains_key(v));
                    }
                }
                assert forall|v: Seq<char>|
                    (exists|j: int| 0 <= j < i + 1 && #[trigger] self.val_seq()[j] == v)
                        implies #[trigger] r@.contains_key(v) by {
                    if v != value@ {
                        let j = choose|j: int| 0 <= j < i + 1 && #[trigger] self.val_seq()[j] == v;
                        assert(j < i);
                        assert(prev.contains_key(v));
                    }
                }
            }
            i = i + 1;
        }
        proof {
            assert forall|v: Seq<char>|
                #[trigger] r@.contains_key(v) implies self@.contains_key(r@[v]) && self@[r@[v]]
                    == v by {
                let j = choose|j: int|
                    0 <= j < i && #[trigger] self.key_seq()[j] == r@[v] && self.val_seq()[j] == v;
                self.lemma_entry(j);
            }
            assert forall|v: Seq<char>|
                (exists|k: Seq<char>| #[trigger] self@.contains_key(k) && self@[k] == v)
                    implies #[trigger] r@.contains_key(v) by {
                let k = choose|k: Seq<char>| #[trigger] self@.contains_key(k) && self@[k] == v;
                let j = self.key_seq().index_of(k);
                self.lemma_entry(j);
                assert(self.val_seq()[j] == v);
            }
        }
        r
    }

    /// Builds a table from pairs inserted in order; a later pair with a key
    /// that came before replaces the earlier value.
    pub fn from_pairs(pairs: Vec<(String, String)>) -> (r: NameMap)
        ensures
            r@ == map_of_pairs(pair_views(pairs@)),
    {
        let mut r = NameMap::new();
        let ghost all = pair_views(pairs@);
        let mut i: usize = 0;
        while i < pairs.len()
            invariant
                all == pair_views(pairs@),
                0 <= i <= pairs@.len(),
                r@ == map_of_pairs(all.take(i as int)),
            decreases pairs@.len() - i,
        {
            let key = pairs[i].0.clone();
            let value = pairs[i].1.clone();
            proof {
                assert(all.take(i + 1).drop_last() =~= all.take(i as int));
            }
            r.insert(key, value);
            i = i + 1;
        }
        let n = pairs.len();
        assert(all.take(n as int) =~= all);
        r
    }
}

impl Clone for NameMap {
    fn clone(&self) -> (r: NameMap)
        ensures
            r@ == self@,
            r.key_seq() == self.key_seq(),
    {
        proof {
            use_type_invariant(self);
        }
        let mut entries: Vec<(String, String)> = Vec::new();
        let mut i: usize = 0;
        while i < self.entries.len()
            invariant
                0 <= i <= self.entries@.len(),
                entries@ == self.entries@.take(i as int),
            decreases self.entries@.len() - i,
        {
            let key = self.entries[i].0.clone();
            let value = self.entries[i].1.clone();
            entries.push((key, value));
            proof {
                assert(entries@ =~= self.entries@.take(i + 1));
            }
            i = i + 1;
        }
        assert(self.entries@.take(i as int) =~= self.entries@);
        NameMap { entries }
    }
}

impl View for NameMap {
    type V = Map<Seq<char>, Seq<char>>;

    closed spec fn view(&self) -> Map<Seq<char>, Seq<char>> {
        Map::new(
            |k: Seq<char>| self.key_seq().contains(k),
            |k: Seq<char>| self.val_seq()[self.key_seq().index_of(k)],
        )
    }
}

} // verus!
