//! A map from names to values that keeps its entries in the order they were first added.
use vstd::prelude::*;

verus! {

/// Whether no two entries carry the same name.
pub open spec fn names_unique<V>(s: Seq<(Seq<char>, V)>) -> bool {
    forall|i: int, j: int| 0 <= i < j < s.len() ==> s[i].0 != s[j].0
}

/// The map that a list of entries with distinct names stands for.
pub open spec fn entries_map<V>(s: Seq<(Seq<char>, V)>) -> Map<Seq<char>, V> {
    Map::new(
        |k: Seq<char>| exists|i: int| 0 <= i < s.len() && s[i].0 == k,
        |k: Seq<char>| s[choose|i: int| 0 <= i < s.len() && s[i].0 == k].1,
    )
}

/// The position of the entry named `k` (the only one, where names are distinct).
pub open spec fn name_index<V>(s: Seq<(Seq<char>, V)>, k: Seq<char>) -> int {
    choose|i: int| 0 <= i < s.len() && s[i].0 == k
}

/// The entries list the map: every name of the map exactly once, each with its value,
/// and nothing else.
pub open spec fn lists_map<V>(s: Seq<(Seq<char>, V)>, m: Map<Seq<char>, V>) -> bool {
    &&& names_unique(s)
    &&& m.dom().finite()
    &&& s.len() == m.len()
    &&& forall|i: int|
        0 <= i < s.len() ==> m.contains_key(#[trigger] s[i].0) && m[s[i].0] == s[i].1
    &&& forall|k: Seq<char>| #[trigger] m.contains_key(k) ==> exists|i: int| 0 <= i < s.len() && s[i].0 == k
}

/// The names are those of the set, each exactly once.
pub open spec fn names_list(names: Seq<Seq<char>>, dom: Set<Seq<char>>) -> bool {
    names.no_duplicates() && names.to_set() == dom
}

/// The names of entries that list a map are the map's names, each once.
pub proof fn lemma_names_of_listing<V>(s: Seq<(Seq<char>, V)>, m: Map<Seq<char>, V>)
    requires
        lists_map(s, m),
    ensures
        names_list(s.map_values(|e: (Seq<char>, V)| e.0), m.dom()),
{
    let names = s.map_values(|e: (Seq<char>, V)| e.0);
    assert forall|i: int, j: int| 0 <= i < names.len() && 0 <= j < names.len() && i != j implies names[i]
        != names[j] by {
        if i < j {
            assert(s[i].0 != s[j].0);
        } else {
            assert(s[j].0 != s[i].0);
        }
    }
    assert forall|k: Seq<char>| names.to_set().contains(k) == m.dom().contains(k) by {
        if names.to_set().contains(k) {
            let i = choose|i: int| 0 <= i < names.len() && names[i] == k;
            assert(m.contains_key(s[i].0));
        }
        if m.dom().contains(k) {
            let i = choose|i: int| 0 <= i < s.len() && s[i].0 == k;
            assert(names[i] == k);
        }
    }
    assert(names.to_set() =~= m.dom());
}

/// Entries that list a map hold each of its names exactly once, at `name_index`, with
/// its value.
pub proof fn law_listing_holds_each_name_once<V>(s: Seq<(Seq<char>, V)>, m: Map<Seq<char>, V>)
    requires
        lists_map(s, m),
    ensures
        forall|k: Seq<char>|
            #[trigger] m.contains_key(k) ==> {
                let i = name_index(s, k);
                &&& 0 <= i < s.len()
                &&& s[i] == (k, m[k])
                &&& forall|j: int| 0 <= j < s.len() && s[j].0 == k ==> j == i
            },
{
    assert forall|k: Seq<char>| #[trigger] m.contains_key(k) implies {
        let i = name_index(s, k);
        &&& 0 <= i < s.len()
        &&& s[i] == (k, m[k])
        &&& forall|j: int| 0 <= j < s.len() && s[j].0 == k ==> j == i
    } by {
        let i = name_index(s, k);
        assert(0 <= i < s.len() && s[i].0 == k);
        assert(m[s[i].0] == s[i].1);
        assert forall|j: int| 0 <= j < s.len() && s[j].0 == k implies j == i by {
            if j < i {
                assert(s[j].0 != s[i].0);
            } else if j > i {
                assert(s[i].0 != s[j].0);
            }
        }
    }
}

pub proof fn lemma_entries_map_at<V>(s: Seq<(Seq<char>, V)>, i: int)
    requires
        names_unique(s),
        0 <= i < s.len(),
    ensures
        entries_map(s).contains_key(s[i].0),
        entries_map(s)[s[i].0] == s[i].1,
{
    let k = s[i].0;
    assert(exists|j: int| 0 <= j < s.len() && s[j].0 == k);
    let j = choose|j: int| 0 <= j < s.len() && s[j].0 == k;
    assert(i == j);
}

pub proof fn lemma_entries_map_push<V>(s: Seq<(Seq<char>, V)>, k: Seq<char>, v: V)
    requires
        names_unique(s),
        !entries_map(s).contains_key(k),
    ensures
        names_unique(s.push((k, v))),
        entries_map(s.push((k, v))) == entries_map(s).insert(k, v),
{
    let t = s.push((k, v));
    assert forall|i: int| 0 <= i < s.len() implies s[i].0 != k by {
        if s[i].0 == k {
            assert(entries_map(s).contains_key(k));
        }
    }
    assert(names_unique(t));
    assert forall|x: Seq<char>| #[trigger]
        entries_map(t).contains_key(x) == entries_map(s).insert(k, v).contains_key(x) by {
        if entries_map(s).contains_key(x) {
            let j = choose|j: int| 0 <= j < s.len() && s[j].0 == x;
            assert(t[j].0 == x);
        }
        if x == k {
            assert(t[s.len() as int].0 == x);
        }
    }
    assert forall|x: Seq<char>| #[trigger] entries_map(t).contains_key(x) implies entries_map(t)[x]
        == entries_map(s).insert(k, v)[x] by {
        let j = choose|j: int| 0 <= j < t.len() && t[j].0 == x;
        lemma_entries_map_at(t, j);
        if j < s.len() {
            lemma_entries_map_at(s, j);
        }
    }
    assert(entries_map(t) =~= entries_map(s).insert(k, v));
}

pub proof fn lemma_entries_map_update<V>(s: Seq<(Seq<char>, V)>, i: int, v: V)
    requires
        names_unique(s),
        0 <= i < s.len(),
    ensures
        names_unique(s.update(i, (s[i].0, v))),
        entries_map(s.update(i, (s[i].0, v))) == entries_map(s).insert(s[i].0, v),
{
    let k = s[i].0;
    let t = s.update(i, (k, v));
    assert(names_unique(t));
    lemma_entries_map_at(s, i);
    assert forall|x: Seq<char>| #[trigger]
        entries_map(t).contains_key(x) == entries_map(s).insert(k, v).contains_key(x) by {
        if entries_map(s).contains_key(x) {
            let j = choose|j: int| 0 <= j < s.len() && s[j].0 == x;
            assert(t[j].0 == x);
        }
        if entries_map(t).contains_key(x) {
            let j = choose|j: int| 0 <= j < t.len() && t[j].0 == x;
            assert(s[j].0 == x);
        }
    }
    assert forall|x: Seq<char>| #[trigger] entries_map(t).contains_key(x) implies entries_map(t)[x]
        == entries_map(s).insert(k, v)[x] by {
        let j = choose|j: int| 0 <= j < t.len() && t[j].0 == x;
        lemma_entries_map_at(t, j);
        lemma_entries_map_at(s, j);
    }
    assert(entries_map(t) =~= entries_map(s).insert(k, v));
}

pub proof fn lemma_entries_map_remove<V>(s: Seq<(Seq<char>, V)>, i: int)
    requires
        names_unique(s),
        0 <= i < s.len(),
    ensures
        names_unique(s.remove(i)),
        entries_map(s.remove(i)) == entries_map(s).remove(s[i].0),
{
    let k = s[i].0;
    let t = s.remove(i);
    assert forall|a: int, b: int| 0 <= a < b < t.len() implies t[a].0 != t[b].0 by {
        let a2 = if a < i { a } else { a + 1 };
        let b2 = if b < i { b } else { b + 1 };
        assert(t[a] == s[a2]);
        assert(t[b] == s[b2]);
    }
    assert forall|x: Seq<char>| #[trigger]
        entries_map(t).contains_key(x) == entries_map(s).remove(k).contains_key(x) by {
        if entries_map(s).contains_key(x) && x != k {
            let j = choose|j: int| 0 <= j < s.len() && s[j].0 == x;
            if j < i {
                assert(t[j].0 == x);
            } else {
                assert(j != i);
                assert(t[j - 1].0 == x);
            }
        }
        if entries_map(t).contains_key(x) {
            let j = choose|j: int| 0 <= j < t.len() && t[j].0 == x;
            let j2 = if j < i { j } else { j + 1 };
            assert(s[j2].0 == x);
            assert(j2 != i);
        }
    }
    assert forall|x: Seq<char>| #[trigger] entries_map(t).contains_key(x) implies entries_map(t)[x]
        == entries_map(s).remove(k)[x] by {
        let j = choose|j: int| 0 <= j < t.len() && t[j].0 == x;
        lemma_entries_map_at(t, j);
        let j2 = if j < i { j } else { j + 1 };
        assert(s[j2] == t[j]);
        lemma_entries_map_at(s, j2);
    }
    assert(entries_map(t) =~= entries_map(s).remove(k));
}

/// A map from names to values. Names are compared by their characters; entries keep
/// the order in which their names were first added.
pub struct NameMap<V> {
    entries: Vec<(String, V)>,
}

impl<V> NameMap<V> {
    /// The entries in order, each name by its characters.
    pub closed spec fn entry_seq(&self) -> Seq<(Seq<char>, V)> {
        self.entries@.map_values(|e: (String, V)| (e.0@, e.1))
    }

    #[verifier::type_invariant]
    spec fn inv(&self) -> bool {
        names_unique(self.entry_seq())
    }

    /// The names in order.
    pub open spec fn name_seq(&self) -> Seq<Seq<char>> {
        self.entry_seq().map_values(|e: (Seq<char>, V)| e.0)
    }

    /// The value stored for each name.
    pub open spec fn map(&self) -> Map<Seq<char>, V> {
        entries_map(self.entry_seq())
    }

    pub proof fn lemma_wf(&self)
        requires
            names_unique(self.entry_seq()),
        ensures
            names_unique(self.entry_seq()),
            self.map().dom().finite(),
            forall|i: int|
                0 <= i < self.entry_seq().len() ==> self.map().contains_key(
                    #[trigger] self.entry_seq()[i].0,
                ) && self.map()[self.entry_seq()[i].0] == self.entry_seq()[i].1,
            forall|k: Seq<char>|
                #[trigger] self.map().contains_key(k) ==> exists|i: int|
                    0 <= i < self.entry_seq().len() && self.entry_seq()[i].0 == k,
    {
        assert forall|i: int| 0 <= i < self.entry_seq().len() implies self.map().contains_key(
            #[trigger] self.entry_seq()[i].0,
        ) && self.map()[self.entry_seq()[i].0] == self.entry_seq()[i].1 by {
            lemma_entries_map_at(self.entry_seq(), i);
        }
        let s = self.entry_seq();
        assert(self.map().dom() =~= Set::new(|k: Seq<char>| exists|i: int| 0 <= i < s.len() && s[i].0 == k));
        assert(self.map().dom() =~= s.map_values(|e: (Seq<char>, V)| e.0).to_set()) by {
            assert forall|k: Seq<char>| self.map().dom().contains(k) implies s.map_values(
                |e: (Seq<char>, V)| e.0,
            ).to_set().contains(k) by {
                let i = choose|i: int| 0 <= i < s.len() && s[i].0 == k;
                assert(s.map_values(|e: (Seq<char>, V)| e.0)[i] == k);
            }
            assert forall|k: Seq<char>| s.map_values(|e: (Seq<char>, V)| e.0).to_set().contains(
                k,
            ) implies self.map().dom().contains(k) by {
                let keys = s.map_values(|e: (Seq<char>, V)| e.0);
                let i = choose|i: int| 0 <= i < keys.len() && keys[i] == k;
                assert(s[i].0 == k);
            }
        }
        vstd::seq_lib::seq_to_set_is_finite(s.map_values(|e: (Seq<char>, V)| e.0));
    }

    /// An empty map.
    pub fn new() -> (r: Self)
        ensures
            r.entry_seq() == Seq::<(Seq<char>, V)>::empty(),
            r.map() == Map::<Seq<char>, V>::empty(),
    {
        let r = NameMap { entries: Vec::new() };
        assert(r.entry_seq() =~= Seq::<(Seq<char>, V)>::empty());
        assert(r.map() =~= Map::<Seq<char>, V>::empty());
        r
    }

    /// The number of entries.
    pub fn len(&self) -> (r: usize)
        ensures
            r == self.entry_seq().len(),
            r == self.map().len(),
            names_unique(self.entry_seq()),
    {
        proof {
            use_type_invariant(self);
            self.lemma_wf();
            self.lemma_len();
        }
        self.entries.len()
    }

    pub proof fn lemma_len(&self)
        requires
            names_unique(self.entry_seq()),
        ensures
            self.map().len() == self.entry_seq().len(),
    {
        let s = self.entry_seq();
        let keys = s.map_values(|e: (Seq<char>, V)| e.0);
        assert(keys.no_duplicates()) by {
            assert forall|i: int, j: int| 0 <= i < keys.len() && 0 <= j < keys.len() && i != j implies keys[i]
                != keys[j] by {
                if i < j {
                    assert(s[i].0 != s[j].0);
                } else {
                    assert(s[j].0 != s[i].0);
                }
            }
        }
        keys.unique_seq_to_set();
        self.lemma_wf();
        assert(self.map().dom() =~= keys.to_set()) by {
            assert forall|k: Seq<char>| self.map().dom().contains(k) implies keys.to_set().contains(k) by {
                let i = choose|i: int| 0 <= i < s.len() && s[i].0 == k;
                assert(keys[i] == k);
            }
            assert forall|k: Seq<char>| keys.to_set().contains(k) implies self.map().dom().contains(k) by {
                let i = choose|i: int| 0 <= i < keys.len() && keys[i] == k;
                assert(s[i].0 == k);
            }
        }
    }

    /// The entries list the map.
    pub proof fn lemma_lists(&self)
        requires
            names_unique(self.entry_seq()),
        ensures
            lists_map(self.entry_seq(), self.map()),
    {
        self.lemma_wf();
        self.lemma_len();
    }

    /// Position of the entry named `key`.
    fn position(&self, key: &str) -> (r: Option<usize>)
        ensures
            match r {
                Some(i) => i < self.entry_seq().len() && self.entry_seq()[i as int].0 == key@,
                None => !self.map().contains_key(key@),
            },
    {
        proof {
            use_type_invariant(self);
            self.lemma_wf();
        }
        let mut i: usize = 0;
        while i < self.entries.len()
            invariant
                i <= self.entries@.len(),
                self.entry_seq().len() == self.entries@.len(),
                forall|j: int| 0 <= j < i ==> self.entry_seq()[j].0 != key@,
            decreases self.entries@.len() - i,
        {
            if crate::text::str_eq(self.entries[i].0.as_str(), key) {
                return Some(i);
            }
            i = i + 1;
        }
        proof {
            if self.map().contains_key(key@) {
                let j = choose|j: int| 0 <= j < self.entry_seq().len() && self.entry_seq()[j].0 == key@;
                assert(false);
            }
        }
        None
    }

    /// The value stored for `key`.
    pub fn get(&self, key: &str) -> (r: Option<&V>)
        ensures
            match r {
                Some(v) => self.map().contains_key(key@) && self.map()[key@] == *v,
                None => !self.map().contains_key(key@),
            },
    {
        proof {
            use_type_invariant(self);
            self.lemma_wf();
        }
        match self.position(key) {
            Some(i) => Some(&self.entries[i].1),
            None => None,
        }
    }

    /// Whether `key` has a value.
    pub fn contains_key(&self, key: &str) -> (r: bool)
        ensures
            r == self.map().contains_key(key@),
    {
        proof {
            use_type_invariant(self);
            self.lemma_wf();
        }
        self.position(key).is_some()
    }

    /// The name and value of the entry at position `i`.
    pub fn entry_at(&self, i: usize) -> (r: (&String, &V))
        requires
            i < self.entry_seq().len(),
        ensures
            r.0@ == self.entry_seq()[i as int].0,
            *r.1 == self.entry_seq()[i as int].1,
    {
        (&self.entries[i].0, &self.entries[i].1)
    }

    /// Stores `value` for `key`, replacing and returning an earlier value; a new name
    /// goes last.
    pub fn insert(&mut self, key: String, value: V) -> (r: Option<V>)
        ensures
            final(self).map() == old(self).map().insert(key@, value),
            match r {
                Some(v) => old(self).map().contains_key(key@) && old(self).map()[key@] == v,
                None => !old(self).map().contains_key(key@),
            },
            old(self).map().contains_key(key@) ==> final(self).name_seq() == old(self).name_seq(),
            !old(self).map().contains_key(key@) ==> final(self).name_seq() == old(
                self,
            ).name_seq().push(key@),
            old(self).map().contains_key(key@) ==> final(self).entry_seq() == old(
                self,
            ).entry_seq().update(name_index(old(self).entry_seq(), key@), (key@, value)),
            !old(self).map().contains_key(key@) ==> final(self).entry_seq() == old(
                self,
            ).entry_seq().push((key@, value)),
    {
        proof {
            use_type_invariant(&*self);
            self.lemma_wf();
        }
        match self.position(key.as_str()) {
            Some(i) => {
                let ghost s = self.entry_seq();
                proof {
                    lemma_entries_map_update(s, i as int, value);
                    lemma_entries_map_at(s, i as int);
                }
                proof {
                    let j = name_index(s, key@);
                    assert(0 <= j < s.len() && s[j].0 == key@);
                    if j != i as int {
                        if j < i {
                            assert(s[j].0 != s[i as int].0);
                        } else {
                            assert(s[i as int].0 != s[j].0);
                        }
                    }
                }
                let mut entries: Vec<(String, V)> = Vec::new();
                std::mem::swap(&mut entries, &mut self.entries);
                let (name, old_value) = entries.remove(i);
                entries.insert(i, (name, value));
                assert(entries@.map_values(|e: (String, V)| (e.0@, e.1)) =~= s.update(
                    i as int,
                    (s[i as int].0, value),
                ));
                self.entries = entries;
                assert(self.name_seq() =~= s.map_values(|e: (Seq<char>, V)| e.0));
                Some(old_value)
            },
            None => {
                let ghost s = self.entry_seq();
                proof {
                    lemma_entries_map_push(s, key@, value);
                }
                let ghost k = key@;
                let mut entries: Vec<(String, V)> = Vec::new();
                std::mem::swap(&mut entries, &mut self.entries);
                entries.push((key, value));
                assert(entries@.map_values(|e: (String, V)| (e.0@, e.1)) =~= s.push((k, value)));
                self.entries = entries;
                assert(self.name_seq() =~= s.map_values(|e: (Seq<char>, V)| e.0).push(k));
                None
            },
        }
    }

    /// Removes and returns the value stored for `key`; the other entries keep their order.
    pub fn remove(&mut self, key: &str) -> (r: Option<V>)
        ensures
            final(self).map() == old(self).map().remove(key@),
            old(self).map().contains_key(key@) ==> final(self).entry_seq() == old(
                self,
            ).entry_seq().remove(name_index(old(self).entry_seq(), key@)),
            !old(self).map().contains_key(key@) ==> final(self).entry_seq() == old(
                self,
            ).entry_seq(),
            match r {
                Some(v) => old(self).map().contains_key(key@) && old(self).map()[key@] == v,
                None => !old(self).map().contains_key(key@),
            },
    {
        proof {
            use_type_invariant(&*self);
            self.lemma_wf();
        }
        match self.position(key) {
            Some(i) => {
                let ghost s = self.entry_seq();
                proof {
                    lemma_entries_map_remove(s, i as int);
                    lemma_entries_map_at(s, i as int);
                }
                proof {
                    let j = name_index(s, key@);
                    assert(0 <= j < s.len() && s[j].0 == key@);
                    if j != i as int {
                        if j < i {
                            assert(s[j].0 != s[i as int].0);
                        } else {
                            assert(s[i as int].0 != s[j].0);
                        }
                    }
                }
                let mut entries: Vec<(String, V)> = Vec::new();
                std::mem::swap(&mut entries, &mut self.entries);
                let (_name, old_value) = entries.remove(i);
                assert(entries@.map_values(|e: (String, V)| (e.0@, e.1)) =~= s.remove(i as int));
                self.entries = entries;
                Some(old_value)
            },
            None => {
                assert(old(self).map().remove(key@) =~= old(self).map());
                None
            },
        }
    }

    /// Removes every entry and hands them back in order.
    pub fn drain(&mut self) -> (r: Vec<(String, V)>)
        ensures
            final(self).map() == Map::<Seq<char>, V>::empty(),
            final(self).entry_seq() == Seq::<(Seq<char>, V)>::empty(),
            r@.map_values(|e: (String, V)| (e.0@, e.1)) == old(self).entry_seq(),
    {
        let mut entries: Vec<(String, V)> = Vec::new();
        std::mem::swap(&mut entries, &mut self.entries);
        assert(self.entry_seq() =~= Seq::<(Seq<char>, V)>::empty());
        assert(self.map() =~= Map::<Seq<char>, V>::empty());
        entries
    }

    /// The names in order.
    pub fn names(&self) -> (r: Vec<String>)
        ensures
            crate::text::strings_view(r@) == self.name_seq(),
            self.name_seq().no_duplicates(),
            self.name_seq().to_set() == self.map().dom(),
    {
        proof {
            use_type_invariant(self);
            self.lemma_wf();
            let names = self.name_seq();
            let s = self.entry_seq();
            assert forall|k: Seq<char>| names.to_set().contains(k) == self.map().dom().contains(k) by {
                if names.to_set().contains(k) {
                    let i = choose|i: int| 0 <= i < names.len() && names[i] == k;
                    assert(s[i].0 == k);
                }
                if self.map().dom().contains(k) {
                    let i = choose|i: int| 0 <= i < s.len() && s[i].0 == k;
                    assert(names[i] == k);
                }
            }
            assert(names.to_set() =~= self.map().dom());
            assert forall|i: int, j: int| 0 <= i < names.len() && 0 <= j < names.len() && i != j implies names[i] != names[j] by {
                if i < j {
                    assert(s[i].0 != s[j].0);
                } else {
                    assert(s[j].0 != s[i].0);
                }
            }
        }
        let n = self.entries.len();
        let mut out: Vec<String> = Vec::new();
        let mut i: usize = 0;
        while i < n
            invariant
                n == self.entries@.len(),
                i <= n,
                crate::text::strings_view(out@) == self.name_seq().subrange(0, i as int),
            decreases n - i,
        {
            let ghost prev = out@;
            assert(self.entry_seq()[i as int] == (self.entries@[i as int].0@, self.entries@[i as int].1));
            assert(self.name_seq()[i as int] == self.entries@[i as int].0@);
            out.push(self.entries[i].0.clone());
            assert(crate::text::strings_view(out@) =~= crate::text::strings_view(prev).push(out@[i as int]@));
            assert(crate::text::strings_view(out@) =~= self.name_seq().subrange(0, i + 1));
            i = i + 1;
        }
        assert(self.name_seq().subrange(0, n as int) =~= self.name_seq());
        out
    }
}

} // verus!
