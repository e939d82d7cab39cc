use vstd::prelude::*;

use crate::hostname::Hostname;
use crate::text::StringSet;

verus! {

/// The map that a sequence of entries stands for: each entry binds its host name, a
/// later entry overriding an earlier one for the same name.
pub open spec fn entries_map<V>(s: Seq<(Hostname, V)>) -> Map<Seq<char>, V>
    decreases s.len(),
{
    if s.len() == 0 {
        Map::empty()
    } else {
        entries_map(s.drop_last()).insert(s.last().0@, s.last().1)
    }
}

/// No two entries carry the same host name.
pub open spec fn keys_unique<V>(s: Seq<(Hostname, V)>) -> bool {
    forall|i: int, j: int| 0 <= i < s.len() && 0 <= j < s.len() && i != j ==> s[i].0@ != s[j].0@
}

proof fn lemma_entries_dom<V>(s: Seq<(Hostname, V)>, k: Seq<char>)
    ensures
        entries_map(s).dom().contains(k) <==> exists|j: int| 0 <= j < s.len() && s[j].0@ == k,
    decreases s.len(),
{
    if s.len() > 0 {
        lemma_entries_dom(s.drop_last(), k);
        if exists|j: int| 0 <= j < s.len() && s[j].0@ == k {
            let j = choose|j: int| 0 <= j < s.len() && s[j].0@ == k;
            if j < s.len() - 1 {
                assert(s.drop_last()[j].0@ == k);
            }
        }
        if exists|j: int| 0 <= j < s.len() - 1 && s.drop_last()[j].0@ == k {
            let j = choose|j: int| 0 <= j < s.len() - 1 && s.drop_last()[j].0@ == k;
            assert(s[j].0@ == k);
        }
    }
}

proof fn lemma_entries_value<V>(s: Seq<(Hostname, V)>, j: int)
    requires
        keys_unique(s),
        0 <= j < s.len(),
    ensures
        entries_map(s).dom().contains(s[j].0@),
        entries_map(s)[s[j].0@] == s[j].1,
    decreases s.len(),
{
    lemma_entries_dom(s, s[j].0@);
    if j < s.len() - 1 {
        lemma_entries_value(s.drop_last(), j);
    }
}

proof fn lemma_entries_remove<V>(s: Seq<(Hostname, V)>, i: int)
    requires
        keys_unique(s),
        0 <= i < s.len(),
    ensures
        entries_map(s.remove(i)) == entries_map(s).remove(s[i].0@),
    decreases s.len(),
{
    let k = s[i].0@;
    if i == s.len() - 1 {
        assert(s.remove(i) =~= s.drop_last());
        lemma_entries_dom(s.drop_last(), k);
        assert(!entries_map(s.drop_last()).dom().contains(k));
        assert(entries_map(s.drop_last()) =~= entries_map(s).remove(k));
    } else {
        lemma_entries_remove(s.drop_last(), i);
        assert(s.remove(i).drop_last() =~= s.drop_last().remove(i));
        assert(s.remove(i).last() == s.last());
        assert(entries_map(s.remove(i)) =~= entries_map(s).remove(k));
    }
}

proof fn lemma_entries_update<V>(s: Seq<(Hostname, V)>, i: int, v: V)
    requires
        keys_unique(s),
        0 <= i < s.len(),
    ensures
        entries_map(s.update(i, (s[i].0, v))) == entries_map(s).insert(s[i].0@, v),
    decreases s.len(),
{
    let k = s[i].0@;
    let t = s.update(i, (s[i].0, v));
    if i == s.len() - 1 {
        assert(t.drop_last() =~= s.drop_last());
        assert(entries_map(t) =~= entries_map(s).insert(k, v));
    } else {
        lemma_entries_update(s.drop_last(), i, v);
        assert(t.drop_last() =~= s.drop_last().update(i, (s[i].0, v)));
        assert(s.last().0@ != k);
        assert(entries_map(t) =~= entries_map(s).insert(k, v));
    }
}

/// A map from host names to values, kept as a list of entries in which no host name
/// occurs twice. std's `HashMap` has a contract in vstd only for keys known to obey its
/// key model (integers and `bool`), which a host name, held as a `String`, is not.
#[derive(Debug)]
pub struct HostMap<V> {
    entries: Vec<(Hostname, V)>,
}

impl<V> View for HostMap<V> {
    type V = Map<Seq<char>, V>;

    /// The map this value stands for.
    closed spec fn view(&self) -> Map<Seq<char>, V> {
        entries_map(self.entries@)
    }
}

impl<V> HostMap<V> {
    #[verifier::type_invariant]
    spec fn entries_are_unique(self) -> bool {
        keys_unique(self.entries@)
    }

    /// The entries in their stored order.
    pub closed spec fn entry_seq(&self) -> Seq<(Hostname, V)> {
        self.entries@
    }

    /// An empty map.
    pub fn new() -> (res: Self)
        ensures
            res.view() == Map::<Seq<char>, V>::empty(),
            res.entry_seq().len() == 0,
    {
        HostMap { entries: Vec::new() }
    }

    /// The number of entries.
    pub fn len(&self) -> (res: usize)
        ensures
            res == self.entry_seq().len(),
            self.view().dom().finite(),
            res == self.view().dom().len(),
            forall|k: Seq<char>|
                #[trigger] self.view().dom().contains(k) ==> exists|j: int|
                    0 <= j < self.entry_seq().len() && self.entry_seq()[j].0@ == k
                        && self.view()[k] == self.entry_seq()[j].1,
    {
        proof {
            use_type_invariant(self);
            lemma_entries_dom_len(self.entries@);
            assert forall|k: Seq<char>| #[trigger] self.view().dom().contains(k) implies exists|j: int|
                0 <= j < self.entry_seq().len() && self.entry_seq()[j].0@ == k
                    && self.view()[k] == self.entry_seq()[j].1 by {
                lemma_entries_dom(self.entries@, k);
                let j = choose|j: int| 0 <= j < self.entries@.len() && self.entries@[j].0@ == k;
                lemma_entries_value(self.entries@, j);
                assert(self.entry_seq()[j].0@ == k && self.view()[k] == self.entry_seq()[j].1);
            }
        }
        self.entries.len()
    }

    /// The entry stored at position `i`.
    pub fn entry(&self, i: usize) -> (res: (&Hostname, &V))
        requires
            i < self.entry_seq().len(),
        ensures
            *res.0 == self.entry_seq()[i as int].0,
            *res.1 == self.entry_seq()[i as int].1,
            self.view().dom().contains(res.0@),
            self.view()[res.0@] == *res.1,
            forall|j: int| 0 <= j < self.entry_seq().len() && j != i ==> self.entry_seq()[j].0@ != res.0@,
    {
        proof {
            use_type_invariant(self);
            lemma_entries_value(self.entries@, i as int);
        }
        let e = &self.entries[i];
        (&e.0, &e.1)
    }

    /// The host names bound by the map, in stored order.
    pub fn keys(&self) -> (res: Vec<Hostname>)
        ensures
            res@.len() == self.entry_seq().len(),
            forall|j: int| 0 <= j < res@.len() ==> res@[j] == self.entry_seq()[j].0,
            forall|j: int| 0 <= j < res@.len() ==> #[trigger] self.view().dom().contains(res@[j]@),
            forall|k: Seq<char>| #[trigger] self.view().dom().contains(k) ==> exists|j: int| 0 <= j < res@.len() && res@[j]@ == k,
            forall|i: int, j: int| 0 <= i < res@.len() && 0 <= j < res@.len() && i != j ==> res@[i]@ != res@[j]@,
    {
        proof {
            use_type_invariant(self);
        }
        let mut res: Vec<Hostname> = Vec::new();
        let mut i: usize = 0;
        while i < self.entries.len()
            invariant
                i <= self.entries@.len(),
                keys_unique(self.entries@),
                res@.len() == i,
                forall|j: int| 0 <= j < i ==> res@[j] == self.entries@[j].0,
            decreases self.entries@.len() - i,
        {
            res.push(self.entries[i].0.clone());
            i = i + 1;
        }
        proof {
            assert forall|j: int| 0 <= j < res@.len() implies #[trigger] self.view().dom().contains(res@[j]@) by {
                lemma_entries_value(self.entries@, j);
            }
            assert forall|k: Seq<char>| #[trigger] self.view().dom().contains(k) implies exists|j: int| 0 <= j < res@.len() && res@[j]@ == k by {
                lemma_entries_dom(self.entries@, k);
                let j = choose|j: int| 0 <= j < self.entries@.len() && self.entries@[j].0@ == k;
                assert(res@[j]@ == k);
            }
        }
        res
    }

    /// The position of the entry for `key`, if there is one.
    pub fn position(&self, key: &Hostname) -> (res: Option<usize>)
        ensures
            res is None <==> !self.view().dom().contains(key@),
            res matches Some(i) ==> i < self.entry_seq().len() && self.entry_seq()[i as int].0@
                == key@,
    {
        proof {
            use_type_invariant(self);
        }
        let mut i: usize = 0;
        while i < self.entries.len()
            invariant
                i <= self.entries@.len(),
                keys_unique(self.entries@),
                forall|j: int| 0 <= j < i ==> self.entries@[j].0@ != key@,
            decreases self.entries@.len() - i,
        {
            if self.entries[i].0 == *key {
                proof {
                    lemma_entries_value(self.entries@, i as int);
                }
                return Some(i);
            }
            i = i + 1;
        }
        proof {
            lemma_entries_dom(self.entries@, key@);
        }
        None
    }

    /// Whether `key` has an entry.
    pub fn contains_key(&self, key: &Hostname) -> (res: bool)
        ensures
            res == self.view().dom().contains(key@),
    {
        self.position(key).is_some()
    }

    /// The value bound to `key`, if any.
    pub fn get(&self, key: &Hostname) -> (res: Option<&V>)
        ensures
            res is Some <==> self.view().dom().contains(key@),
            res matches Some(v) ==> *v == self.view()[key@],
    {
        proof {
            use_type_invariant(self);
        }
        match self.position(key) {
            Some(i) => {
                proof {
                    lemma_entries_value(self.entries@, i as int);
                }
                Some(&self.entries[i].1)
            },
            None => None,
        }
    }

    /// Binds `key` to `value`, replacing an earlier binding of that name.
    pub fn insert(&mut self, key: Hostname, value: V)
        ensures
            final(self).view() == old(self).view().insert(key@, value),
    {
        proof {
            use_type_invariant(&*self);
        }
        match self.position(&key) {
            Some(i) => {
                let ghost old_entries = self.entries@;
                let ghost stored = self.entries@[i as int].0;
                proof {
                    lemma_entries_update(old_entries, i as int, value);
                }
                let mut tmp = Vec::new();
                std::mem::swap(&mut tmp, &mut self.entries);
                let (k, _) = tmp.remove(i);
                tmp.insert(i, (k, value));
                assert(tmp@ =~= old_entries.update(i as int, (stored, value)));
                self.entries = tmp;
            },
            None => {
                let ghost old_entries = self.entries@;
                proof {
                    lemma_entries_dom(old_entries, key@);
                }
                let mut tmp = Vec::new();
                std::mem::swap(&mut tmp, &mut self.entries);
                tmp.push((key, value));
                assert(tmp@.drop_last() =~= old_entries);
                self.entries = tmp;
            },
        }
    }

    /// Removes the binding of `key`, handing back its value.
    pub fn remove(&mut self, key: &Hostname) -> (res: Option<V>)
        ensures
            final(self).view() == old(self).view().remove(key@),
            res is Some <==> old(self).view().dom().contains(key@),
            res matches Some(v) ==> v == old(self).view()[key@],
    {
        proof {
            use_type_invariant(&*self);
        }
        match self.position(key) {
            Some(i) => {
                let ghost old_entries = self.entries@;
                proof {
                    lemma_entries_remove(old_entries, i as int);
                    lemma_entries_value(old_entries, i as int);
                }
                let mut tmp = Vec::new();
                std::mem::swap(&mut tmp, &mut self.entries);
                let (_, v) = tmp.remove(i);
                self.entries = tmp;
                Some(v)
            },
            None => {
                proof {
                    assert(self.view().remove(key@) =~= self.view());
                }
                None
            },
        }
    }
}

proof fn lemma_entries_dom_len<V>(s: Seq<(Hostname, V)>)
    requires
        keys_unique(s),
    ensures
        entries_map(s).dom().finite(),
        entries_map(s).dom().len() == s.len(),
    decreases s.len(),
{
    if s.len() > 0 {
        lemma_entries_dom_len(s.drop_last());
        lemma_entries_dom(s.drop_last(), s.last().0@);
        if entries_map(s.drop_last()).dom().contains(s.last().0@) {
            let j = choose|j: int| 0 <= j < s.len() - 1 && s.drop_last()[j].0@ == s.last().0@;
            assert(s[j].0@ == s[s.len() - 1].0@);
        }
    }
}

/// The views of the strings that `m` binds some key to.
pub open spec fn value_views(m: Map<Seq<char>, String>) -> Set<Seq<char>> {
    Set::new(|v: Seq<char>| exists|k: Seq<char>| #[trigger] m.dom().contains(k) && m[k]@ == v)
}

impl HostMap<String> {
    /// The strings bound by the map, each once.
    pub fn values(&self) -> (res: StringSet)
        ensures
            res@ == value_views(self.view()),
    {
        proof {
            use_type_invariant(self);
        }
        let mut res = StringSet::new();
        let mut i: usize = 0;
        while i < self.entries.len()
            invariant
                i <= self.entries@.len(),
                keys_unique(self.entries@),
                forall|v: Seq<char>|
                    #[trigger] res@.contains(v) <==> exists|j: int|
                        0 <= j < i && self.entries@[j].1@ == v,
            decreases self.entries@.len() - i,
        {
            res.insert(self.entries[i].1.clone());
            proof {
                assert forall|v: Seq<char>|
                    #[trigger] res@.contains(v) <==> exists|j: int|
                        0 <= j < i + 1 && self.entries@[j].1@ == v by {
                    if v == self.entries@[i as int].1@ {
                        assert(0 <= i < i + 1 && self.entries@[i as int].1@ == v);
                    }
                }
            }
            i = i + 1;
        }
        proof {
            assert forall|v: Seq<char>| res@.contains(v) <==> value_views(self.view()).contains(v) by {
                if res@.contains(v) {
                    let j = choose|j: int| 0 <= j < self.entries@.len() && self.entries@[j].1@ == v;
                    lemma_entries_value(self.entries@, j);
                    assert(self.view().dom().contains(self.entries@[j].0@));
                }
                if value_views(self.view()).contains(v) {
                    let k = choose|k: Seq<char>|
                        #[trigger] self.view().dom().contains(k) && self.view()[k]@ == v;
                    lemma_entries_dom(self.entries@, k);
                    let j = choose|j: int| 0 <= j < self.entries@.len() && self.entries@[j].0@ == k;
                    lemma_entries_value(self.entries@, j);
                }
            }
            assert(res@ =~= value_views(self.view()));
        }
        res
    }
}

} // verus!
