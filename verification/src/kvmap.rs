use vstd::prelude::*;

use crate::text::{compare_text, lemma_lex_irreflexive, lemma_lex_transitive, lex_lt, KeyOrder};

verus! {

/// A key and its value, both taken as character sequences.
pub type EntryView = (Seq<char>, Seq<char>);

/// Keys strictly increase along the sequence, so no key occurs twice.
pub open spec fn keys_increasing(s: Seq<EntryView>) -> bool {
    forall|i: int, j: int| 0 <= i < j < s.len() ==> lex_lt(#[trigger] s[i].0, #[trigger] s[j].0)
}

/// The map that a sequence of entries stands for; a later entry wins over an earlier one.
pub open spec fn entries_to_map(s: Seq<EntryView>) -> Map<Seq<char>, Seq<char>>
    decreases s.len(),
{
    if s.len() == 0 {
        Map::empty()
    } else {
        entries_to_map(s.drop_last()).insert(s.last().0, s.last().1)
    }
}

/// Some entry has key `k`.
pub open spec fn has_key(s: Seq<EntryView>, k: Seq<char>) -> bool {
    exists|i: int| 0 <= i < s.len() && #[trigger] s[i].0 == k
}

/// A key lies in the map exactly when some entry carries it.
pub proof fn lemma_entries_contains(s: Seq<EntryView>, k: Seq<char>)
    ensures
        entries_to_map(s).contains_key(k) == has_key(s, k),
        entries_to_map(s).dom().finite(),
    decreases s.len(),
{
    if s.len() > 0 {
        let t = s.drop_last();
        lemma_entries_contains(t, k);
        if has_key(t, k) {
            let i = choose|i: int| 0 <= i < t.len() && #[trigger] t[i].0 == k;
            assert(s[i].0 == k);
        }
        if has_key(s, k) && s.last().0 != k {
            let i = choose|i: int| 0 <= i < s.len() && #[trigger] s[i].0 == k;
            assert(t[i].0 == k);
        }
        if s.last().0 == k {
            assert(s[s.len() - 1].0 == k);
        }
    }
}

/// With keys increasing, the value that the map gives each entry's key is that entry's value.
pub proof fn lemma_entries_value(s: Seq<EntryView>, i: int)
    requires
        keys_increasing(s),
        0 <= i < s.len(),
    ensures
        entries_to_map(s).contains_key(s[i].0),
        entries_to_map(s)[s[i].0] == s[i].1,
    decreases s.len(),
{
    let t = s.drop_last();
    if i < s.len() - 1 {
        assert(keys_increasing(t));
        lemma_entries_value(t, i);
        assert(lex_lt(s[i].0, s[s.len() - 1].0));
        lemma_lex_irreflexive(s[i].0);
    }
}

/// With keys increasing, the map has as many keys as there are entries.
pub proof fn lemma_entries_len(s: Seq<EntryView>)
    requires
        keys_increasing(s),
    ensures
        entries_to_map(s).len() == s.len(),
    decreases s.len(),
{
    if s.len() > 0 {
        let t = s.drop_last();
        assert(keys_increasing(t));
        lemma_entries_len(t);
        lemma_entries_contains(t, s.last().0);
        if has_key(t, s.last().0) {
            let i = choose|i: int| 0 <= i < t.len() && #[trigger] t[i].0 == s.last().0;
            assert(lex_lt(s[i].0, s[s.len() - 1].0));
            lemma_lex_irreflexive(s[i].0);
        }
    }
}

/// Two sorted entry sequences with the same keys and values stand for the same map.
pub proof fn lemma_entries_map_ext(s: Seq<EntryView>, m: Map<Seq<char>, Seq<char>>)
    requires
        keys_increasing(s),
        m.dom().finite(),
        forall|k: Seq<char>| m.contains_key(k) <==> has_key(s, k),
        forall|i: int| 0 <= i < s.len() ==> m[#[trigger] s[i].0] == s[i].1,
    ensures
        entries_to_map(s) == m,
{
    assert forall|k: Seq<char>| #[trigger] entries_to_map(s).contains_key(k) <==> m.contains_key(k) by {
        lemma_entries_contains(s, k);
    }
    assert forall|k: Seq<char>| #[trigger] entries_to_map(s).contains_key(k) implies entries_to_map(s)[k] == m[k] by {
        lemma_entries_contains(s, k);
        let i = choose|i: int| 0 <= i < s.len() && #[trigger] s[i].0 == k;
        lemma_entries_value(s, i);
    }
    assert(entries_to_map(s) =~= m);
}

/// The view of a vector of owned string pairs.
pub open spec fn owned_entries(v: Seq<(String, String)>) -> Seq<EntryView> {
    v.map_values(|e: (String, String)| (e.0@, e.1@))
}

/// The view of a vector of borrowed string pairs.
pub open spec fn borrowed_entries(v: Seq<(&String, &String)>) -> Seq<EntryView> {
    v.map_values(|e: (&String, &String)| (e.0@, e.1@))
}

/// A map from strings to strings that keeps its entries in increasing key order,
/// as an ordered map does. The order is `lex_lt`, proved here, since vstd gives
/// `String` no order specification on which a std ordered map could rest.
#[derive(Debug, PartialEq, Eq)]
pub struct KeyValueMap {
    entries: Vec<(String, String)>,
}

impl KeyValueMap {
    /// The entries in key order.
    pub closed spec fn entries(&self) -> Seq<EntryView> {
        owned_entries(self.entries@)
    }

    #[verifier::type_invariant]
    closed spec fn sorted(&self) -> bool {
        keys_increasing(owned_entries(self.entries@))
    }
}

impl KeyValueMap {
    /// An empty map.
    pub fn new() -> (m: Self)
        ensures
            m@ == Map::<Seq<char>, Seq<char>>::empty(),
            m.entries().len() == 0,
    {
        KeyValueMap { entries: Vec::new() }
    }

    /// The number of keys.
    pub fn len(&self) -> (n: usize)
        ensures
            n == self@.len(),
            n == self.entries().len(),
    {
        proof {
            use_type_invariant(self);
            lemma_entries_len(self.entries());
        }
        self.entries.len()
    }

    /// Whether the map has no key.
    pub fn is_empty(&self) -> (b: bool)
        ensures
            b == (self@.len() == 0),
            b == (self@ == Map::<Seq<char>, Seq<char>>::empty()),
    {
        proof {
            use_type_invariant(self);
            lemma_entries_len(self.entries());
            if self@.len() == 0 {
                lemma_entries_contains(self.entries(), Seq::empty());
                assert(self@.dom() =~= Set::empty()) by {
                    assert forall|k: Seq<char>| !#[trigger] self@.contains_key(k) by {
                        lemma_entries_contains(self.entries(), k);
                    }
                }
                assert(self@ =~= Map::<Seq<char>, Seq<char>>::empty());
            }
        }
        self.entries.len() == 0
    }

    /// Where `key` stands among the entries: the first position whose key does not
    /// come before `key`, and whether the key there is `key` itself.
    fn locate(&self, key: &str) -> (r: (usize, bool))
        ensures
            r.0 <= self.entries().len(),
            forall|i: int| 0 <= i < r.0 ==> lex_lt(#[trigger] self.entries()[i].0, key@),
            r.1 ==> r.0 < self.entries().len() && self.entries()[r.0 as int].0 == key@,
            !r.1 ==> r.0 == self.entries().len() || lex_lt(key@, self.entries()[r.0 as int].0),
    {
        let n = self.entries.len();
        let mut i: usize = 0;
        while i < n
            invariant
                n == self.entries@.len(),
                i <= n,
                forall|j: int| 0 <= j < i ==> lex_lt(#[trigger] self.entries()[j].0, key@),
            decreases n - i,
        {
            let k: &str = self.entries[i].0.as_str();
            match compare_text(k, key) {
                KeyOrder::Less => {
                    i = i + 1;
                },
                KeyOrder::Equal => {
                    return (i, true);
                },
                KeyOrder::Greater => {
                    return (i, false);
                },
            }
        }
        (i, false)
    }

    /// The value of `key`, if the map has it.
    pub fn get(&self, key: &str) -> (r: Option<&String>)
        ensures
            match r {
                Some(v) => self@.contains_key(key@) && v@ == self@[key@],
                None => !self@.contains_key(key@),
            },
    {
        proof {
            use_type_invariant(self);
        }
        let (i, found) = self.locate(key);
        proof {
            lemma_entries_contains(self.entries(), key@);
        }
        if found {
            proof {
                lemma_entries_value(self.entries(), i as int);
            }
            Some(&self.entries[i].1)
        } else {
            proof {
                if has_key(self.entries(), key@) {
                    let j = choose|j: int| 0 <= j < self.entries().len() && #[trigger] self.entries()[j].0 == key@;
                    lemma_lex_irreflexive(key@);
                    if j >= i {
                        if j > i {
                            lemma_lex_transitive(key@, self.entries()[i as int].0, key@);
                        }
                    }
                }
            }
            None
        }
    }

    /// Whether the map has `key`.
    pub fn contains_key(&self, key: &str) -> (b: bool)
        ensures
            b == self@.contains_key(key@),
    {
        self.get(key).is_some()
    }
}

impl KeyValueMap {
    /// Sets `key` to `value`, and gives back the value that `key` had before, if any.
    pub fn insert(&mut self, key: String, value: String) -> (prev: Option<String>)
        ensures
            final(self)@ == old(self)@.insert(key@, value@),
            match prev {
                Some(v) => old(self)@.contains_key(key@) && v@ == old(self)@[key@],
                None => !old(self)@.contains_key(key@),
            },
    {
        proof {
            use_type_invariant(&*self);
        }
        let (i, found) = self.locate(key.as_str());
        let ghost s = self.entries();
        let ghost k = key@;
        let ghost v = value@;
        proof {
            lemma_entries_contains(s, k);
            lemma_entries_len(s);
        }
        if found {
            proof {
                lemma_entries_value(s, i as int);
            }
            let mut entries: Vec<(String, String)> = Vec::new();
            std::mem::swap(&mut entries, &mut self.entries);
            let prev_value = entries[i].1.clone();
            assert(owned_entries(entries@) == s);
            entries.set(i, (key, value));
            proof {
                let n = owned_entries(entries@);
                assert(n =~= s.update(i as int, (k, v)));
                assert(keys_increasing(n));
                lemma_entries_contains(s, k);
                assert forall|q: Seq<char>| old(self)@.insert(k, v).contains_key(q) <==> has_key(n, q) by {
                    lemma_entries_contains(s, q);
                    if has_key(s, q) {
                        let j = choose|j: int| 0 <= j < s.len() && #[trigger] s[j].0 == q;
                        assert(n[j].0 == q);
                    }
                    if has_key(n, q) {
                        let j = choose|j: int| 0 <= j < n.len() && #[trigger] n[j].0 == q;
                        assert(s[j].0 == q);
                    }
                }
                assert forall|j: int| 0 <= j < n.len() implies old(self)@.insert(k, v)[#[trigger] n[j].0] == n[j].1 by {
                    if j != i {
                        lemma_entries_value(s, j);
                        lemma_lex_irreflexive(k);
                        assert(s[j].0 != k) by {
                            if j < i {
                                assert(lex_lt(s[j].0, s[i as int].0));
                            } else {
                                assert(lex_lt(s[i as int].0, s[j].0));
                            }
                        }
                    }
                }
                lemma_entries_map_ext(n, old(self)@.insert(k, v));
            }
            self.entries = entries;
            Some(prev_value)
        } else {
            proof {
                if has_key(s, k) {
                    let j = choose|j: int| 0 <= j < s.len() && #[trigger] s[j].0 == k;
                    lemma_lex_irreflexive(k);
                    if j > i {
                        lemma_lex_transitive(k, s[i as int].0, k);
                    }
                }
            }
            let mut entries: Vec<(String, String)> = Vec::new();
            std::mem::swap(&mut entries, &mut self.entries);
            entries.insert(i, (key, value));
            proof {
                let n = owned_entries(entries@);
                assert(n =~= s.insert(i as int, (k, v)));
                assert forall|b: int| i < b < n.len() implies lex_lt(k, #[trigger] n[b].0) by {
                    assert(n[b] == s[b - 1]);
                    if b - 1 > i {
                        assert(lex_lt(s[i as int].0, s[b - 1].0));
                        lemma_lex_transitive(k, s[i as int].0, s[b - 1].0);
                    }
                }
                assert forall|a: int| 0 <= a < i implies lex_lt(#[trigger] n[a].0, k) by {
                    assert(n[a] == s[a]);
                }
                assert forall|a: int, b: int| 0 <= a < b < n.len() implies lex_lt(#[trigger] n[a].0, #[trigger] n[b].0) by {
                    if b < i {
                    } else if a < i && b == i {
                    } else if a < i && b > i {
                        lemma_lex_transitive(n[a].0, k, n[b].0);
                    } else if a > i {
                        assert(n[a] == s[a - 1]);
                        assert(n[b] == s[b - 1]);
                    }
                }
                assert forall|q: Seq<char>| old(self)@.insert(k, v).contains_key(q) <==> has_key(n, q) by {
                    lemma_entries_contains(s, q);
                    if has_key(s, q) {
                        let j = choose|j: int| 0 <= j < s.len() && #[trigger] s[j].0 == q;
                        if j < i {
                            assert(n[j].0 == q);
                        } else {
                            assert(n[j + 1].0 == q);
                        }
                    }
                    if q == k {
                        assert(n[i as int].0 == q);
                    }
                    if has_key(n, q) {
                        let j = choose|j: int| 0 <= j < n.len() && #[trigger] n[j].0 == q;
                        if j < i {
                            assert(s[j].0 == q);
                        } else if j > i {
                            assert(s[j - 1].0 == q);
                        }
                    }
                }
                assert forall|j: int| 0 <= j < n.len() implies old(self)@.insert(k, v)[#[trigger] n[j].0] == n[j].1 by {
                    if j != i {
                        lemma_lex_irreflexive(k);
                        if j < i {
                            assert(n[j] == s[j]);
                            lemma_entries_value(s, j);
                        } else {
                            assert(n[j] == s[j - 1]);
                            lemma_entries_value(s, j - 1);
                        }
                        assert(n[j].0 != k);
                    }
                }
                lemma_entries_map_ext(n, old(self)@.insert(k, v));
            }
            self.entries = entries;
            None
        }
    }

    /// Removes `key`, and gives back its value, if the map had it.
    pub fn remove(&mut self, key: &str) -> (prev: Option<String>)
        ensures
            final(self)@ == old(self)@.remove(key@),
            match prev {
                Some(v) => old(self)@.contains_key(key@) && v@ == old(self)@[key@],
                None => !old(self)@.contains_key(key@),
            },
    {
        proof {
            use_type_invariant(&*self);
        }
        let (i, found) = self.locate(key);
        let ghost s = self.entries();
        let ghost k = key@;
        proof {
            lemma_entries_contains(s, k);
            lemma_entries_len(s);
        }
        if found {
            proof {
                lemma_entries_value(s, i as int);
            }
            let mut entries: Vec<(String, String)> = Vec::new();
            std::mem::swap(&mut entries, &mut self.entries);
            let old_pair = entries.remove(i);
            proof {
                let n = owned_entries(entries@);
                assert(n =~= s.remove(i as int));
                assert forall|a: int, b: int| 0 <= a < b < n.len() implies lex_lt(#[trigger] n[a].0, #[trigger] n[b].0) by {
                    if a < i && b >= i {
                        assert(n[b] == s[b + 1]);
                    } else if a >= i {
                        assert(n[a] == s[a + 1]);
                        assert(n[b] == s[b + 1]);
                    }
                }
                let m = old(self)@.remove(k);
                assert forall|q: Seq<char>| m.contains_key(q) <==> has_key(n, q) by {
                    lemma_entries_contains(s, q);
                    if has_key(s, q) && q != k {
                        let j = choose|j: int| 0 <= j < s.len() && #[trigger] s[j].0 == q;
                        if j < i {
                            assert(n[j].0 == q);
                        } else {
                            assert(j != i);
                            assert(n[j - 1].0 == q);
                        }
                    }
                    if has_key(n, q) {
                        let j = choose|j: int| 0 <= j < n.len() && #[trigger] n[j].0 == q;
                        lemma_lex_irreflexive(k);
                        if j < i {
                            assert(s[j].0 == q);
                            assert(lex_lt(s[j].0, s[i as int].0));
                        } else {
                            assert(s[j + 1].0 == q);
                            assert(lex_lt(s[i as int].0, s[j + 1].0));
                        }
                    }
                }
                assert forall|j: int| 0 <= j < n.len() implies m[#[trigger] n[j].0] == n[j].1 by {
                    lemma_lex_irreflexive(k);
                    if j < i {
                        lemma_entries_value(s, j);
                        assert(lex_lt(s[j].0, s[i as int].0));
                    } else {
                        lemma_entries_value(s, j + 1);
                        assert(lex_lt(s[i as int].0, s[j + 1].0));
                    }
                }
                lemma_entries_map_ext(n, m);
            }
            self.entries = entries;
            Some(old_pair.1)
        } else {
            proof {
                if has_key(s, k) {
                    let j = choose|j: int| 0 <= j < s.len() && #[trigger] s[j].0 == k;
                    lemma_lex_irreflexive(k);
                    if j > i {
                        lemma_lex_transitive(k, s[i as int].0, k);
                    }
                }
                assert(old(self)@.remove(k) =~= old(self)@);
            }
            None
        }
    }
}

impl KeyValueMap {
    /// The entries in increasing key order, as an ordered map walks them.
    pub fn iter(&self) -> (out: Vec<(&String, &String)>)
        ensures
            borrowed_entries(out@) == self.entries(),
            keys_increasing(self.entries()),
            entries_to_map(self.entries()) == self@,
    {
        proof {
            use_type_invariant(self);
        }
        let mut out: Vec<(&String, &String)> = Vec::new();
        let n = self.entries.len();
        let mut i: usize = 0;
        while i < n
            invariant
                n == self.entries@.len(),
                i <= n,
                borrowed_entries(out@) =~= self.entries().take(i as int),
            decreases n - i,
        {
            let e = &self.entries[i];
            let ghost before = out@;
            out.push((&e.0, &e.1));
            proof {
                assert(out@ =~= before.push((&e.0, &e.1)));
                assert(borrowed_entries(out@) =~= borrowed_entries(before).push((e.0@, e.1@)));
                assert(self.entries().take(i + 1) =~= self.entries().take(i as int).push(self.entries()[i as int]));
            }
            i = i + 1;
        }
        assert(self.entries().take(n as int) =~= self.entries());
        out
    }
}

impl Clone for KeyValueMap {
    fn clone(&self) -> (copy: Self)
        ensures
            copy@ == self@,
            copy.entries() == self.entries(),
    {
        proof {
            use_type_invariant(self);
        }
        let mut entries: Vec<(String, String)> = Vec::new();
        let n = self.entries.len();
        let mut i: usize = 0;
        while i < n
            invariant
                n == self.entries@.len(),
                i <= n,
                owned_entries(entries@) =~= self.entries().take(i as int),
                keys_increasing(self.entries()),
            decreases n - i,
        {
            let e = &self.entries[i];
            let ghost before = entries@;
            let pair = (e.0.clone(), e.1.clone());
            entries.push(pair);
            proof {
                assert(entries@ =~= before.push(pair));
                assert(owned_entries(entries@) =~= owned_entries(before).push((e.0@, e.1@)));
                assert(self.entries().take(i + 1) =~= self.entries().take(i as int).push(self.entries()[i as int]));
            }
            i = i + 1;
        }
        assert(self.entries().take(n as int) =~= self.entries());
        KeyValueMap { entries }
    }
}

impl Default for KeyValueMap {
    fn default() -> (m: Self)
        ensures
            m@ == Map::<Seq<char>, Seq<char>>::empty(),
    {
        KeyValueMap::new()
    }
}

impl View for KeyValueMap {
    type V = Map<Seq<char>, Seq<char>>;

    closed spec fn view(&self) -> Map<Seq<char>, Seq<char>> {
        entries_to_map(owned_entries(self.entries@))
    }
}

} // verus!
