//! The cache's contents in memory: a map from addon names to page URLs, kept
//! as a list of pairs in which no name occurs twice.

use vstd::prelude::*;

verus! {

/// The map that a list of (name, URL) pairs stands for, later pairs winning.
pub open spec fn pairs_map(s: Seq<(String, String)>) -> Map<Seq<char>, Seq<char>>
    decreases s.len(),
{
    if s.len() == 0 {
        Map::empty()
    } else {
        pairs_map(s.drop_last()).insert(s.last().0@, s.last().1@)
    }
}

/// No name occurs twice.
pub open spec fn names_distinct(s: Seq<(String, String)>) -> bool {
    forall|i: int, j: int| 0 <= i < s.len() && 0 <= j < s.len() && i != j ==> s[i].0@ != s[j].0@
}

/// What a list of pairs says of each name.
pub proof fn lemma_pairs_map(s: Seq<(String, String)>)
    ensures
        pairs_map(s).dom().finite(),
        forall|k: Seq<char>|
            #[trigger] pairs_map(s).contains_key(k) <==> exists|i: int|
                0 <= i < s.len() && s[i].0@ == k,
        names_distinct(s) ==> forall|i: int|
            0 <= i < s.len() ==> #[trigger] pairs_map(s)[s[i].0@] == s[i].1@,
    decreases s.len(),
{
    if s.len() > 0 {
        let t = s.drop_last();
        lemma_pairs_map(t);
        assert forall|k: Seq<char>| #[trigger]
            pairs_map(s).contains_key(k) <==> exists|i: int| 0 <= i < s.len() && s[i].0@ == k by {
            if pairs_map(s).contains_key(k) && k != s.last().0@ {
                let i = choose|i: int| 0 <= i < t.len() && t[i].0@ == k;
                assert(s[i] == t[i]);
            }
            if exists|i: int| 0 <= i < s.len() && s[i].0@ == k {
                let i = choose|i: int| 0 <= i < s.len() && s[i].0@ == k;
                if i < t.len() {
                    assert(t[i] == s[i]);
                }
            }
        }
        if names_distinct(s) {
            assert forall|i: int| 0 <= i < s.len() implies #[trigger] pairs_map(s)[s[i].0@]
                == s[i].1@ by {
                if i < t.len() {
                    assert(t[i] == s[i]);
                    assert(s[i].0@ != s.last().0@);
                }
            }
        }
    }
}

/// The cache's entries: each addon name with the URL of its page.
pub struct AddonMap {
    entries: Vec<(String, String)>,
}

impl AddonMap {
    #[verifier::type_invariant]
    spec fn inv(self) -> bool {
        names_distinct(self.entries@)
    }

    /// The entries as a map from name to URL.
    pub closed spec fn view(&self) -> Map<Seq<char>, Seq<char>> {
        pairs_map(self.entries@)
    }

    /// A map with no entries.
    pub fn new() -> (m: AddonMap)
        ensures
            m.view() == Map::<Seq<char>, Seq<char>>::empty(),
    {
        AddonMap { entries: Vec::new() }
    }

    /// The position of `name` among the entries.
    fn position(&self, name: &String) -> (r: Option<usize>)
        ensures
            match r {
                Some(i) => i < self.entries@.len() && self.entries@[i as int].0@ == name@,
                None => forall|i: int|
                    0 <= i < self.entries@.len() ==> self.entries@[i].0@ != name@,
            },
    {
        let mut i: usize = 0;
        while i < self.entries.len()
            invariant
                i <= self.entries@.len(),
                forall|j: int| 0 <= j < i ==> self.entries@[j].0@ != name@,
            decreases self.entries.len() - i,
        {
            if self.entries[i].0 == *name {
                return Some(i);
            }
            i = i + 1;
        }
        None
    }

    /// The URL recorded for `name`, if any.
    pub fn get(&self, name: &str) -> (r: Option<String>)
        ensures
            match r {
                Some(url) => self.view().contains_key(name@) && url@ == self.view()[name@],
                None => !self.view().contains_key(name@),
            },
    {
        proof {
            use_type_invariant(self);
            lemma_pairs_map(self.entries@);
        }
        let key = name.to_owned();
        match self.position(&key) {
            Some(i) => Some(self.entries[i].1.clone()),
            None => None,
        }
    }

    /// Records `url` for `name`, replacing what was recorded before.
    pub fn insert(&mut self, name: &str, url: &str)
        ensures
            final(self).view() == old(self).view().insert(name@, url@),
    {
        proof {
            use_type_invariant(&*self);
            lemma_pairs_map(self.entries@);
        }
        let key = name.to_owned();
        let value = url.to_owned();
        let ghost before = self.entries@;
        let found = self.position(&key);
        let mut entries: Vec<(String, String)> = Vec::new();
        std::mem::swap(&mut entries, &mut self.entries);
        match found {
            Some(i) => {
                entries.set(i, (key, value));
                proof {
                    let after = entries@;
                    assert(after == before.update(i as int, after[i as int]));
                    assert forall|a: int, b: int|
                        0 <= a < after.len() && 0 <= b < after.len() && a != b implies after[a].0@
                        != after[b].0@ by {
                        if a != i as int && b != i as int {
                            assert(after[a] == before[a] && after[b] == before[b]);
                        } else if a == i as int {
                            assert(after[b] == before[b]);
                        } else {
                            assert(after[a] == before[a]);
                        }
                    }
                    lemma_pairs_map(after);
                    let m = pairs_map(before).insert(name@, url@);
                    assert forall|k: Seq<char>| #[trigger]
                        pairs_map(after).contains_key(k) <==> m.contains_key(k) by {
                        if m.contains_key(k) && k != name@ {
                            let j = choose|j: int| 0 <= j < before.len() && before[j].0@ == k;
                            assert(j != i as int);
                            assert(after[j] == before[j]);
                        }
                        if pairs_map(after).contains_key(k) && k != name@ {
                            let j = choose|j: int| 0 <= j < after.len() && after[j].0@ == k;
                            assert(j != i as int);
                            assert(after[j] == before[j]);
                        }
                    }
                    assert forall|k: Seq<char>| #[trigger]
                        pairs_map(after).contains_key(k) implies pairs_map(after)[k] == m[k] by {
                        let j = choose|j: int| 0 <= j < after.len() && after[j].0@ == k;
                        assert(pairs_map(after)[after[j].0@] == after[j].1@);
                        if j != i as int {
                            assert(after[j] == before[j]);
                            assert(pairs_map(before)[before[j].0@] == before[j].1@);
                        }
                    }
                    assert(pairs_map(after) =~= m);
                }
            },
            None => {
                entries.push((key, value));
                proof {
                    let after = entries@;
                    assert(after.drop_last() == before);
                    assert forall|a: int, b: int|
                        0 <= a < after.len() && 0 <= b < after.len() && a != b implies after[a].0@
                        != after[b].0@ by {
                        if a < before.len() {
                            assert(after[a] == before[a]);
                        }
                        if b < before.len() {
                            assert(after[b] == before[b]);
                        }
                    }
                }
            },
        }
        self.entries = entries;
    }

    /// Removes the entry for `name`; says whether there was one.
    pub fn remove(&mut self, name: &str) -> (removed: bool)
        ensures
            removed == old(self).view().contains_key(name@),
            final(self).view() == old(self).view().remove(name@),
    {
        proof {
            use_type_invariant(&*self);
            lemma_pairs_map(self.entries@);
        }
        let key = name.to_owned();
        let ghost before = self.entries@;
        match self.position(&key) {
            Some(i) => {
                let mut entries: Vec<(String, String)> = Vec::new();
                std::mem::swap(&mut entries, &mut self.entries);
                entries.remove(i);
                proof {
                    let after = entries@;
                    assert(after == before.remove(i as int));
                    assert forall|a: int| 0 <= a < after.len() implies #[trigger] after[a] == (
                    if a < i { before[a] } else { before[a + 1] }) by {}
                    assert forall|a: int, b: int|
                        0 <= a < after.len() && 0 <= b < after.len() && a != b implies after[a].0@
                        != after[b].0@ by {
                        assert(after[a] == (if a < i { before[a] } else { before[a + 1] }));
                        assert(after[b] == (if b < i { before[b] } else { before[b + 1] }));
                    }
                    lemma_pairs_map(after);
                    let m = pairs_map(before).remove(name@);
                    assert forall|k: Seq<char>| #[trigger]
                        pairs_map(after).contains_key(k) <==> m.contains_key(k) by {
                        if m.contains_key(k) {
                            let j = choose|j: int| 0 <= j < before.len() && before[j].0@ == k;
                            assert(j != i as int);
                            if j < i {
                                assert(after[j] == before[j]);
                            } else {
                                assert(after[j - 1] == before[j]);
                            }
                        }
                        if pairs_map(after).contains_key(k) {
                            let j = choose|j: int| 0 <= j < after.len() && after[j].0@ == k;
                            assert(after[j] == (if j < i { before[j] } else { before[j + 1] }));
                        }
                    }
                    assert forall|k: Seq<char>| #[trigger]
                        pairs_map(after).contains_key(k) implies pairs_map(after)[k] == m[k] by {
                        let j = choose|j: int| 0 <= j < after.len() && after[j].0@ == k;
                        assert(pairs_map(after)[after[j].0@] == after[j].1@);
                        if j < i {
                            assert(after[j] == before[j]);
                            assert(pairs_map(before)[before[j].0@] == before[j].1@);
                        } else {
                            assert(after[j] == before[j + 1]);
                            assert(pairs_map(before)[before[j + 1].0@] == before[j + 1].1@);
                        }
                    }
                    assert(pairs_map(after) =~= m);
                }
                self.entries = entries;
                true
            },
            None => {
                assert(pairs_map(before).remove(name@) =~= pairs_map(before));
                false
            },
        }
    }

    /// The entries as (name, URL) pairs, each name once.
    pub fn pairs(&self) -> (p: &Vec<(String, String)>)
        ensures
            names_distinct(p@),
            pairs_map(p@) == self.view(),
    {
        proof {
            use_type_invariant(self);
        }
        &self.entries
    }
}

} // verus!
