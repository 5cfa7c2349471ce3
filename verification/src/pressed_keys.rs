use vstd::prelude::*;

use crate::text::str_eq;

verus! {

/// The keys currently held down, each with the time (in milliseconds) at
/// which its latest press was seen.
pub struct PressedKeys {
    entries: Vec<(String, u64)>,
}

/// The names of a list of entries, in order.
pub open spec fn entry_names(entries: Seq<(String, u64)>) -> Seq<Seq<char>> {
    entries.map_values(|e: (String, u64)| e.0@)
}

proof fn lemma_index_of_unique(s: Seq<Seq<char>>, i: int)
    requires
        s.no_duplicates(),
        0 <= i < s.len(),
    ensures
        s.index_of(s[i]) == i,
{
    assert(s.contains(s[i]));
}

impl PressedKeys {
    #[verifier::type_invariant]
    spec fn distinct_names(&self) -> bool {
        entry_names(self.entries@).no_duplicates()
    }

    spec fn names(&self) -> Seq<Seq<char>> {
        entry_names(self.entries@)
    }

    /// Which keys are held, and since when.
    pub closed spec fn view(&self) -> Map<Seq<char>, u64> {
        Map::new(
            |k: Seq<char>| self.names().contains(k),
            |k: Seq<char>| self.entries@[self.names().index_of(k)].1,
        )
    }

    proof fn lemma_view_at(&self, i: int)
        requires
            self.distinct_names(),
            0 <= i < self.entries@.len(),
        ensures
            self.view().dom().contains(self.entries@[i].0@),
            self.view()[self.entries@[i].0@] == self.entries@[i].1,
    {
        assert(self.names()[i] == self.entries@[i].0@);
        lemma_index_of_unique(self.names(), i);
    }

    /// No key held.
    pub fn new() -> (r: Self)
        ensures
            r.view() == Map::<Seq<char>, u64>::empty(),
    {
        let r = PressedKeys { entries: Vec::new() };
        assert(r.view() =~= Map::<Seq<char>, u64>::empty());
        r
    }

    /// Number of held keys.
    pub fn len(&self) -> (n: usize)
        ensures
            n == self.view().dom().len(),
    {
        proof {
            use_type_invariant(self);
            self.names().unique_seq_to_set();
            assert(self.view().dom() =~= self.names().to_set());
        }
        self.entries.len()
    }

    fn find(&self, key: &str) -> (r: Option<usize>)
        ensures
            match r {
                Some(i) => i < self.entries@.len() && self.entries@[i as int].0@ == key@,
                None => !self.names().contains(key@),
            },
    {
        let mut i: usize = 0;
        while i < self.entries.len()
            invariant
                i <= self.entries@.len(),
                forall|j: int| 0 <= j < i ==> self.entries@[j].0@ != key@,
            decreases self.entries@.len() - i,
        {
            if str_eq(self.entries[i].0.as_str(), key) {
                return Some(i);
            }
            i = i + 1;
        }
        proof {
            if self.names().contains(key@) {
                let j = choose|j: int| 0 <= j < self.names().len() && self.names()[j] == key@;
                assert(self.entries@[j].0@ == key@);
            }
        }
        None
    }

    /// Whether `key` is held.
    pub fn contains(&self, key: &str) -> (r: bool)
        ensures
            r == self.view().dom().contains(key@),
    {
        proof {
            use_type_invariant(self);
        }
        let r = self.find(key);
        proof {
            if let Some(i) = r {
                assert(self.names()[i as int] == key@);
            }
        }
        r.is_some()
    }

    /// Records a press of `key` at time `now_ms`; returns whether the key
    /// was not held before.
    pub fn insert(&mut self, key: &str, now_ms: u64) -> (was_absent: bool)
        ensures
            final(self).view() == old(self).view().insert(key@, now_ms),
            was_absent == !old(self).view().dom().contains(key@),
    {
        proof {
            use_type_invariant(&*self);
        }
        let ghost old_names = self.names();
        match self.find(key) {
            Some(i) => {
                let name = self.entries[i].0.clone();
                let mut entries: Vec<(String, u64)> = Vec::new();
                std::mem::swap(&mut entries, &mut self.entries);
                entries.set(i, (name, now_ms));
                proof {
                    assert(entry_names(entries@) =~= old_names);
                }
                self.entries = entries;
                proof {
                    assert(self.names() =~= old_names);
                    assert(old_names[i as int] == key@);
                    assert(self.view().dom() =~= old(self).view().insert(key@, now_ms).dom());
                    assert forall|k: Seq<char>| #![auto] self.view().dom().contains(k) implies self.view()[k]
                        == old(self).view().insert(key@, now_ms)[k] by {
                        let j = self.names().index_of(k);
                        self.lemma_view_at(j);
                        old(self).lemma_view_at(j);
                        lemma_index_of_unique(self.names(), i as int);
                    }
                    assert(self.view() =~= old(self).view().insert(key@, now_ms));
                }
                false
            },
            None => {
                let name = key.to_owned();
                let mut entries: Vec<(String, u64)> = Vec::new();
                std::mem::swap(&mut entries, &mut self.entries);
                entries.push((name, now_ms));
                proof {
                    assert(entry_names(entries@) =~= old_names.push(key@));
                    assert(entry_names(entries@).no_duplicates());
                }
                self.entries = entries;
                proof {
                    assert(self.names() =~= old_names.push(key@));
                    assert(self.names()[old_names.len() as int] == key@);
                    assert forall|k: Seq<char>| self.view().dom().contains(k) <==>
                        old(self).view().insert(key@, now_ms).dom().contains(k) by {
                        if self.names().contains(k) && k != key@ {
                            let j = choose|j: int| 0 <= j < self.names().len() && self.names()[j] == k;
                            assert(old_names[j] == k);
                        }
                        if old_names.contains(k) {
                            let j = choose|j: int| 0 <= j < old_names.len() && old_names[j] == k;
                            assert(self.names()[j] == k);
                        }
                    }
                    assert(self.view().dom() =~= old(self).view().insert(key@, now_ms).dom());
                    assert forall|k: Seq<char>| #![auto] self.view().dom().contains(k) implies self.view()[k]
                        == old(self).view().insert(key@, now_ms)[k] by {
                        let j = self.names().index_of(k);
                        self.lemma_view_at(j);
                        if j < old_names.len() {
                            old(self).lemma_view_at(j);
                        }
                    }
                    assert forall|k: Seq<char>| #![auto] old(self).view().dom().contains(k)
                        implies self.view().dom().contains(k) by {
                        let j = old_names.index_of(k);
                        assert(self.names()[j] == k);
                    }
                    assert(self.view() =~= old(self).view().insert(key@, now_ms));
                }
                true
            },
        }
    }

    /// Records the release of `key`.
    pub fn remove(&mut self, key: &str)
        ensures
            final(self).view() == old(self).view().remove(key@),
    {
        proof {
            use_type_invariant(&*self);
        }
        let ghost old_names = self.names();
        if let Some(i) = self.find(key) {
            let mut entries: Vec<(String, u64)> = Vec::new();
                std::mem::swap(&mut entries, &mut self.entries);
            let _ = entries.remove(i);
            proof {
                let nn = entry_names(entries@);
                assert(nn =~= old_names.remove(i as int));
                assert forall|a: int, b: int|
                    0 <= a < nn.len() && 0 <= b < nn.len() && a != b implies
                    nn[a] != nn[b] by {
                    let a0 = if a < i { a } else { a + 1 };
                    let b0 = if b < i { b } else { b + 1 };
                    assert(old_names[a0] != old_names[b0]);
                }
            }
            self.entries = entries;
            proof {
                assert(self.names() =~= old_names.remove(i as int));
                assert forall|k: Seq<char>| #![auto] self.view().dom().contains(k) implies
                    (k != key@ && old(self).view().dom().contains(k) && self.view()[k] == old(self).view()[k]) by {
                    let j = self.names().index_of(k);
                    self.lemma_view_at(j);
                    let j0 = if j < i { j } else { j + 1 };
                    assert(old_names[j0] == k);
                    old(self).lemma_view_at(j0);
                    lemma_index_of_unique(old_names, i as int);
                }
                assert forall|k: Seq<char>| #![auto] old(self).view().dom().contains(k) && k != key@
                    implies self.view().dom().contains(k) by {
                    let j0 = old_names.index_of(k);
                    let j = if j0 < i { j0 } else { j0 - 1 };
                    assert(self.names()[j] == k);
                }
                assert forall|k: Seq<char>| self.view().dom().contains(k) <==>
                    old(self).view().remove(key@).dom().contains(k) by {
                    if self.view().dom().contains(k) {
                        let j = self.names().index_of(k);
                        self.lemma_view_at(j);
                        let j0 = if j < i { j } else { j + 1 };
                        assert(old_names[j0] == k);
                        lemma_index_of_unique(old_names, i as int);
                        lemma_index_of_unique(old_names, j0);
                    }
                    if old(self).view().dom().contains(k) && k != key@ {
                        let j0 = old_names.index_of(k);
                        let j = if j0 < i { j0 } else { j0 - 1 };
                        assert(self.names()[j] == k);
                    }
                }
                assert(self.view().dom() =~= old(self).view().remove(key@).dom());
                assert(self.view() =~= old(self).view().remove(key@));
            }
        } else {
            assert(self.view() =~= old(self).view().remove(key@));
        }
    }

    /// The names of the held keys, each once.
    pub fn keys(&self) -> (ks: Vec<String>)
        ensures
            ks.deep_view().no_duplicates(),
            ks.deep_view().to_set() == self.view().dom(),
    {
        proof {
            use_type_invariant(self);
        }
        let mut ks: Vec<String> = Vec::new();
        let mut i: usize = 0;
        while i < self.entries.len()
            invariant
                i <= self.entries@.len(),
                ks.deep_view() =~= self.names().take(i as int),
                self.names().no_duplicates(),
            decreases self.entries@.len() - i,
        {
            ks.push(self.entries[i].0.clone());
            proof {
                assert(self.names().take(i as int).push(self.names()[i as int]) =~= self.names().take(i + 1));
            }
            i = i + 1;
        }
        proof {
            assert(self.names().take(self.entries@.len() as int) =~= self.names());
            assert(ks.deep_view().to_set() =~= self.view().dom());
        }
        ks
    }

    /// Keys other than `current` that have been held for three seconds
    /// or more at time `now_ms`; these may be stuck, their release missed.
    pub fn stale_keys(&self, current: Option<&str>, now_ms: u64) -> (ks: Vec<String>)
        ensures
            ks.deep_view().no_duplicates(),
            forall|k: Seq<char>| #![auto] ks.deep_view().contains(k) <==> (
                self.view().dom().contains(k)
                && (match current { Some(c) => k != c@, None => true })
                && now_ms >= self.view()[k] + 3000),
    {
        proof {
            use_type_invariant(self);
        }
        let mut ks: Vec<String> = Vec::new();
        let mut i: usize = 0;
        while i < self.entries.len()
            invariant
                i <= self.entries@.len(),
                self.names().no_duplicates(),
                ks.deep_view().no_duplicates(),
                forall|k: Seq<char>| #![auto] ks.deep_view().contains(k) <==> (
                    exists|j: int| 0 <= j < i && self.names()[j] == k
                    && (match current { Some(c) => k != c@, None => true })
                    && now_ms >= self.entries@[j].1 + 3000),
            decreases self.entries@.len() - i,
        {
            let name = &self.entries[i].0;
            let at = self.entries[i].1;
            let is_current = match current {
                Some(c) => str_eq(name.as_str(), c),
                None => false,
            };
            if !is_current && now_ms >= at && now_ms - at >= 3000 {
                let ghost before = ks.deep_view();
                ks.push(name.clone());
                proof {
                    assert(ks.deep_view() =~= before.push(self.names()[i as int]));
                    assert forall|a: int, b: int|
                        0 <= a < ks.deep_view().len() && 0 <= b < ks.deep_view().len() && a != b implies
                        ks.deep_view()[a] != ks.deep_view()[b] by {
                        if a == before.len() as int {
                            if before[b] == self.names()[i as int] {
                                let j = choose|j: int| 0 <= j < i && self.names()[j] == before[b]
                                    && (match current { Some(c) => before[b] != c@, None => true })
                                    && now_ms >= self.entries@[j].1 + 3000;
                                assert(before.contains(before[b]));
                            }
                        } else if b == before.len() as int {
                            if before[a] == self.names()[i as int] {
                                let j = choose|j: int| 0 <= j < i && self.names()[j] == before[a]
                                    && (match current { Some(c) => before[a] != c@, None => true })
                                    && now_ms >= self.entries@[j].1 + 3000;
                                assert(before.contains(before[a]));
                            }
                        }
                    }
                    assert forall|k: Seq<char>| #![auto] ks.deep_view().contains(k) <==> (
                        exists|j: int| 0 <= j < i + 1 && self.names()[j] == k
                        && (match current { Some(c) => k != c@, None => true })
                        && now_ms >= self.entries@[j].1 + 3000) by {
                        if ks.deep_view().contains(k) && k == self.names()[i as int] {
                            assert(self.names()[i as int] == k);
                        }
                        if k != self.names()[i as int] && ks.deep_view().contains(k) {
                            let a = choose|a: int| 0 <= a < ks.deep_view().len() && ks.deep_view()[a] == k;
                            assert(before[a] == k);
                            assert(before.contains(k));
                        }
                        if before.contains(k) {
                            let a = choose|a: int| 0 <= a < before.len() && before[a] == k;
                            assert(ks.deep_view()[a] == k);
                        }
                        assert(ks.deep_view()[before.len() as int] == self.names()[i as int]);
                    }
                }
            } else {
                proof {
                    assert forall|k: Seq<char>| #![auto] ks.deep_view().contains(k) <==> (
                        exists|j: int| 0 <= j < i + 1 && self.names()[j] == k
                        && (match current { Some(c) => k != c@, None => true })
                        && now_ms >= self.entries@[j].1 + 3000) by {
                        if exists|j: int| 0 <= j < i + 1 && self.names()[j] == k
                            && (match current { Some(c) => k != c@, None => true })
                            && now_ms >= self.entries@[j].1 + 3000 {
                            let j = choose|j: int| 0 <= j < i + 1 && self.names()[j] == k
                                && (match current { Some(c) => k != c@, None => true })
                                && now_ms >= self.entries@[j].1 + 3000;
                            if j == i as int {
                                assert(self.names()[i as int] == name@);
                            }
                        }
                    }
                }
            }
            i = i + 1;
        }
        proof {
            assert forall|k: Seq<char>| #![auto] ks.deep_view().contains(k) <==> (
                self.view().dom().contains(k)
                && (match current { Some(c) => k != c@, None => true })
                && now_ms >= self.view()[k] + 3000) by {
                if self.view().dom().contains(k) {
                    let j = self.names().index_of(k);
                    self.lemma_view_at(j);
                }
                if exists|j: int| 0 <= j < self.entries@.len() && self.names()[j] == k
                    && (match current { Some(c) => k != c@, None => true })
                    && now_ms >= self.entries@[j].1 + 3000 {
                    let j = choose|j: int| 0 <= j < self.entries@.len() && self.names()[j] == k
                        && (match current { Some(c) => k != c@, None => true })
                        && now_ms >= self.entries@[j].1 + 3000;
                    self.lemma_view_at(j);
                }
            }
        }
        ks
    }
}

} // verus!
