//! The frontend addresses sheets by id, the workbook by name: a map from the
//! one to the other.

use vstd::prelude::*;

verus! {

/// The map that a sequence of (key, value) insertions builds: a later pair
/// overrides an earlier one with the same key.
pub open spec fn pairs_map(pairs: Seq<(String, String)>) -> Map<Seq<char>, Seq<char>>
    decreases pairs.len(),
{
    if pairs.len() == 0 {
        Map::empty()
    } else {
        pairs_map(pairs.drop_last()).insert(pairs.last().0@, pairs.last().1@)
    }
}

/// No key occurs twice.
pub open spec fn distinct_keys(pairs: Seq<(String, String)>) -> bool {
    forall|i: int, j: int|
        0 <= i < j < pairs.len() ==> #[trigger] pairs[i].0@ != #[trigger] pairs[j].0@
}

proof fn lemma_pairs_map_lookup(pairs: Seq<(String, String)>, i: int)
    requires
        distinct_keys(pairs),
        0 <= i < pairs.len(),
    ensures
        pairs_map(pairs).contains_key(pairs[i].0@),
        pairs_map(pairs)[pairs[i].0@] == pairs[i].1@,
    decreases pairs.len(),
{
    if i < pairs.len() - 1 {
        let init = pairs.drop_last();
        assert(init[i] == pairs[i]);
        assert(distinct_keys(init)) by {
            assert forall|a: int, b: int| 0 <= a < b < init.len() implies #[trigger] init[a].0@ != #[trigger] init[b].0@ by {
                assert(init[a] == pairs[a] && init[b] == pairs[b]);
            }
        }
        lemma_pairs_map_lookup(init, i);
        assert(pairs[i].0@ != pairs[pairs.len() - 1].0@);
    }
}

proof fn lemma_pairs_map_absent(pairs: Seq<(String, String)>, key: Seq<char>)
    requires
        forall|i: int| 0 <= i < pairs.len() ==> #[trigger] pairs[i].0@ != key,
    ensures
        !pairs_map(pairs).contains_key(key),
    decreases pairs.len(),
{
    if pairs.len() > 0 {
        let init = pairs.drop_last();
        assert forall|i: int| 0 <= i < init.len() implies #[trigger] init[i].0@ != key by {
            assert(init[i] == pairs[i]);
        }
        lemma_pairs_map_absent(init, key);
    }
}

proof fn lemma_pairs_map_update(pairs: Seq<(String, String)>, i: int, v: String)
    requires
        distinct_keys(pairs),
        0 <= i < pairs.len(),
    ensures
        pairs_map(pairs.update(i, (pairs[i].0, v))) == pairs_map(pairs).insert(pairs[i].0@, v@),
    decreases pairs.len(),
{
    let updated = pairs.update(i, (pairs[i].0, v));
    let init = pairs.drop_last();
    if i == pairs.len() - 1 {
        assert(updated.drop_last() =~= init);
        assert(distinct_keys(init)) by {
            assert forall|a: int, b: int| 0 <= a < b < init.len() implies #[trigger] init[a].0@ != #[trigger] init[b].0@ by {
                assert(init[a] == pairs[a] && init[b] == pairs[b]);
            }
        }
        assert(pairs_map(pairs) == pairs_map(init).insert(pairs[i].0@, pairs[i].1@));
        assert(pairs_map(updated) =~= pairs_map(pairs).insert(pairs[i].0@, v@));
    } else {
        assert(updated.drop_last() =~= init.update(i, (pairs[i].0, v)));
        assert(init[i] == pairs[i]);
        assert(distinct_keys(init)) by {
            assert forall|a: int, b: int| 0 <= a < b < init.len() implies #[trigger] init[a].0@ != #[trigger] init[b].0@ by {
                assert(init[a] == pairs[a] && init[b] == pairs[b]);
            }
        }
        lemma_pairs_map_update(init, i, v);
        assert(pairs[i].0@ != pairs.last().0@);
        assert(updated.last() == pairs.last());
        assert(pairs_map(updated) =~= pairs_map(pairs).insert(pairs[i].0@, v@));
    }
}

/// A map from sheet id to sheet name.
pub struct SheetMap {
    entries: Vec<(String, String)>,
}

impl SheetMap {
    #[verifier::type_invariant]
    spec fn keys_distinct(self) -> bool {
        distinct_keys(self.entries@)
    }

    /// The map, from id to name.
    pub closed spec fn view(self) -> Map<Seq<char>, Seq<char>> {
        pairs_map(self.entries@)
    }

    /// The empty map.
    pub fn new() -> (res: SheetMap)
        ensures
            res.view() == Map::<Seq<char>, Seq<char>>::empty(),
    {
        SheetMap { entries: Vec::new() }
    }

    /// The name recorded for `id`.
    pub fn get(&self, id: &str) -> (res: Option<&String>)
        ensures
            match res {
                Some(name) => self.view().contains_key(id@) && self.view()[id@] == name@,
                None => !self.view().contains_key(id@),
            },
    {
        proof { use_type_invariant(self); }
        let n = self.entries.len();
        let mut i: usize = 0;
        while i < n
            invariant
                n == self.entries@.len(),
                i <= n,
                distinct_keys(self.entries@),
                forall|j: int| 0 <= j < i ==> #[trigger] self.entries@[j].0@ != id@,
            decreases n - i,
        {
            if crate::text::str_eq(self.entries[i].0.as_str(), id) {
                proof { lemma_pairs_map_lookup(self.entries@, i as int); }
                return Some(&self.entries[i].1);
            }
            i = i + 1;
        }
        proof { lemma_pairs_map_absent(self.entries@, id@); }
        None
    }

    /// Records `name` for `id`, replacing what was recorded for it.
    pub fn insert(&mut self, id: String, name: String)
        ensures
            final(self).view() == old(self).view().insert(id@, name@),
    {
        proof { use_type_invariant(&*self); }
        let n = self.entries.len();
        let mut i: usize = 0;
        while i < n
            invariant
                n == self.entries@.len(),
                i <= n,
                distinct_keys(self.entries@),
                self.entries@ == old(self).entries@,
                forall|j: int| 0 <= j < i ==> #[trigger] self.entries@[j].0@ != id@,
            decreases n - i,
        {
            if crate::text::str_eq(self.entries[i].0.as_str(), id.as_str()) {
                let ghost before = self.entries@;
                let key = self.entries[i].0.clone();
                proof { lemma_pairs_map_update(before, i as int, name); }
                let mut entries: Vec<(String, String)> = Vec::new();
                std::mem::swap(&mut entries, &mut self.entries);
                entries.set(i, (key, name));
                assert(entries@ =~= before.update(i as int, (before[i as int].0, name)));
                self.entries = entries;
                return;
            }
            i = i + 1;
        }
        let ghost before = self.entries@;
        let mut entries: Vec<(String, String)> = Vec::new();
        std::mem::swap(&mut entries, &mut self.entries);
        entries.push((id, name));
        assert(entries@.drop_last() =~= before);
        self.entries = entries;
    }
}

} // verus!
