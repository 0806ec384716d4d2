//! Values kept per account.
use crate::lists::{first_index, lemma_first_index, lemma_first_index_is};
use crate::model::AccountId;
use vstd::prelude::*;

verus! {

/// A table from accounts to values. The first entry of an account counts.
#[derive(Debug)]
pub struct AccountMap<V> {
    pub entries: Vec<(AccountId, V)>,
}

/// Whether an entry is one of the account `id`.
pub open spec fn entry_of<V>(id: Seq<char>) -> spec_fn((AccountId, V)) -> bool {
    |entry: (AccountId, V)| entry.0.0@ == id
}

/// The table that a list of entries describes.
pub open spec fn table<V>(entries: Seq<(AccountId, V)>) -> Map<Seq<char>, V> {
    Map::new(
        |id: Seq<char>| first_index(entries, entry_of::<V>(id)) is Some,
        |id: Seq<char>| entries[first_index(entries, entry_of::<V>(id))->0].1,
    )
}

impl<V> View for AccountMap<V> {
    type V = Map<Seq<char>, V>;

    open spec fn view(&self) -> Map<Seq<char>, V> {
        table(self.entries@)
    }
}

/// An entry of an account changes the table at that account alone.
proof fn lemma_table_update<V>(entries: Seq<(AccountId, V)>, at: int, id: AccountId, value: V)
    requires
        first_index(entries, entry_of::<V>(id.0@)) == Some(at),
    ensures
        table(entries.update(at, (id, value))) == table(entries).insert(id.0@, value),
{
    let after = entries.update(at, (id, value));
    lemma_first_index(entries, entry_of::<V>(id.0@));
    assert forall|k: Seq<char>| #[trigger] first_index(after, entry_of::<V>(k)) == first_index(
        entries,
        entry_of::<V>(k),
    ) by {
        lemma_first_index(entries, entry_of::<V>(k));
        lemma_first_index(after, entry_of::<V>(k));
        assert forall|j: int| 0 <= j < entries.len() implies entry_of::<V>(k)(#[trigger] after[j]) == entry_of::<V>(k)(
            entries[j],
        ) by {
            if j == at {
                assert(entry_of::<V>(id.0@)(entries[at]));
            }
        }
        match first_index(entries, entry_of::<V>(k)) {
            Some(i) => {
                assert(entry_of::<V>(k)(after[i]));
                assert forall|j: int| 0 <= j < i implies !entry_of::<V>(k)(#[trigger] after[j]) by {
                    assert(!entry_of::<V>(k)(entries[j]));
                }
                lemma_first_index_is(after, entry_of::<V>(k), i);
            },
            None => {
                if first_index(after, entry_of::<V>(k)) is Some {
                    let i = first_index(after, entry_of::<V>(k))->0;
                    assert(entry_of::<V>(k)(entries[i]));
                }
            },
        }
    }
    assert forall|k: Seq<char>| table(after).contains_key(k) && k != id.0@ implies #[trigger] table(after)[k] == table(
        entries,
    )[k] by {
        lemma_first_index(entries, entry_of::<V>(k));
        let i = first_index(entries, entry_of::<V>(k))->0;
        if i == at {
            assert(entry_of::<V>(id.0@)(entries[at]));
        }
    }
    assert(table(after) =~= table(entries).insert(id.0@, value));
}

/// An entry of a new account adds it to the table.
proof fn lemma_table_push<V>(entries: Seq<(AccountId, V)>, id: AccountId, value: V)
    requires
        first_index(entries, entry_of::<V>(id.0@)) is None,
    ensures
        table(entries.push((id, value))) == table(entries).insert(id.0@, value),
{
    let after = entries.push((id, value));
    lemma_first_index(entries, entry_of::<V>(id.0@));
    assert forall|k: Seq<char>|
        #![trigger first_index(after, entry_of::<V>(k))]
        first_index(after, entry_of::<V>(k)) == if k == id.0@ {
            Some(entries.len() as int)
        } else {
            first_index(entries, entry_of::<V>(k))
        } by {
        lemma_first_index(entries, entry_of::<V>(k));
        lemma_first_index(after, entry_of::<V>(k));
        if k == id.0@ {
            assert forall|j: int| 0 <= j < entries.len() implies !entry_of::<V>(k)(#[trigger] after[j]) by {
                assert(!entry_of::<V>(k)(entries[j]));
            }
            assert(entry_of::<V>(k)(after[entries.len() as int]));
            lemma_first_index_is(after, entry_of::<V>(k), entries.len() as int);
        } else {
            match first_index(entries, entry_of::<V>(k)) {
                Some(i) => {
                    assert(after[i] == entries[i]);
                    assert forall|j: int| 0 <= j < i implies !entry_of::<V>(k)(#[trigger] after[j]) by {
                        assert(!entry_of::<V>(k)(entries[j]));
                    }
                    lemma_first_index_is(after, entry_of::<V>(k), i);
                },
                None => {
                    if first_index(after, entry_of::<V>(k)) is Some {
                        let i = first_index(after, entry_of::<V>(k))->0;
                        if i < entries.len() {
                            assert(entry_of::<V>(k)(entries[i]));
                        }
                    }
                },
            }
        }
    }
    assert forall|k: Seq<char>| table(after).contains_key(k) && k != id.0@ implies #[trigger] table(after)[k] == table(
        entries,
    )[k] by {
        lemma_first_index(entries, entry_of::<V>(k));
    }
    assert(table(after) =~= table(entries).insert(id.0@, value));
}

/// Dropping the entries of an account removes it from the table.
proof fn lemma_table_remove<V>(entries: Seq<(AccountId, V)>, at: int, id: Seq<char>)
    requires
        0 <= at < entries.len(),
        entries[at].0.0@ == id,
    ensures
        table(entries.remove(at)).remove(id) == table(entries).remove(id),
{
    let after = entries.remove(at);
    assert forall|k: Seq<char>| k != id implies {
        &&& #[trigger] table(after).contains_key(k) == table(entries).contains_key(k)
        &&& table(after).contains_key(k) ==> table(after)[k] == table(entries)[k]
    } by {
        lemma_first_index(entries, entry_of::<V>(k));
        lemma_first_index(after, entry_of::<V>(k));
        assert forall|j: int| 0 <= j < after.len() implies #[trigger] after[j] == entries[if j < at { j } else { j + 1 }]
            by {}
        match first_index(entries, entry_of::<V>(k)) {
            Some(i) => {
                assert(i != at);
                let m = if i < at { i } else { i - 1 };
                assert(after[m] == entries[i]);
                assert forall|j: int| 0 <= j < m implies !entry_of::<V>(k)(#[trigger] after[j]) by {
                    let o = if j < at { j } else { j + 1 };
                    assert(!entry_of::<V>(k)(entries[o]));
                }
                lemma_first_index_is(after, entry_of::<V>(k), m);
            },
            None => {
                if first_index(after, entry_of::<V>(k)) is Some {
                    let j = first_index(after, entry_of::<V>(k))->0;
                    let o = if j < at { j } else { j + 1 };
                    assert(entry_of::<V>(k)(entries[o]));
                }
            },
        }
    }
    assert(table(after).remove(id) =~= table(entries).remove(id));
}

impl<V> AccountMap<V> {
    /// No account has two entries.
    pub open spec fn unique(&self) -> bool {
        forall|i: int, j: int|
            #![trigger self.entries[i], self.entries[j]]
            0 <= i < j < self.entries.len() ==> self.entries[i].0.0@ != self.entries[j].0.0@
    }

    /// An empty table.
    pub fn new() -> (map: Self)
        ensures
            map@ == Map::<Seq<char>, V>::empty(),
            map.unique(),
    {
        let map = AccountMap { entries: Vec::new() };
        assert(map@ =~= Map::<Seq<char>, V>::empty());
        map
    }

    /// Place of an account's entry.
    fn position(&self, id: &AccountId) -> (found: Option<usize>)
        ensures
            match found {
                Some(i) => i < self.entries.len() && self.entries[i as int].0.0@ == id.0@ && first_index(
                    self.entries@,
                    entry_of::<V>(id.0@),
                ) == Some(i as int),
                None => first_index(self.entries@, entry_of::<V>(id.0@)) is None,
            },
    {
        let ghost test = entry_of::<V>(id.0@);
        let mut i: usize = 0;
        while i < self.entries.len()
            invariant
                i <= self.entries.len(),
                test == entry_of::<V>(id.0@),
                forall|j: int| 0 <= j < i ==> !test(#[trigger] self.entries@[j]),
            decreases self.entries.len() - i,
        {
            if self.entries[i].0 == *id {
                proof {
                    lemma_first_index_is(self.entries@, test, i as int);
                }
                return Some(i);
            }
            i += 1;
        }
        proof {
            lemma_first_index(self.entries@, test);
        }
        None
    }

    /// The value of an account.
    pub fn get(&self, id: &AccountId) -> (value: Option<&V>)
        ensures
            match value {
                Some(value) => self@.contains_key(id.0@) && *value == self@[id.0@],
                None => !self@.contains_key(id.0@),
            },
    {
        match self.position(id) {
            Some(i) => Some(&self.entries[i].1),
            None => None,
        }
    }

    /// Whether the table holds an account.
    pub fn contains_key(&self, id: &AccountId) -> (found: bool)
        ensures
            found == self@.contains_key(id.0@),
    {
        self.position(id).is_some()
    }

    /// Whether the table holds no account.
    pub fn is_empty(&self) -> (empty: bool)
        ensures
            empty == (self@ == Map::<Seq<char>, V>::empty()),
    {
        let empty = self.entries.len() == 0;
        proof {
            if empty {
                assert(self@ =~= Map::<Seq<char>, V>::empty());
            } else {
                let key = self.entries@[0].0.0@;
                assert(entry_of::<V>(key)(self.entries@[0]));
                lemma_first_index(self.entries@, entry_of::<V>(key));
                assert(self@.contains_key(key));
                assert(!Map::<Seq<char>, V>::empty().contains_key(key));
            }
        }
        empty
    }

    /// Sets the value of an account.
    pub fn insert(&mut self, id: AccountId, value: V)
        ensures
            final(self)@ == old(self)@.insert(id.0@, value),
            old(self).unique() ==> final(self).unique(),
    {
        match self.position(&id) {
            Some(i) => {
                proof {
                    lemma_table_update(self.entries@, i as int, id, value);
                }
                self.entries[i] = (id, value);
            },
            None => {
                proof {
                    lemma_table_push(self.entries@, id, value);
                    lemma_first_index(self.entries@, entry_of::<V>(id.0@));
                }
                let ghost before = self.entries@;
                self.entries.push((id, value));
                assert forall|i: int, j: int|
                    #![trigger self.entries[i], self.entries[j]]
                    old(self).unique() && 0 <= i < j < self.entries.len() implies self.entries[i].0.0@
                    != self.entries[j].0.0@ by {
                    assert(before[i] == self.entries[i]);
                    assert(!entry_of::<V>(id.0@)(before[i]));
                    if j < before.len() {
                        assert(old(self).entries[i].0.0@ != old(self).entries[j].0.0@);
                    }
                }
            },
        }
    }

    /// The value of an account that the table holds, to be changed in place.
    pub fn get_mut(&mut self, id: &AccountId) -> (value: Option<&mut V>)
        ensures
            match value {
                Some(value) => old(self)@.contains_key(id.0@) && *value == old(self)@[id.0@] && final(self)@ == old(
                    self,
                )@.insert(id.0@, *final(value)),
                None => !old(self)@.contains_key(id.0@) && *final(self) == *old(self),
            },
            old(self).unique() ==> final(self).unique(),
    {
        match self.position(id) {
            Some(i) => {
                let ghost entries = self.entries@;
                let entry = &mut self.entries[i];
                proof {
                    assert forall|value: V| #[trigger]
                        table(entries.update(i as int, (entries[i as int].0, value))) == table(entries).insert(
                            id.0@,
                            value,
                        ) by {
                        lemma_table_update(entries, i as int, entries[i as int].0, value);
                    }
                }
                Some(&mut entry.1)
            },
            None => None,
        }
    }

    /// Drops the value of an account, returning it.
    pub fn remove(&mut self, id: &AccountId) -> (value: Option<V>)
        ensures
            final(self)@ == old(self)@.remove(id.0@),
            match value {
                Some(value) => old(self)@.contains_key(id.0@) && value == old(self)@[id.0@],
                None => !old(self)@.contains_key(id.0@),
            },
            old(self).unique() ==> final(self).unique(),
    {
        let mut value: Option<V> = None;
        let mut i: usize = 0;
        let ghost start = self.entries@;
        let ghost test = entry_of::<V>(id.0@);
        assert(self@.remove(id.0@) =~= table(start).remove(id.0@));
        while i < self.entries.len()
            invariant
                i <= self.entries.len(),
                start == old(self).entries@,
                test == entry_of::<V>(id.0@),
                table(self.entries@).remove(id.0@) == table(start).remove(id.0@),
                forall|j: int| 0 <= j < i ==> !test(#[trigger] self.entries@[j]),
                value is None ==> self.entries@ == start,
                match value {
                    Some(value) => table(start).contains_key(id.0@) && value == table(start)[id.0@],
                    None => true,
                },
                old(self).unique() ==> self.unique(),
            decreases self.entries.len() - i,
        {
            if self.entries[i].0 == *id {
                let ghost before = self.entries@;
                proof {
                    lemma_table_remove(before, i as int, id.0@);
                    if value is None {
                        lemma_first_index_is(start, test, i as int);
                    }
                }
                let entry = self.entries.remove(i);
                proof {
                    if old(self).unique() {
                        assert forall|a: int, b: int|
                            #![trigger self.entries[a], self.entries[b]]
                            0 <= a < b < self.entries.len() implies self.entries[a].0.0@ != self.entries[b].0.0@ by {
                            let x = if a < i { a } else { a + 1 };
                            let y = if b < i { b } else { b + 1 };
                            assert(self.entries[a] == before[x] && self.entries[b] == before[y]);
                        }
                    }
                }
                if value.is_none() {
                    value = Some(entry.1);
                }
            } else {
                i += 1;
            }
        }
        proof {
            lemma_first_index(self.entries@, test);
            assert(table(self.entries@).remove(id.0@) =~= table(self.entries@));
        }
        value
    }
}

} // verus!
