//! A table from texts to values, kept as the list of what was entered: a
//! later entry under a key stands for that key, earlier ones are shadowed.

use vstd::prelude::*;

verus! {

/// A table keyed by text.
#[derive(Debug)]
pub struct Table<V> {
    entries: Vec<(String, V)>,
}

/// The map that a list of entries stands for: each entry overrides what
/// earlier ones gave its key.
pub open spec fn map_of<V>(entries: Seq<(String, V)>) -> Map<Seq<char>, V>
    decreases entries.len(),
{
    if entries.len() == 0 {
        Map::empty()
    } else {
        map_of(entries.drop_last()).insert(entries.last().0@, entries.last().1)
    }
}

/// The place of the last entry under `key`, or -1 where there is none.
pub open spec fn last_under<V>(entries: Seq<(String, V)>, key: Seq<char>) -> int
    decreases entries.len(),
{
    if entries.len() == 0 {
        -1
    } else if entries.last().0@ == key {
        entries.len() - 1
    } else {
        last_under(entries.drop_last(), key)
    }
}

/// The last entry under a key is the one that the map holds.
pub proof fn lemma_last_under<V>(entries: Seq<(String, V)>, key: Seq<char>)
    ensures
        -1 <= last_under(entries, key) < entries.len(),
        map_of(entries).contains_key(key) <==> last_under(entries, key) >= 0,
        last_under(entries, key) >= 0 ==> entries[last_under(entries, key)].0@ == key && map_of(
            entries,
        )[key] == entries[last_under(entries, key)].1,
        forall|j: int|
            last_under(entries, key) < j < entries.len() ==> (#[trigger] entries[j]).0@ != key,
    decreases entries.len(),
{
    if entries.len() > 0 {
        lemma_last_under(entries.drop_last(), key);
        assert forall|j: int| last_under(entries, key) < j < entries.len() implies (
        #[trigger] entries[j]).0@ != key by {
            if j < entries.len() - 1 {
                assert(entries.drop_last()[j].0@ != key);
            }
        }
    }
}

/// A new value at the last entry under a key is a new value under that key.
pub proof fn lemma_update_last<V>(entries: Seq<(String, V)>, at: int, entry: (String, V))
    requires
        0 <= at < entries.len(),
        at == last_under(entries, entry.0@),
    ensures
        map_of(entries.update(at, entry)) == map_of(entries).insert(entry.0@, entry.1),
    decreases entries.len(),
{
    let after = entries.update(at, entry);
    lemma_last_under(entries, entry.0@);
    assert(after.len() == entries.len());
    if at == entries.len() - 1 {
        assert(after.drop_last() == entries.drop_last());
        assert(map_of(after) =~= map_of(entries).insert(entry.0@, entry.1));
    } else {
        lemma_update_last(entries.drop_last(), at, entry);
        assert(after.drop_last() == entries.drop_last().update(at, entry));
        assert(after.last() == entries.last());
        assert(map_of(after) =~= map_of(entries).insert(entry.0@, entry.1));
    }
}

/// `text` is one of `list`.
pub open spec fn holds_text(list: Seq<String>, text: Seq<char>) -> bool {
    exists|k: int| 0 <= k < list.len() && (#[trigger] list[k])@ == text
}

/// Whether `text` is one of `list`.
pub fn has_text(list: &Vec<String>, text: &String) -> (r: bool)
    ensures
        r == holds_text(list@, text@),
{
    let mut k: usize = 0;
    while k < list.len()
        invariant
            k <= list.len(),
            forall|m: int| 0 <= m < k ==> (#[trigger] list@[m])@ != text@,
        decreases list.len() - k,
    {
        if list[k] == *text {
            return true;
        }
        k += 1;
    }
    false
}

impl<V> View for Table<V> {
    type V = Map<Seq<char>, V>;

    closed spec fn view(&self) -> Map<Seq<char>, V> {
        map_of(self.entries@)
    }
}

impl<V> Table<V> {
    /// A table without entries.
    pub fn new() -> (r: Self)
        ensures
            r@ == Map::<Seq<char>, V>::empty(),
    {
        Table { entries: Vec::new() }
    }

    /// The place of the last entry under `key`.
    fn find(&self, key: &str) -> (r: Option<usize>)
        ensures
            match r {
                Some(at) => at == last_under(self.entries@, key@),
                None => last_under(self.entries@, key@) == -1,
            },
    {
        let wanted: String = key.to_owned();
        let mut i: usize = self.entries.len();
        proof {
            assert(self.entries@.take(i as int) == self.entries@);
        }
        while i > 0
            invariant
                i <= self.entries.len(),
                wanted@ == key@,
                last_under(self.entries@, key@) == last_under(self.entries@.take(i as int), key@),
            decreases i,
        {
            proof {
                assert(self.entries@.take(i as int).drop_last() == self.entries@.take(i - 1));
            }
            if self.entries[i - 1].0 == wanted {
                return Some(i - 1);
            }
            i -= 1;
        }
        None
    }

    /// Enters `value` under `key`, in place of what stood there.
    pub fn insert(&mut self, key: String, value: V)
        ensures
            final(self)@ == old(self)@.insert(key@, value),
    {
        proof {
            assert(self.entries@.push((key, value)).drop_last() == self.entries@);
        }
        self.entries.push((key, value));
    }

    /// Whether anything stands under `key`.
    pub fn contains_key(&self, key: &str) -> (r: bool)
        ensures
            r == self@.contains_key(key@),
    {
        proof {
            lemma_last_under(self.entries@, key@);
        }
        self.find(key).is_some()
    }

    /// What stands under `key`.
    pub fn get(&self, key: &str) -> (r: Option<&V>)
        ensures
            match r {
                Some(value) => self@.contains_key(key@) && *value == self@[key@],
                None => !self@.contains_key(key@),
            },
    {
        proof {
            lemma_last_under(self.entries@, key@);
        }
        match self.find(key) {
            Some(at) => Some(&self.entries[at].1),
            None => None,
        }
    }

    /// What stands under `key`, to be changed in place.
    pub fn get_mut(&mut self, key: &str) -> (r: Option<&mut V>)
        ensures
            match r {
                Some(value) => old(self)@.contains_key(key@) && *value == old(self)@[key@]
                    && final(self)@ == old(self)@.insert(key@, *final(value)),
                None => !old(self)@.contains_key(key@) && final(self)@ == old(self)@,
            },
    {
        proof {
            lemma_last_under(self.entries@, key@);
        }
        match self.find(key) {
            Some(at) => {
                let ghost before = self.entries@;
                let entry = &mut self.entries[at];
                proof {
                    lemma_update_last(before, at as int, (before[at as int].0, (*final(entry)).1));
                }
                Some(&mut entry.1)
            },
            None => None,
        }
    }

    /// Whether every key of the table is one of `allowed`.
    pub fn keys_within(&self, allowed: &Vec<String>) -> (r: bool)
        ensures
            r == forall|key: Seq<char>| self@.contains_key(key) ==> holds_text(allowed@, key),
    {
        let mut i: usize = 0;
        while i < self.entries.len()
            invariant
                i <= self.entries.len(),
                forall|j: int|
                    0 <= j < i ==> holds_text(allowed@, (#[trigger] self.entries@[j]).0@),
            decreases self.entries.len() - i,
        {
            if !has_text(allowed, &self.entries[i].0) {
                proof {
                    let key = self.entries@[i as int].0@;
                    lemma_last_under(self.entries@, key);
                    assert(self@.contains_key(key));
                }
                return false;
            }
            i += 1;
        }
        proof {
            assert forall|key: Seq<char>| self@.contains_key(key) implies holds_text(
                allowed@,
                key,
            ) by {
                lemma_last_under(self.entries@, key);
                let j = last_under(self.entries@, key);
                assert(holds_text(allowed@, self.entries@[j].0@));
            }
        }
        true
    }
}

} // verus!
