//! Small tables of texts.

use crate::text;
use vstd::prelude::*;
use vstd::string::*;

verus! {

/// A table that has a text under each of some keys.
#[derive(Debug)]
pub struct Table {
    entries: Vec<(String, String)>,
}

/// Whether every key in `s` stands there once.
spec fn distinct(s: Seq<(String, String)>) -> bool {
    forall|i: int, j: int| 0 <= i < j < s.len() ==> (#[trigger] s[i]).0@ != (#[trigger] s[j]).0@
}

/// Whether `key` stands at `i` in `s`.
spec fn at(s: Seq<(String, String)>, i: int, key: Seq<char>) -> bool {
    0 <= i < s.len() && s[i].0@ == key
}

/// What `s` has under each key.
spec fn as_map(s: Seq<(String, String)>) -> Map<Seq<char>, Seq<char>> {
    Map::new(
        |key: Seq<char>| exists|i: int| at(s, i, key),
        |key: Seq<char>| s[choose|i: int| at(s, i, key)].1@,
    )
}

/// Whether `list` has every entry of `m`, each once, and nothing else.
pub open spec fn lists(list: Seq<(Seq<char>, Seq<char>)>, m: Map<Seq<char>, Seq<char>>) -> bool {
    &&& forall|i: int|
        0 <= i < list.len() ==> m.contains_key((#[trigger] list[i]).0) && m[list[i].0] == list[i].1
    &&& forall|i: int, j: int|
        0 <= i < j < list.len() ==> (#[trigger] list[i]).0 != (#[trigger] list[j]).0
    &&& forall|key: Seq<char>| #[trigger]
        m.contains_key(key) ==> exists|i: int| 0 <= i < list.len() && (#[trigger] list[i]).0 == key
}

/// An entry of `s` is an entry of the map.
proof fn lemma_entry(s: Seq<(String, String)>, i: int)
    requires
        distinct(s),
        0 <= i < s.len(),
    ensures
        as_map(s).contains_key(s[i].0@),
        as_map(s)[s[i].0@] == s[i].1@,
{
    assert(at(s, i, s[i].0@));
    let j = choose|j: int| at(s, j, s[i].0@);
    assert(at(s, j, s[i].0@));
    if i < j {
        assert(s[i].0@ != s[j].0@);
    } else if j < i {
        assert(s[j].0@ != s[i].0@);
    }
}

impl View for Table {
    type V = Map<Seq<char>, Seq<char>>;

    closed spec fn view(&self) -> Map<Seq<char>, Seq<char>> {
        as_map(self.entries@)
    }
}

impl Table {
    #[verifier::type_invariant]
    spec fn keys_are_distinct(self) -> bool {
        distinct(self.entries@)
    }

    /// An empty table.
    pub fn new() -> (r: Self)
        ensures
            r@ == Map::<Seq<char>, Seq<char>>::empty(),
    {
        let r = Table { entries: Vec::new() };
        assert(r@ =~= Map::<Seq<char>, Seq<char>>::empty());
        r
    }

    /// Where `key` stands.
    fn position(&self, key: &str) -> (r: Option<usize>)
        ensures
            match r {
                Some(i) => at(self.entries@, i as int, key@),
                None => !self@.contains_key(key@),
            },
    {
        let mut i: usize = 0;
        while i < self.entries.len()
            invariant
                i <= self.entries@.len(),
                forall|k: int| 0 <= k < i ==> !#[trigger] at(self.entries@, k, key@),
            decreases self.entries@.len() - i,
        {
            if text::same(self.entries[i].0.as_str(), key) {
                return Some(i);
            }
            i = i + 1;
        }
        None
    }

    /// The text under `key`.
    pub fn get(&self, key: &str) -> (r: Option<&String>)
        ensures
            match r {
                Some(value) => self@.contains_key(key@) && value@ == self@[key@],
                None => !self@.contains_key(key@),
            },
    {
        proof {
            use_type_invariant(self);
        }
        match self.position(key) {
            Some(i) => {
                proof {
                    lemma_entry(self.entries@, i as int);
                }
                Some(&self.entries[i].1)
            },
            None => None,
        }
    }

    /// Enters `value` under `key`, in place of what was there.
    pub fn insert(&mut self, key: String, value: String)
        ensures
            final(self)@ == old(self)@.insert(key@, value@),
    {
        let _ = self.remove(key.as_str());
        proof {
            use_type_invariant(&*self);
        }
        let ghost before = self.entries@;
        let ghost entry = (key, value);
        proof {
            assert forall|k: int| 0 <= k < before.len() implies (#[trigger] before[k]).0@
                != key@ by {
                lemma_entry(before, k);
            }
            let after = before.push(entry);
            assert(distinct(after));
            assert(as_map(after) =~= as_map(before).insert(key@, value@)) by {
                assert forall|k: Seq<char>| #[trigger]
                    as_map(after).contains_key(k) <==> as_map(before).insert(
                        key@,
                        value@,
                    ).contains_key(k) by {
                    if as_map(after).contains_key(k) {
                        let i = choose|i: int| at(after, i, k);
                        assert(i < before.len() ==> at(before, i, k));
                    }
                    if as_map(before).contains_key(k) {
                        let i = choose|i: int| at(before, i, k);
                        assert(at(after, i, k));
                    }
                    assert(at(after, before.len() as int, key@));
                }
                assert forall|k: Seq<char>| #[trigger]
                    as_map(after).contains_key(k) implies as_map(after)[k] == as_map(before).insert(
                    key@,
                    value@,
                )[k] by {
                    let i = choose|i: int| at(after, i, k);
                    assert(at(after, i, k));
                    lemma_entry(after, i);
                    if i < before.len() {
                        lemma_entry(before, i);
                    }
                }
            }
        }
        let mut entries: Vec<(String, String)> = Vec::new();
        core::mem::swap(&mut entries, &mut self.entries);
        entries.push((key, value));
        self.entries = entries;
        assert(self@ == old(self)@.remove(key@).insert(key@, value@));
        assert(old(self)@.remove(key@).insert(key@, value@) =~= old(self)@.insert(key@, value@));
    }

    /// Takes the text under `key` out.
    pub fn remove(&mut self, key: &str) -> (r: Option<String>)
        ensures
            final(self)@ == old(self)@.remove(key@),
            match r {
                Some(value) => old(self)@.contains_key(key@) && value@ == old(self)@[key@],
                None => !old(self)@.contains_key(key@),
            },
    {
        proof {
            use_type_invariant(&*self);
        }
        match self.position(key) {
            None => {
                assert(self@.remove(key@) =~= self@);
                None
            },
            Some(at_index) => {
                let ghost before = self.entries@;
                let ghost gone = at_index as int;
                let ghost after = before.remove(gone);
                proof {
                    lemma_entry(before, gone);
                    assert(distinct(after)) by {
                        assert forall|i: int, j: int| 0 <= i < j < after.len() implies (
                        #[trigger] after[i]).0@ != (#[trigger] after[j]).0@ by {
                            let i2 = if i < gone { i } else { i + 1 };
                            let j2 = if j < gone { j } else { j + 1 };
                            assert(after[i] == before[i2] && after[j] == before[j2]);
                        }
                    }
                    assert forall|k: Seq<char>| #[trigger]
                        as_map(after).contains_key(k) <==> as_map(before).remove(
                            key@,
                        ).contains_key(k) by {
                        if as_map(after).contains_key(k) {
                            let i = choose|i: int| at(after, i, k);
                            let i2 = if i < gone { i } else { i + 1 };
                            assert(after[i] == before[i2]);
                            assert(at(before, i2, k));
                            assert(before[i2].0@ != before[gone].0@);
                        }
                        if as_map(before).remove(key@).contains_key(k) {
                            let i = choose|i: int| at(before, i, k);
                            assert(at(before, i, k));
                            assert(i != gone);
                            let i2 = if i < gone { i } else { i - 1 };
                            assert(after[i2] == before[i]);
                            assert(at(after, i2, k));
                        }
                    }
                    assert forall|k: Seq<char>| #[trigger]
                        as_map(after).contains_key(k) implies as_map(after)[k] == as_map(
                        before,
                    ).remove(key@)[k] by {
                        let i = choose|i: int| at(after, i, k);
                        assert(at(after, i, k));
                        let i2 = if i < gone { i } else { i + 1 };
                        assert(after[i] == before[i2]);
                        lemma_entry(after, i);
                        lemma_entry(before, i2);
                        assert(before[i2].0@ != before[gone].0@);
                    }
                    assert(as_map(after) =~= as_map(before).remove(key@));
                }
                let mut entries: Vec<(String, String)> = Vec::new();
                core::mem::swap(&mut entries, &mut self.entries);
                let entry = entries.remove(at_index);
                self.entries = entries;
                Some(entry.1)
            },
        }
    }

    /// All keys, each with its text.
    pub fn into_list(self) -> (r: Vec<(String, String)>)
        ensures
            lists(r@.map_values(|entry: (String, String)| (entry.0@, entry.1@)), self@),
    {
        proof {
            use_type_invariant(&self);
            let s = self.entries@;
            let list = s.map_values(|entry: (String, String)| (entry.0@, entry.1@));
            assert forall|i: int| 0 <= i < list.len() implies self@.contains_key(
                (#[trigger] list[i]).0,
            ) && self@[list[i].0] == list[i].1 by {
                lemma_entry(s, i);
            }
            assert forall|i: int, j: int| 0 <= i < j < list.len() implies (#[trigger] list[i]).0
                != (#[trigger] list[j]).0 by {
                assert(s[i].0@ != s[j].0@);
            }
            assert forall|key: Seq<char>| #[trigger] self@.contains_key(key) implies exists|i: int|
                0 <= i < list.len() && (#[trigger] list[i]).0 == key by {
                let i = choose|i: int| at(s, i, key);
                assert(at(s, i, key));
                assert(list[i].0 == key);
            }
        }
        self.entries
    }
}

/// A list of a table has an entry for a key and a text exactly if the table has
/// that text under that key, and no entry twice.
pub proof fn law_list_has_the_entries(
    list: Seq<(Seq<char>, Seq<char>)>,
    m: Map<Seq<char>, Seq<char>>,
    key: Seq<char>,
    value: Seq<char>,
)
    requires
        lists(list, m),
    ensures
        list.contains((key, value)) <==> m.contains_key(key) && m[key] == value,
        list.no_duplicates(),
{
    if m.contains_key(key) && m[key] == value {
        let i = choose|i: int| 0 <= i < list.len() && (#[trigger] list[i]).0 == key;
        assert(list[i] == (key, value));
    }
    if list.contains((key, value)) {
        let i = choose|i: int| 0 <= i < list.len() && list[i] == (key, value);
        assert(m.contains_key(list[i].0));
    }
    assert forall|i: int, j: int| 0 <= i < list.len() && 0 <= j < list.len() && i
        != j implies list[i] != list[j] by {
        if i < j {
            assert(list[i].0 != list[j].0);
        } else {
            assert(list[j].0 != list[i].0);
        }
    }
}

} // verus!
