//! The concurrent map that holds what sessions share: tokens that were handed
//! out, and the channels of the clients that are connected.

use dashmap::DashMap;
use vstd::prelude::*;

verus! {

/// The concurrent map. What it holds is named by [`entries`].
#[verifier::external_type_specification]
#[verifier::external_body]
#[verifier::reject_recursive_types(K)]
#[verifier::reject_recursive_types(V)]
#[verifier::reject_recursive_types(S)]
pub struct ExDashMap<K, V, S>(DashMap<K, V, S>);

/// The keys that a map holds, each with its value.
pub uninterp spec fn entries(m: DashMap<String, String>) -> Map<Seq<char>, Seq<char>>;

/// `DashMap::new` makes a map that holds nothing.
#[verifier::external_body]
fn new_map() -> (r: DashMap<String, String>)
    ensures
        entries(r).dom() == Set::<Seq<char>>::empty(),
{
    DashMap::new()
}

/// `DashMap::len` counts the entries.
///
/// No other call is under way meanwhile: a mutable borrow is needed to change
/// the map in this crate.
#[verifier::external_body]
fn count(m: &DashMap<String, String>) -> (r: usize)
    ensures
        r == entries(*m).len(),
{
    m.len()
}

/// `DashMap::contains_key` tells whether there is an entry under `key`.
#[verifier::external_body]
fn has(m: &DashMap<String, String>, key: &str) -> (r: bool)
    ensures
        r == entries(*m).contains_key(key@),
{
    m.contains_key(key)
}

/// `DashMap::get` finds the entry under `key`; the value is cloned out of it.
#[verifier::external_body]
fn look_up(m: &DashMap<String, String>, key: &str) -> (r: Option<String>)
    ensures
        match r {
            Some(value) => entries(*m).contains_key(key@) && value@ == entries(*m)[key@],
            None => !entries(*m).contains_key(key@),
        },
{
    m.get(key).as_deref().cloned()
}

/// `DashMap::insert` enters `value` under `key`, in place of what was there,
/// and returns that.
#[verifier::external_body]
fn put(m: &mut DashMap<String, String>, key: String, value: String) -> (r: Option<
    String,
>)
    ensures
        entries(*final(m)) == entries(*old(m)).insert(key@, value@),
        match r {
            Some(value) => entries(*old(m)).contains_key(key@) && value@ == entries(*old(m))[key@],
            None => !entries(*old(m)).contains_key(key@),
        },
{
    m.insert(key, value)
}

/// `DashMap::remove` takes the entry under `key` out; its value is returned.
#[verifier::external_body]
fn take(m: &mut DashMap<String, String>, key: &str) -> (r: Option<String>)
    ensures
        entries(*final(m)) == entries(*old(m)).remove(key@),
        match r {
            Some(value) => entries(*old(m)).contains_key(key@) && value@ == entries(*old(m))[key@],
            None => !entries(*old(m)).contains_key(key@),
        },
{
    m.remove(key).map(|entry| entry.1)
}

/// A map of texts that sessions share.
#[derive(Debug)]
pub struct SharedMap {
    inner: DashMap<String, String>,
}

impl View for SharedMap {
    type V = Map<Seq<char>, Seq<char>>;

    closed spec fn view(&self) -> Map<Seq<char>, Seq<char>> {
        entries(self.inner)
    }
}

impl SharedMap {
    pub fn new() -> (r: Self)
        ensures
            r@ == Map::<Seq<char>, Seq<char>>::empty(),
    {
        let r = SharedMap { inner: new_map() };
        assert(r@ =~= Map::<Seq<char>, Seq<char>>::empty());
        r
    }

    /// The number of entries.
    pub fn len(&self) -> (r: usize)
        ensures
            r == self@.len(),
    {
        count(&self.inner)
    }

    /// Whether there is an entry under `key`.
    pub fn contains_key(&self, key: &str) -> (r: bool)
        ensures
            r == self@.contains_key(key@),
    {
        has(&self.inner, key)
    }

    /// The value under `key`.
    pub fn get(&self, key: &str) -> (r: Option<String>)
        ensures
            match r {
                Some(value) => self@.contains_key(key@) && value@ == self@[key@],
                None => !self@.contains_key(key@),
            },
    {
        look_up(&self.inner, key)
    }

    /// Enters `value` under `key`, in place of what was there.
    pub fn insert(&mut self, key: String, value: String) -> (r: Option<String>)
        ensures
            final(self)@ == old(self)@.insert(key@, value@),
            match r {
                Some(value) => old(self)@.contains_key(key@) && value@ == old(self)@[key@],
                None => !old(self)@.contains_key(key@),
            },
    {
        put(&mut self.inner, key, value)
    }

    /// Takes the entry under `key` out.
    pub fn remove(&mut self, key: &str) -> (r: Option<String>)
        ensures
            final(self)@ == old(self)@.remove(key@),
            match r {
                Some(value) => old(self)@.contains_key(key@) && value@ == old(self)@[key@],
                None => !old(self)@.contains_key(key@),
            },
    {
        take(&mut self.inner, key)
    }
}

} // verus!
