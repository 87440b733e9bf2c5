//! The registry of users who are online: user id -> (username, connection).
//!
//! The registry is a `DashMap`; the library reasons about its contents as a
//! finite map from user ids to the username they registered with and the
//! connection that receives their messages.
use vstd::prelude::*;
use dashmap::DashMap;

verus! {

/// `dashmap::DashMap`, a concurrent hash map, declared so that the registry
/// can hold one; nothing of its inside is visible.
#[verifier::external_type_specification]
#[verifier::external_body]
#[verifier::reject_recursive_types(K)]
#[verifier::reject_recursive_types(V)]
#[verifier::reject_recursive_types(S)]
pub struct ExDashMap<K, V, S>(DashMap<K, V, S>);

/// What a registry map holds: each user id with its (username, connection).
/// The registry holds its map privately and changes it only through `&mut`
/// methods, so the map changes only where the contracts below say.
pub uninterp spec fn online_entries(m: DashMap<String, (String, u64)>) -> Map<Seq<char>, (Seq<char>, u64)>;

/// `DashMap::new`: the new map holds nothing.
#[verifier::external_body]
fn dashmap_new() -> (r: DashMap<String, (String, u64)>)
    ensures
        online_entries(r).dom().is_empty(),
{
    DashMap::new()
}

/// `DashMap::insert`: afterwards `key` maps to `value`, every other key is unchanged.
#[verifier::external_body]
fn dashmap_insert(m: &mut DashMap<String, (String, u64)>, key: String, value: (String, u64))
    ensures
        online_entries(*final(m)) == online_entries(*old(m)).insert(key@, (value.0@, value.1)),
{
    m.insert(key, value);
}

/// `DashMap::remove`: afterwards `key` is absent, every other key is unchanged.
#[verifier::external_body]
fn dashmap_remove(m: &mut DashMap<String, (String, u64)>, key: &str)
    ensures
        online_entries(*final(m)) == online_entries(*old(m)).remove(key@),
{
    m.remove(key);
}

/// `DashMap::contains_key`: whether `key` has an entry.
#[verifier::external_body]
fn dashmap_contains_key(m: &DashMap<String, (String, u64)>, key: &str) -> (r: bool)
    ensures
        r == online_entries(*m).dom().contains(key@),
{
    m.contains_key(key)
}

/// `DashMap::get`: a copy of the entry of `key`, if there is one.
#[verifier::external_body]
fn dashmap_get(m: &DashMap<String, (String, u64)>, key: &str) -> (r: Option<(String, u64)>)
    ensures
        match r {
            Some(v) => online_entries(*m).dom().contains(key@)
                && online_entries(*m)[key@] == (v.0@, v.1),
            None => !online_entries(*m).dom().contains(key@),
        },
{
    m.get(key).map(|e| (e.value().0.clone(), e.value().1))
}

/// The users who are online, each with the username they registered with and
/// the connection that receives their messages.
pub struct Online {
    map: DashMap<String, (String, u64)>,
}

/// The view of the registry: user id -> (username, connection).
pub type OnlineView = Map<Seq<char>, (Seq<char>, u64)>;

impl View for Online {
    type V = OnlineView;

    closed spec fn view(&self) -> OnlineView {
        online_entries(self.map)
    }
}

impl Online {
    /// An empty registry.
    pub fn new() -> (r: Online)
        ensures
            r@ == OnlineView::empty(),
    {
        Online { map: dashmap_new() }
    }

    /// Records `user_id` as online with `username` on connection `conn`,
    /// replacing an earlier entry of the same user.
    pub fn insert(&mut self, user_id: String, username: String, conn: u64)
        ensures
            final(self)@ == old(self)@.insert(user_id@, (username@, conn)),
    {
        dashmap_insert(&mut self.map, user_id, (username, conn));
    }

    /// Records `user_id` as offline.
    pub fn remove(&mut self, user_id: &str)
        ensures
            final(self)@ == old(self)@.remove(user_id@),
    {
        dashmap_remove(&mut self.map, user_id);
    }

    /// Whether `user_id` is online.
    pub fn contains(&self, user_id: &str) -> (r: bool)
        ensures
            r == self@.dom().contains(user_id@),
    {
        dashmap_contains_key(&self.map, user_id)
    }

    /// The username and connection of `user_id`, if it is online.
    pub fn get(&self, user_id: &str) -> (r: Option<(String, u64)>)
        ensures
            match r {
                Some(v) => self@.dom().contains(user_id@) && self@[user_id@] == (v.0@, v.1),
                None => !self@.dom().contains(user_id@),
            },
    {
        dashmap_get(&self.map, user_id)
    }

    /// The connection of `user_id`, if it is online.
    pub fn connection_of(&self, user_id: &str) -> (r: Option<u64>)
        ensures
            match r {
                Some(c) => self@.dom().contains(user_id@) && self@[user_id@].1 == c,
                None => !self@.dom().contains(user_id@),
            },
    {
        match self.get(user_id) {
            Some(e) => Some(e.1),
            None => None,
        }
    }

    /// The username of `user_id` if it is online, else the empty string.
    pub fn username_or_empty(&self, user_id: &str) -> (r: String)
        ensures
            r@ == (if self@.dom().contains(user_id@) { self@[user_id@].0 } else { Seq::empty() }),
    {
        match self.get(user_id) {
            Some(e) => e.0,
            None => String::new(),
        }
    }
}

} // verus!
