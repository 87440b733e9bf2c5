//! The room registry: room code -> the peers in the room, each a peer id with
//! the connection that receives its messages, in the order they joined.
//!
//! The registry is a `DashMap`; the library reasons about its contents as a
//! finite map from room codes to sequences of (peer id, connection).
use vstd::prelude::*;
use dashmap::DashMap;

verus! {

/// How many peers a room takes when nothing else is configured (one-on-one).
pub const DEFAULT_MAX_PEERS_PER_ROOM: u64 = 2;

/// The peers of a room: (peer id, connection), in the order they joined.
pub type PeersView = Seq<(Seq<char>, u64)>;

/// What a room map holds: each room code with its peers.
/// The registry holds its map privately and changes it only through `&mut`
/// methods, so the map changes only where the contracts below say.
pub uninterp spec fn room_entries(m: DashMap<String, Vec<(String, u64)>>) -> Map<Seq<char>, PeersView>;

/// The views of a vector of peers, in order.
pub open spec fn peers_view(v: Seq<(String, u64)>) -> PeersView {
    v.map_values(|q: (String, u64)| (q.0@, q.1))
}

/// `DashMap::new`: the new map holds nothing.
#[verifier::external_body]
fn rooms_map_new() -> (r: DashMap<String, Vec<(String, u64)>>)
    ensures
        room_entries(r).dom().is_empty(),
{
    DashMap::new()
}

/// `DashMap::insert`: afterwards `key` maps to `value`, every other key is unchanged.
#[verifier::external_body]
fn rooms_map_insert(m: &mut DashMap<String, Vec<(String, u64)>>, key: String, value: Vec<(String, u64)>)
    ensures
        room_entries(*final(m)) == room_entries(*old(m)).insert(key@, peers_view(value@)),
{
    m.insert(key, value);
}

/// `DashMap::remove`: afterwards `key` is absent, every other key is unchanged.
#[verifier::external_body]
fn rooms_map_remove(m: &mut DashMap<String, Vec<(String, u64)>>, key: &str)
    ensures
        room_entries(*final(m)) == room_entries(*old(m)).remove(key@),
{
    m.remove(key);
}

/// `DashMap::get`: a copy of the entry of `key`, if there is one.
#[verifier::external_body]
fn rooms_map_get(m: &DashMap<String, Vec<(String, u64)>>, key: &str) -> (r: Option<Vec<(String, u64)>>)
    ensures
        match r {
            Some(v) => room_entries(*m).dom().contains(key@) && room_entries(*m)[key@] == peers_view(v@),
            None => !room_entries(*m).dom().contains(key@),
        },
{
    m.get(key).map(|e| e.value().clone())
}

/// The view of the registry: its capacity per room and the peers of each room.
pub struct RoomsView {
    pub max: u64,
    pub members: Map<Seq<char>, PeersView>,
}

/// The peers of room `code`: none when the room does not exist.
pub open spec fn room_peers(r: RoomsView, code: Seq<char>) -> PeersView {
    if r.members.dom().contains(code) {
        r.members[code]
    } else {
        Seq::empty()
    }
}

/// The registry with room `code` holding `peers`; a room left empty is removed.
pub open spec fn with_room(r: RoomsView, code: Seq<char>, peers: PeersView) -> RoomsView {
    RoomsView {
        max: r.max,
        members: if peers.len() == 0 {
            r.members.remove(code)
        } else {
            r.members.insert(code, peers)
        },
    }
}

/// The ids of peers, in order.
pub open spec fn peer_ids(peers: PeersView) -> Seq<Seq<char>> {
    peers.map_values(|q: (Seq<char>, u64)| q.0)
}

/// The peers but those on connection `conn`, in order.
pub open spec fn without_conn(peers: PeersView, conn: u64) -> PeersView
    decreases peers.len(),
{
    if peers.len() == 0 {
        Seq::empty()
    } else {
        without_conn(peers.drop_last(), conn) + if peers.last().1 == conn {
            Seq::empty()
        } else {
            seq![peers.last()]
        }
    }
}

/// The rooms, their peers and their capacity.
pub struct Rooms {
    map: DashMap<String, Vec<(String, u64)>>,
    max: u64,
}

impl View for Rooms {
    type V = RoomsView;

    closed spec fn view(&self) -> RoomsView {
        RoomsView { max: self.max, members: room_entries(self.map) }
    }
}

/// A registry without rooms, taking up to [`DEFAULT_MAX_PEERS_PER_ROOM`] peers per room.
pub fn new_room_map() -> (r: Rooms)
    ensures
        r@.max == DEFAULT_MAX_PEERS_PER_ROOM,
        r@.members == Map::<Seq<char>, PeersView>::empty(),
{
    Rooms::new(DEFAULT_MAX_PEERS_PER_ROOM)
}

impl Rooms {
    /// A registry without rooms, taking up to `max` peers per room.
    pub fn new(max: u64) -> (r: Rooms)
        ensures
            r@.max == max,
            r@.members == Map::<Seq<char>, PeersView>::empty(),
    {
        let r = Rooms { map: rooms_map_new(), max };
        assert(r@.members =~= Map::<Seq<char>, PeersView>::empty());
        r
    }

    /// How many peers a room takes.
    pub fn max(&self) -> (r: u64)
        ensures
            r == self@.max,
    {
        self.max
    }

    /// The peers of room `code`, in the order they joined.
    pub fn peers(&self, code: &str) -> (r: Vec<(String, u64)>)
        ensures
            peers_view(r@) == room_peers(self@, code@),
    {
        match rooms_map_get(&self.map, code) {
            Some(v) => v,
            None => {
                let v: Vec<(String, u64)> = Vec::new();
                assert(peers_view(v@) =~= Seq::<(Seq<char>, u64)>::empty());
                v
            },
        }
    }

    /// Makes room `code` hold `peers`; an empty room is removed.
    pub fn set_peers(&mut self, code: String, peers: Vec<(String, u64)>)
        ensures
            final(self)@ == with_room(old(self)@, code@, peers_view(peers@)),
    {
        if peers.len() == 0 {
            rooms_map_remove(&mut self.map, code.as_str());
        } else {
            rooms_map_insert(&mut self.map, code, peers);
        }
    }
}

} // verus!
