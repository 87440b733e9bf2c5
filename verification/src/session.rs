//! The life of one client connection as a state machine.
//!
//! A connection starts anonymous, registers once, then exchanges signalling
//! and chat messages with other users until it closes. Independently of
//! registration it can join one room at a time, where offers, answers and ICE
//! candidates are relayed between the peers of the room. Each [`Event`] (a client message, or the
//! answer of the store to a query the session asked for) moves the session to
//! its next state and yields the [`Action`]s the server performs: messages to
//! deliver to connections, and writes and queries for the store.
use vstd::prelude::*;
use crate::messages::{
    ClientMsg, ClientMsgView, ContactInfo, ContactInfoView, ServerMsg, ServerMsgView, contacts_view,
    opt_str_view, strings_view,
};
use crate::history::{
    HistoryRow, HistoryRowView, history_before, history_from_rows, history_limit, rows_view,
    spec_history_before, spec_history_limit, spec_history_messages,
};
use crate::presence::{Online, OnlineView};
use crate::rooms::{
    PeersView, Rooms, RoomsView, peer_ids, peers_view, room_peers, with_room, without_conn,
};
use crate::clock::{is_reading, now_millis, spec_millis_since_epoch};

verus! {

// ───────────────────────────── types ─────────────────────────────

/// Where a connection stands with respect to registration.
#[derive(Debug, Clone, PartialEq, Eq)]
pub enum Phase {
    /// Connected, not registered yet.
    Anonymous,
    /// Registered as `user_id`.
    Registered { user_id: String },
    /// The connection has closed.
    Closed,
}

/// The answer from the store that a session waits for, if any.
#[derive(Debug, Clone, PartialEq, Eq)]
pub enum Pending {
    /// Waiting for nothing: the next event is a client event.
    Idle,
    /// Waiting for the contacts and watchers of a registering user.
    Register { user_id: String, username: String },
    /// Waiting for the stored username of a contact being added.
    AddContact { from_id: String, contact_id: String, from_name: String },
    /// Waiting for the stored messages exchanged with `with_user_id`.
    History { with_user_id: String },
    /// Waiting for the watchers of a user who went offline.
    Leave { user_id: String },
}

/// The state of one connection.
#[derive(Debug)]
pub struct Session {
    conn: u64,
    phase: Phase,
    pending: Pending,
    /// The room the connection is in: (room code, peer id).
    room: Option<(String, String)>,
}

/// Something that happens to a session.
#[derive(Debug, Clone, PartialEq, Eq)]
pub enum Event {
    /// The client sent a well-formed message.
    Message(ClientMsg),
    /// The client sent text that is not a message; `detail` says why.
    Malformed(String),
    /// The store's answer to [`Action::LoadRegistration`]: the contacts of the
    /// user as (id, username) pairs, and the users who have the user as a contact.
    Registration { contacts: Vec<(String, String)>, watchers: Vec<String> },
    /// The store's answer to [`Action::LookupUser`]: the stored username, if any.
    ContactLookup(Option<String>),
    /// The store's answer to [`Action::LoadHistory`], newest first.
    History(Vec<HistoryRow>),
    /// The connection closed.
    Closed,
    /// The store's answer to [`Action::LoadWatchers`].
    Watchers(Vec<String>),
}

/// Something the server does on behalf of a session.
#[derive(Debug, Clone, PartialEq, Eq)]
pub enum Action {
    /// Deliver `msg` to connection `conn`.
    Send { conn: u64, msg: ServerMsg },
    /// Store the user with this username, stamped with the current time.
    SaveUser { user_id: String, username: String },
    /// Fetch the contacts and the watchers of the user (answered by [`Event::Registration`]).
    LoadRegistration { user_id: String },
    /// Fetch the stored username of a user (answered by [`Event::ContactLookup`]).
    LookupUser { user_id: String },
    /// Store that `owner_id` has `contact_id` as a contact, unless already stored.
    SaveContact { owner_id: String, contact_id: String },
    /// Forget that `owner_id` has `contact_id` as a contact.
    DeleteContact { owner_id: String, contact_id: String },
    /// Fetch at most `limit` messages between the two users, newest first, with
    /// a timestamp below `before` when it is given (answered by [`Event::History`]).
    LoadHistory { user_id: String, with_user_id: String, before: Option<i64>, limit: i64 },
    /// Store a chat message, unless one with this id is already stored.
    SaveMessage { msg_id: String, from_id: String, to_id: String, text: String, timestamp: u64 },
    /// Stamp the user's last-seen time with the current time.
    TouchLastSeen { user_id: String },
    /// Fetch the users who have this user as a contact (answered by [`Event::Watchers`]).
    LoadWatchers { user_id: String },
}

// ───────────────────────────── views ─────────────────────────────

pub enum PhaseView {
    Anonymous,
    Registered { user_id: Seq<char> },
    Closed,
}

pub enum PendingView {
    Idle,
    Register { user_id: Seq<char>, username: Seq<char> },
    AddContact { from_id: Seq<char>, contact_id: Seq<char>, from_name: Seq<char> },
    History { with_user_id: Seq<char> },
    Leave { user_id: Seq<char> },
}

pub struct SessionView {
    pub conn: u64,
    pub phase: PhaseView,
    pub pending: PendingView,
    /// The room the connection is in: (room code, peer id).
    pub room: Option<(Seq<char>, Seq<char>)>,
}

pub enum EventView {
    Message(ClientMsgView),
    Malformed(Seq<char>),
    Registration { contacts: Seq<(Seq<char>, Seq<char>)>, watchers: Seq<Seq<char>> },
    ContactLookup(Option<Seq<char>>),
    History(Seq<HistoryRowView>),
    Closed,
    Watchers(Seq<Seq<char>>),
}

pub enum ActionView {
    Send { conn: u64, msg: ServerMsgView },
    SaveUser { user_id: Seq<char>, username: Seq<char> },
    LoadRegistration { user_id: Seq<char> },
    LookupUser { user_id: Seq<char> },
    SaveContact { owner_id: Seq<char>, contact_id: Seq<char> },
    DeleteContact { owner_id: Seq<char>, contact_id: Seq<char> },
    LoadHistory { user_id: Seq<char>, with_user_id: Seq<char>, before: Option<i64>, limit: i64 },
    SaveMessage {
        msg_id: Seq<char>,
        from_id: Seq<char>,
        to_id: Seq<char>,
        text: Seq<char>,
        timestamp: u64,
    },
    TouchLastSeen { user_id: Seq<char> },
    LoadWatchers { user_id: Seq<char> },
}

/// The result of one step: the next session, the next registry, and what to do.
pub struct Outcome {
    pub session: SessionView,
    pub online: OnlineView,
    pub actions: Seq<ActionView>,
}

pub open spec fn room_view(r: Option<(String, String)>) -> Option<(Seq<char>, Seq<char>)> {
    match r {
        Some(p) => Some((p.0@, p.1@)),
        None => None,
    }
}

pub open spec fn strs_view(v: Seq<String>) -> Seq<Seq<char>> {
    v.map_values(|s: String| s@)
}

pub open spec fn pairs_view(v: Seq<(String, String)>) -> Seq<(Seq<char>, Seq<char>)> {
    v.map_values(|p: (String, String)| (p.0@, p.1@))
}

pub open spec fn actions_view(v: Seq<Action>) -> Seq<ActionView> {
    v.map_values(|a: Action| a@)
}

impl View for Phase {
    type V = PhaseView;

    open spec fn view(&self) -> PhaseView {
        match self {
            Phase::Anonymous => PhaseView::Anonymous,
            Phase::Registered { user_id } => PhaseView::Registered { user_id: user_id@ },
            Phase::Closed => PhaseView::Closed,
        }
    }
}

impl View for Pending {
    type V = PendingView;

    open spec fn view(&self) -> PendingView {
        match self {
            Pending::Idle => PendingView::Idle,
            Pending::Register { user_id, username } => PendingView::Register {
                user_id: user_id@,
                username: username@,
            },
            Pending::AddContact { from_id, contact_id, from_name } => PendingView::AddContact {
                from_id: from_id@,
                contact_id: contact_id@,
                from_name: from_name@,
            },
            Pending::History { with_user_id } => PendingView::History {
                with_user_id: with_user_id@,
            },
            Pending::Leave { user_id } => PendingView::Leave { user_id: user_id@ },
        }
    }
}

impl View for Session {
    type V = SessionView;

    closed spec fn view(&self) -> SessionView {
        SessionView {
            conn: self.conn,
            phase: self.phase@,
            pending: self.pending@,
            room: room_view(self.room),
        }
    }
}

impl View for Event {
    type V = EventView;

    open spec fn view(&self) -> EventView {
        match self {
            Event::Message(m) => EventView::Message(m@),
            Event::Malformed(d) => EventView::Malformed(d@),
            Event::Registration { contacts, watchers } => EventView::Registration {
                contacts: pairs_view(contacts@),
                watchers: strs_view(watchers@),
            },
            Event::ContactLookup(u) => EventView::ContactLookup(opt_str_view(*u)),
            Event::History(rows) => EventView::History(rows_view(rows@)),
            Event::Closed => EventView::Closed,
            Event::Watchers(w) => EventView::Watchers(strs_view(w@)),
        }
    }
}

impl View for Action {
    type V = ActionView;

    open spec fn view(&self) -> ActionView {
        match self {
            Action::Send { conn, msg } => ActionView::Send { conn: *conn, msg: msg@ },
            Action::SaveUser { user_id, username } => ActionView::SaveUser {
                user_id: user_id@,
                username: username@,
            },
            Action::LoadRegistration { user_id } => ActionView::LoadRegistration {
                user_id: user_id@,
            },
            Action::LookupUser { user_id } => ActionView::LookupUser { user_id: user_id@ },
            Action::SaveContact { owner_id, contact_id } => ActionView::SaveContact {
                owner_id: owner_id@,
                contact_id: contact_id@,
            },
            Action::DeleteContact { owner_id, contact_id } => ActionView::DeleteContact {
                owner_id: owner_id@,
                contact_id: contact_id@,
            },
            Action::LoadHistory { user_id, with_user_id, before, limit } =>
                ActionView::LoadHistory {
                user_id: user_id@,
                with_user_id: with_user_id@,
                before: *before,
                limit: *limit,
            },
            Action::SaveMessage { msg_id, from_id, to_id, text, timestamp } =>
                ActionView::SaveMessage {
                msg_id: msg_id@,
                from_id: from_id@,
                to_id: to_id@,
                text: text@,
                timestamp: *timestamp,
            },
            Action::TouchLastSeen { user_id } => ActionView::TouchLastSeen { user_id: user_id@ },
            Action::LoadWatchers { user_id } => ActionView::LoadWatchers { user_id: user_id@ },
        }
    }
}

// ───────────────────────── the specification ─────────────────────────

pub open spec fn send(conn: u64, msg: ServerMsgView) -> ActionView {
    ActionView::Send { conn, msg }
}

/// `msg` delivered to `to` if `to` is online, else nothing.
pub open spec fn relay(online: OnlineView, to: Seq<char>, msg: ServerMsgView) -> Seq<ActionView> {
    if online.dom().contains(to) {
        seq![send(online[to].1, msg)]
    } else {
        seq![]
    }
}

/// `msg` delivered, in order, to each of `ids` that is online.
pub open spec fn notices(ids: Seq<Seq<char>>, online: OnlineView, msg: ServerMsgView) -> Seq<
    ActionView,
>
    decreases ids.len(),
{
    if ids.len() == 0 {
        seq![]
    } else {
        notices(ids.drop_last(), online, msg) + relay(online, ids.last(), msg)
    }
}

/// The contact list of a registering user: each stored contact with whether it is online.
pub open spec fn contact_infos(rows: Seq<(Seq<char>, Seq<char>)>, online: OnlineView) -> Seq<
    ContactInfoView,
> {
    rows.map_values(
        |r: (Seq<char>, Seq<char>)|
            ContactInfoView { user_id: r.0, username: r.1, online: online.dom().contains(r.0) },
    )
}

/// The ids of (id, username) pairs.
pub open spec fn first_of_pairs(rows: Seq<(Seq<char>, Seq<char>)>) -> Seq<Seq<char>> {
    rows.map_values(|r: (Seq<char>, Seq<char>)| r.0)
}

/// The name a registered user's messages carry: the username in the registry,
/// or the empty string when the user is not (or no longer) there.
pub open spec fn name_or_empty(online: OnlineView, user_id: Seq<char>) -> Seq<char> {
    if online.dom().contains(user_id) {
        online[user_id].0
    } else {
        Seq::empty()
    }
}

pub open spec fn error_msg(reason: Seq<char>) -> ServerMsgView {
    ServerMsgView::Error { reason }
}

pub open spec fn bad_message_reason(detail: Seq<char>) -> Seq<char> {
    "bad message: "@ + detail
}

pub open spec fn with_pending(s: SessionView, p: PendingView) -> SessionView {
    SessionView { conn: s.conn, phase: s.phase, pending: p, room: s.room }
}

pub open spec fn stay(s: SessionView, online: OnlineView) -> Outcome {
    Outcome { session: s, online, actions: seq![] }
}

pub open spec fn act(s: SessionView, online: OnlineView, actions: Seq<ActionView>) -> Outcome {
    Outcome { session: s, online, actions }
}

/// A message from a client that has not registered.
pub open spec fn anonymous_message(s: SessionView, online: OnlineView, m: ClientMsgView) -> Outcome {
    match m {
        ClientMsgView::Register { user_id, username } => act(
            with_pending(s, PendingView::Register { user_id, username }),
            online,
            seq![
                ActionView::SaveUser { user_id, username },
                ActionView::LoadRegistration { user_id },
            ],
        ),
        _ => act(s, online, seq![send(s.conn, error_msg("not registered"@))]),
    }
}

/// A message from a client registered as `me`; `now` is the time in milliseconds.
pub open spec fn member_message(
    s: SessionView,
    online: OnlineView,
    me: Seq<char>,
    m: ClientMsgView,
    now: u64,
) -> Outcome {
    let from_name = name_or_empty(online, me);
    match m {
        ClientMsgView::Register { .. } => act(
            s,
            online,
            seq![send(s.conn, error_msg("already registered"@))],
        ),
        ClientMsgView::AddContact { contact_id } => if contact_id == me {
            act(s, online, seq![send(s.conn, error_msg("cannot add yourself"@))])
        } else {
            act(
                with_pending(s, PendingView::AddContact { from_id: me, contact_id, from_name }),
                online,
                seq![ActionView::LookupUser { user_id: contact_id }],
            )
        },
        ClientMsgView::RemoveContact { contact_id } => act(
            s,
            online,
            seq![ActionView::DeleteContact { owner_id: me, contact_id }],
        ),
        ClientMsgView::GetHistory { with_user_id, before, limit } => act(
            with_pending(s, PendingView::History { with_user_id }),
            online,
            seq![
                ActionView::LoadHistory {
                    user_id: me,
                    with_user_id,
                    before: spec_history_before(before),
                    limit: spec_history_limit(limit),
                },
            ],
        ),
        ClientMsgView::ChatMessage { to, text, msg_id } => act(
            s,
            online,
            seq![ActionView::SaveMessage { msg_id, from_id: me, to_id: to, text, timestamp: now }]
                + relay(
                online,
                to,
                ServerMsgView::IncomingMessage { from: me, from_name, text, msg_id, timestamp: now },
            ),
        ),
        ClientMsgView::CallOffer { to, sdp } => if online.dom().contains(to) {
            act(
                s,
                online,
                seq![send(online[to].1, ServerMsgView::IncomingCall { from: me, from_name, sdp })],
            )
        } else {
            act(s, online, seq![send(s.conn, ServerMsgView::CallRejected { from: to })])
        },
        ClientMsgView::CallAnswer { to, sdp } => act(
            s,
            online,
            relay(online, to, ServerMsgView::CallAnswered { from: me, sdp }),
        ),
        ClientMsgView::CallReject { to } => act(
            s,
            online,
            relay(online, to, ServerMsgView::CallRejected { from: me }),
        ),
        ClientMsgView::HangUp { to } => act(
            s,
            online,
            relay(online, to, ServerMsgView::HangUp { from: me }),
        ),
        ClientMsgView::IceCandidate { to, candidate, sdp_mid, sdp_m_line_index } => match to {
            Some(to) => act(
                s,
                online,
                relay(
                    online,
                    to,
                    ServerMsgView::IceCandidate { from: me, candidate, sdp_mid, sdp_m_line_index },
                ),
            ),
            None => stay(s, online),
        },
        _ => stay(s, online),
    }
}

/// The store answered the queries of a registration.
pub open spec fn registration_loaded(
    s: SessionView,
    online: OnlineView,
    user_id: Seq<char>,
    username: Seq<char>,
    contacts: Seq<(Seq<char>, Seq<char>)>,
    watchers: Seq<Seq<char>>,
) -> Outcome {
    let online2 = online.insert(user_id, (username, s.conn));
    let hello = ServerMsgView::UserOnline { user_id, username };
    Outcome {
        session: SessionView {
            conn: s.conn,
            phase: PhaseView::Registered { user_id },
            pending: PendingView::Idle,
            room: s.room,
        },
        online: online2,
        actions: notices(first_of_pairs(contacts), online2, hello) + notices(
            watchers,
            online2,
            hello,
        ) + seq![
            send(s.conn, ServerMsgView::Registered),
            send(s.conn, ServerMsgView::ContactList { contacts: contact_infos(contacts, online2) }),
        ],
    }
}

pub open spec fn user_not_found_reason() -> Seq<char> {
    "user not found \u{2014} they need to connect at least once"@
}

/// The store answered the username lookup of a contact being added.
pub open spec fn contact_looked_up(
    s: SessionView,
    online: OnlineView,
    from_id: Seq<char>,
    contact_id: Seq<char>,
    from_name: Seq<char>,
    stored: Option<Seq<char>>,
) -> Outcome {
    let idle = with_pending(s, PendingView::Idle);
    let name: Option<Seq<char>> = match stored {
        Some(u) => Some(u),
        None => if online.dom().contains(contact_id) {
            Some(online[contact_id].0)
        } else {
            None
        },
    };
    match name {
        None => act(idle, online, seq![send(s.conn, error_msg(user_not_found_reason()))]),
        Some(username) => act(
            idle,
            online,
            seq![
                ActionView::SaveContact { owner_id: from_id, contact_id },
                send(
                    s.conn,
                    ServerMsgView::ContactAdded {
                        user_id: contact_id,
                        username,
                        online: online.dom().contains(contact_id),
                    },
                ),
            ] + relay(
                online,
                contact_id,
                ServerMsgView::AddedByUser { user_id: from_id, username: from_name, online: true },
            ),
        ),
    }
}

/// The connection closed.
pub open spec fn closing(s: SessionView, online: OnlineView) -> Outcome {
    match s.phase {
        PhaseView::Registered { user_id } => Outcome {
            session: SessionView {
                conn: s.conn,
                phase: PhaseView::Closed,
                pending: PendingView::Leave { user_id },
                room: s.room,
            },
            online: online.remove(user_id),
            actions: seq![
                ActionView::TouchLastSeen { user_id },
                ActionView::LoadWatchers { user_id },
            ],
        },
        _ => stay(
            SessionView {
                conn: s.conn,
                phase: PhaseView::Closed,
                pending: PendingView::Idle,
                room: s.room,
            },
            online,
        ),
    }
}

/// The contact side of a step: what `e` does to the session `s` and the
/// registry `online`, when the clock reads `now` milliseconds. An event that
/// the session does not wait for changes nothing and does nothing.
pub open spec fn contact_next(s: SessionView, online: OnlineView, e: EventView, now: u64) -> Outcome {
    match s.pending {
        PendingView::Idle => match e {
            EventView::Message(m) => match s.phase {
                PhaseView::Anonymous => anonymous_message(s, online, m),
                PhaseView::Registered { user_id } => member_message(s, online, user_id, m, now),
                PhaseView::Closed => stay(s, online),
            },
            EventView::Malformed(detail) => match s.phase {
                PhaseView::Closed => stay(s, online),
                _ => act(s, online, seq![send(s.conn, error_msg(bad_message_reason(detail)))]),
            },
            EventView::Closed => match s.phase {
                PhaseView::Closed => stay(s, online),
                _ => closing(s, online),
            },
            _ => stay(s, online),
        },
        PendingView::Register { user_id, username } => match e {
            EventView::Registration { contacts, watchers } => registration_loaded(
                s,
                online,
                user_id,
                username,
                contacts,
                watchers,
            ),
            _ => stay(s, online),
        },
        PendingView::AddContact { from_id, contact_id, from_name } => match e {
            EventView::ContactLookup(stored) => contact_looked_up(
                s,
                online,
                from_id,
                contact_id,
                from_name,
                stored,
            ),
            _ => stay(s, online),
        },
        PendingView::History { with_user_id } => match e {
            EventView::History(rows) => act(
                with_pending(s, PendingView::Idle),
                online,
                seq![
                    send(
                        s.conn,
                        ServerMsgView::MessageHistory {
                            with_user_id,
                            messages: spec_history_messages(rows),
                        },
                    ),
                ],
            ),
            _ => stay(s, online),
        },
        PendingView::Leave { user_id } => match e {
            EventView::Watchers(ws) => act(
                with_pending(s, PendingView::Idle),
                online,
                notices(ws, online, ServerMsgView::UserOffline { user_id }),
            ),
            _ => stay(s, online),
        },
    }
}

/// Whether an event is a chat message, the only kind of event stamped with the time.
pub open spec fn reads_clock(e: EventView) -> bool {
    e matches EventView::Message(ClientMsgView::ChatMessage { .. })
}

/// Whether `e` needs the time: a chat message to a registered session that
/// waits for nothing.
pub open spec fn needs_clock(s: SessionView, e: EventView) -> bool {
    &&& reads_clock(e)
    &&& s.phase is Registered
    &&& s.pending is Idle
}

/// The notice that a user came online (`coming_online`) or went offline.
pub open spec fn notice_view(user_id: Seq<char>, username: Seq<char>, coming_online: bool) -> ServerMsgView {
    if coming_online {
        ServerMsgView::UserOnline { user_id, username }
    } else {
        ServerMsgView::UserOffline { user_id }
    }
}

/// `o` is what the session, the registry and the actions became.
pub open spec fn reached(o: Outcome, s: SessionView, online: OnlineView, actions: Seq<Action>) -> bool {
    &&& s == o.session
    &&& online == o.online
    &&& actions_view(actions) == o.actions
}


// ───────────────────────── rooms ─────────────────────────

/// What a room message does: the next session, the next room registry, and
/// what to do.
pub struct RoomOutcome {
    pub session: SessionView,
    pub rooms: RoomsView,
    pub actions: Seq<ActionView>,
}

/// The result of one step of a connection.
pub struct Step {
    pub session: SessionView,
    pub online: OnlineView,
    pub rooms: RoomsView,
    pub actions: Seq<ActionView>,
}

pub open spec fn with_room_of(s: SessionView, room: Option<(Seq<char>, Seq<char>)>) -> SessionView {
    SessionView { conn: s.conn, phase: s.phase, pending: s.pending, room }
}

/// A step of the contact side, which leaves the rooms alone.
pub open spec fn contact_step(o: Outcome, rooms: RoomsView) -> Step {
    Step { session: o.session, online: o.online, rooms, actions: o.actions }
}

/// A step of the room side, which leaves the registry of online users alone.
pub open spec fn room_step(o: RoomOutcome, online: OnlineView) -> Step {
    Step { session: o.session, online, rooms: o.rooms, actions: o.actions }
}

pub open spec fn reply(s: SessionView, rooms: RoomsView, msg: ServerMsgView) -> RoomOutcome {
    RoomOutcome { session: s, rooms, actions: seq![send(s.conn, msg)] }
}

/// `msg` delivered to each of `peers`, in order.
pub open spec fn broadcast(peers: PeersView, msg: ServerMsgView) -> Seq<ActionView>
    decreases peers.len(),
{
    if peers.len() == 0 {
        seq![]
    } else {
        broadcast(peers.drop_last(), msg) + seq![send(peers.last().1, msg)]
    }
}

/// Whether a relayed signal goes to peer `q`: not to the sender's own
/// connection, and to the peer `to` names, or to every peer when `to` is absent.
pub open spec fn addressed(q: (Seq<char>, u64), to: Option<Seq<char>>, own: u64) -> bool {
    &&& q.1 != own
    &&& match to {
        Some(t) => t == q.0,
        None => true,
    }
}

/// `msg` delivered, in order, to each of `peers` it is addressed to.
pub open spec fn room_sends(peers: PeersView, to: Option<Seq<char>>, own: u64, msg: ServerMsgView) -> Seq<
    ActionView,
>
    decreases peers.len(),
{
    if peers.len() == 0 {
        seq![]
    } else {
        room_sends(peers.drop_last(), to, own, msg) + if addressed(peers.last(), to, own) {
            seq![send(peers.last().1, msg)]
        } else {
            seq![]
        }
    }
}

/// Whether `m` is handled by the room side: joining, leaving, offers and
/// answers, and ICE candidates from a connection in a room or naming no peer.
pub open spec fn is_room_message(s: SessionView, m: ClientMsgView) -> bool {
    match m {
        ClientMsgView::Join { .. } => true,
        ClientMsgView::Leave => true,
        ClientMsgView::Offer { .. } => true,
        ClientMsgView::Answer { .. } => true,
        ClientMsgView::IceCandidate { to, .. } => s.room is Some || to is None,
        _ => false,
    }
}

/// The relayed form of a signal from peer `from`.
pub open spec fn room_signal(m: ClientMsgView, from: Seq<char>) -> ServerMsgView {
    match m {
        ClientMsgView::Offer { sdp, .. } => ServerMsgView::Offer { sdp, from },
        ClientMsgView::Answer { sdp, .. } => ServerMsgView::Answer { sdp, from },
        ClientMsgView::IceCandidate { candidate, sdp_mid, sdp_m_line_index, .. } =>
            ServerMsgView::IceCandidate { from, candidate, sdp_mid, sdp_m_line_index },
        _ => ServerMsgView::Error { reason: seq![] },
    }
}

/// The peer a signal names, if any.
pub open spec fn signal_target(m: ClientMsgView) -> Option<Seq<char>> {
    match m {
        ClientMsgView::Offer { to, .. } => to,
        ClientMsgView::Answer { to, .. } => to,
        ClientMsgView::IceCandidate { to, .. } => to,
        _ => None,
    }
}

/// Peer `peer_id` asks to join room `code`. A connection already in a room is
/// refused. A room with fewer peers than the limit takes it: the sender learns
/// how many peers the room now has and who was there, and each of those learns
/// of the newcomer. A full room is left as it is and the sender told its limit.
pub open spec fn joining(s: SessionView, rooms: RoomsView, code: Seq<char>, peer_id: Seq<char>) -> RoomOutcome {
    let peers = room_peers(rooms, code);
    if s.room is Some {
        reply(s, rooms, error_msg("already in a room"@))
    } else if peers.len() < rooms.max {
        RoomOutcome {
            session: with_room_of(s, Some((code, peer_id))),
            rooms: with_room(rooms, code, peers.push((peer_id, s.conn))),
            actions: seq![
                send(
                    s.conn,
                    ServerMsgView::Joined {
                        peer_count: (peers.len() + 1) as u64,
                        existing_peers: peer_ids(peers),
                    },
                ),
            ] + broadcast(peers, ServerMsgView::PeerJoined { peer_id }),
        }
    } else {
        reply(s, rooms, ServerMsgView::RoomFull { max: rooms.max })
    }
}

/// The connection leaves its room: the room loses it (and goes when empty),
/// and each peer still in the room learns who left.
pub open spec fn leaving(s: SessionView, rooms: RoomsView) -> RoomOutcome {
    match s.room {
        None => RoomOutcome { session: s, rooms, actions: seq![] },
        Some(r) => {
            let rest = without_conn(room_peers(rooms, r.0), s.conn);
            RoomOutcome {
                session: with_room_of(s, None),
                rooms: with_room(rooms, r.0, rest),
                actions: broadcast(rest, ServerMsgView::PeerLeft { peer_id: r.1 }),
            }
        },
    }
}

/// What a room message does.
pub open spec fn room_message(s: SessionView, rooms: RoomsView, m: ClientMsgView) -> RoomOutcome {
    match m {
        ClientMsgView::Join { room_code, peer_id } => joining(s, rooms, room_code, peer_id),
        ClientMsgView::Leave => leaving(s, rooms),
        _ => match s.room {
            None => reply(s, rooms, error_msg("not in a room"@)),
            Some(r) => RoomOutcome {
                session: s,
                rooms,
                actions: room_sends(room_peers(rooms, r.0), signal_target(m), s.conn, room_signal(m, r.1)),
            },
        },
    }
}

/// One step of a connection: what `e` does to the session `s`, the registry
/// of online users `online` and the rooms `rooms`, when the clock reads `now`
/// milliseconds. Closing a connection first takes it out of its room.
pub open spec fn next(s: SessionView, online: OnlineView, rooms: RoomsView, e: EventView, now: u64) -> Step {
    let open_and_idle = s.pending is Idle && !(s.phase is Closed);
    match e {
        EventView::Message(m) => if open_and_idle && is_room_message(s, m) {
            room_step(room_message(s, rooms, m), online)
        } else {
            contact_step(contact_next(s, online, e, now), rooms)
        },
        EventView::Closed => if open_and_idle {
            let l = leaving(s, rooms);
            let c = closing(l.session, online);
            Step { session: c.session, online: c.online, rooms: l.rooms, actions: l.actions + c.actions }
        } else {
            contact_step(contact_next(s, online, e, now), rooms)
        },
        _ => contact_step(contact_next(s, online, e, now), rooms),
    }
}

/// `o` is what the session, the room registry and the actions became.
pub open spec fn room_reached(o: RoomOutcome, s: SessionView, rooms: RoomsView, actions: Seq<Action>) -> bool {
    &&& s == o.session
    &&& rooms == o.rooms
    &&& actions_view(actions) == o.actions
}

/// `o` is what the session, both registries and the actions became.
pub open spec fn stepped(
    o: Step,
    s: SessionView,
    online: OnlineView,
    rooms: RoomsView,
    actions: Seq<Action>,
) -> bool {
    &&& s == o.session
    &&& online == o.online
    &&& rooms == o.rooms
    &&& actions_view(actions) == o.actions
}

// ─────────────────────────── the implementation ───────────────────────────

proof fn lemma_notices_take(ids: Seq<Seq<char>>, i: int, online: OnlineView, msg: ServerMsgView)
    requires
        0 <= i < ids.len(),
    ensures
        notices(ids.take(i + 1), online, msg) == notices(ids.take(i), online, msg) + relay(
            online,
            ids[i],
            msg,
        ),
{
    assert(ids.take(i + 1).drop_last() =~= ids.take(i));
    assert(ids.take(i + 1).last() == ids[i]);
}

proof fn lemma_actions_push(v: Seq<Action>, a: Action)
    ensures
        actions_view(v.push(a)) == actions_view(v).push(a@),
{
    assert(actions_view(v.push(a)) =~= actions_view(v).push(a@));
}

fn error_reply(reason: &str) -> (r: ServerMsg)
    ensures
        r@ == error_msg(reason@),
{
    ServerMsg::Error { reason: reason.to_owned() }
}

fn notice(user_id: &String, username: &String, coming_online: bool) -> (r: ServerMsg)
    ensures
        r@ == notice_view(user_id@, username@, coming_online),
{
    if coming_online {
        ServerMsg::UserOnline { user_id: user_id.clone(), username: username.clone() }
    } else {
        ServerMsg::UserOffline { user_id: user_id.clone() }
    }
}

/// Appends `msg` for `to`, if `to` is online.
fn push_relay(actions: &mut Vec<Action>, online: &Online, to: &String, msg: ServerMsg)
    ensures
        actions_view(final(actions)@) == actions_view(old(actions)@) + relay(online@, to@, msg@),
{
    match online.connection_of(to.as_str()) {
        Some(c) => {
            proof {
                lemma_actions_push(actions@, Action::Send { conn: c, msg });
            }
            actions.push(Action::Send { conn: c, msg });
            assert(actions_view(actions@) =~= actions_view(old(actions)@) + relay(online@, to@, msg@));
        },
        None => {
            assert(actions_view(actions@) =~= actions_view(old(actions)@) + relay(online@, to@, msg@));
        },
    }
}

/// Appends, in order, the notice about `user_id` for each of `ids` that is online.
fn push_notices(
    actions: &mut Vec<Action>,
    online: &Online,
    ids: &Vec<String>,
    user_id: &String,
    username: &String,
    coming_online: bool,
)
    ensures
        actions_view(final(actions)@) == actions_view(old(actions)@) + notices(
            strs_view(ids@),
            online@,
            notice_view(user_id@, username@, coming_online),
        ),
{
    let ghost start = actions_view(actions@);
    let ghost msg = notice_view(user_id@, username@, coming_online);
    let ghost idv = strs_view(ids@);
    let n = ids.len();
    for i in 0..n
        invariant
            n == ids@.len(),
            idv == strs_view(ids@),
            msg == notice_view(user_id@, username@, coming_online),
            actions_view(actions@) == start + notices(idv.take(i as int), online@, msg),
    {
        proof {
            lemma_notices_take(idv, i as int, online@, msg);
        }
        push_relay(actions, online, &ids[i], notice(user_id, username, coming_online));
        assert(actions_view(actions@) =~= start + notices(idv.take(i + 1), online@, msg));
    }
    assert(idv.take(n as int) =~= idv);
}

/// The notice that peer `peer_id` joined (`joined`) or left a room.
pub open spec fn peer_notice_view(peer_id: Seq<char>, joined: bool) -> ServerMsgView {
    if joined {
        ServerMsgView::PeerJoined { peer_id }
    } else {
        ServerMsgView::PeerLeft { peer_id }
    }
}

proof fn lemma_broadcast_take(p: PeersView, i: int, msg: ServerMsgView)
    requires
        0 <= i < p.len(),
    ensures
        broadcast(p.take(i + 1), msg) == broadcast(p.take(i), msg) + seq![send(p[i].1, msg)],
{
    assert(p.take(i + 1).drop_last() =~= p.take(i));
}

proof fn lemma_room_sends_take(p: PeersView, i: int, to: Option<Seq<char>>, own: u64, msg: ServerMsgView)
    requires
        0 <= i < p.len(),
    ensures
        room_sends(p.take(i + 1), to, own, msg) == room_sends(p.take(i), to, own, msg) + if addressed(
            p[i],
            to,
            own,
        ) {
            seq![send(p[i].1, msg)]
        } else {
            seq![]
        },
{
    assert(p.take(i + 1).drop_last() =~= p.take(i));
}

proof fn lemma_without_conn_take(p: PeersView, i: int, conn: u64)
    requires
        0 <= i < p.len(),
    ensures
        without_conn(p.take(i + 1), conn) == without_conn(p.take(i), conn) + if p[i].1 == conn {
            Seq::<(Seq<char>, u64)>::empty()
        } else {
            seq![p[i]]
        },
{
    assert(p.take(i + 1).drop_last() =~= p.take(i));
}

fn clone_opt(s: &Option<String>) -> (r: Option<String>)
    ensures
        opt_str_view(r) == opt_str_view(*s),
{
    match s {
        Some(x) => Some(x.clone()),
        None => None,
    }
}

/// The ids of `peers`, in order.
fn ids_of(peers: &Vec<(String, u64)>) -> (r: Vec<String>)
    ensures
        strings_view(r@) == peer_ids(peers_view(peers@)),
{
    let ghost pv = peers_view(peers@);
    let mut r: Vec<String> = Vec::new();
    let n = peers.len();
    for i in 0..n
        invariant
            n == peers@.len(),
            pv == peers_view(peers@),
            strings_view(r@) == peer_ids(pv.take(i as int)),
    {
        let ghost before = r@;
        r.push(peers[i].0.clone());
        proof {
            assert(strings_view(r@) =~= strings_view(before).push(pv[i as int].0));
            assert(peer_ids(pv.take(i + 1)) =~= peer_ids(pv.take(i as int)).push(pv[i as int].0));
        }
    }
    assert(pv.take(n as int) =~= pv);
    r
}

/// The peers but those on connection `conn`, in order.
fn drop_conn(peers: &Vec<(String, u64)>, conn: u64) -> (r: Vec<(String, u64)>)
    ensures
        peers_view(r@) == without_conn(peers_view(peers@), conn),
{
    let ghost pv = peers_view(peers@);
    let mut r: Vec<(String, u64)> = Vec::new();
    let n = peers.len();
    for i in 0..n
        invariant
            n == peers@.len(),
            pv == peers_view(peers@),
            peers_view(r@) == without_conn(pv.take(i as int), conn),
    {
        proof {
            lemma_without_conn_take(pv, i as int, conn);
        }
        let ghost before = r@;
        if peers[i].1 != conn {
            let q = (peers[i].0.clone(), peers[i].1);
            r.push(q);
            assert(peers_view(r@) =~= peers_view(before).push(pv[i as int]));
        }
        assert(peers_view(r@) =~= without_conn(pv.take(i + 1), conn));
    }
    assert(pv.take(n as int) =~= pv);
    r
}

fn peer_notice(peer_id: &String, joined: bool) -> (r: ServerMsg)
    ensures
        r@ == peer_notice_view(peer_id@, joined),
{
    if joined {
        ServerMsg::PeerJoined { peer_id: peer_id.clone() }
    } else {
        ServerMsg::PeerLeft { peer_id: peer_id.clone() }
    }
}

/// Appends the notice about `peer_id` for each of `peers`, in order.
fn push_peer_notices(actions: &mut Vec<Action>, peers: &Vec<(String, u64)>, peer_id: &String, joined: bool)
    ensures
        actions_view(final(actions)@) == actions_view(old(actions)@) + broadcast(
            peers_view(peers@),
            peer_notice_view(peer_id@, joined),
        ),
{
    let ghost start = actions_view(actions@);
    let ghost pv = peers_view(peers@);
    let ghost msg = peer_notice_view(peer_id@, joined);
    let n = peers.len();
    for i in 0..n
        invariant
            n == peers@.len(),
            pv == peers_view(peers@),
            msg == peer_notice_view(peer_id@, joined),
            actions_view(actions@) == start + broadcast(pv.take(i as int), msg),
    {
        proof {
            lemma_broadcast_take(pv, i as int, msg);
        }
        let a = Action::Send { conn: peers[i].1, msg: peer_notice(peer_id, joined) };
        proof {
            lemma_actions_push(actions@, a);
        }
        actions.push(a);
        assert(actions_view(actions@) =~= start + broadcast(pv.take(i + 1), msg));
    }
    assert(pv.take(n as int) =~= pv);
}

/// The relayed form of a signal (see [`room_signal`]).
fn signal_for(m: &ClientMsg, from: &String) -> (r: ServerMsg)
    ensures
        r@ == room_signal(m@, from@),
{
    match m {
        ClientMsg::Offer { sdp, .. } => ServerMsg::Offer { sdp: sdp.clone(), from: from.clone() },
        ClientMsg::Answer { sdp, .. } => ServerMsg::Answer { sdp: sdp.clone(), from: from.clone() },
        ClientMsg::IceCandidate { candidate, sdp_mid, sdp_m_line_index, .. } => ServerMsg::IceCandidate {
            from: from.clone(),
            candidate: candidate.clone(),
            sdp_mid: clone_opt(sdp_mid),
            sdp_m_line_index: *sdp_m_line_index,
        },
        _ => ServerMsg::Error { reason: String::new() },
    }
}

/// The peer a signal names (see [`signal_target`]).
fn target_of(m: &ClientMsg) -> (r: Option<String>)
    ensures
        opt_str_view(r) == signal_target(m@),
{
    match m {
        ClientMsg::Offer { to, .. } => clone_opt(to),
        ClientMsg::Answer { to, .. } => clone_opt(to),
        ClientMsg::IceCandidate { to, .. } => clone_opt(to),
        _ => None,
    }
}

/// Appends the relayed form of signal `m` from `from` for each of `peers` it
/// is addressed to, in order.
fn push_room_sends(actions: &mut Vec<Action>, peers: &Vec<(String, u64)>, m: &ClientMsg, own: u64, from: &String)
    ensures
        actions_view(final(actions)@) == actions_view(old(actions)@) + room_sends(
            peers_view(peers@),
            signal_target(m@),
            own,
            room_signal(m@, from@),
        ),
{
    let ghost start = actions_view(actions@);
    let ghost pv = peers_view(peers@);
    let ghost msg = room_signal(m@, from@);
    let to = target_of(m);
    let ghost tv = signal_target(m@);
    let n = peers.len();
    for i in 0..n
        invariant
            n == peers@.len(),
            pv == peers_view(peers@),
            msg == room_signal(m@, from@),
            tv == signal_target(m@),
            opt_str_view(to) == tv,
            actions_view(actions@) == start + room_sends(pv.take(i as int), tv, own, msg),
    {
        proof {
            lemma_room_sends_take(pv, i as int, tv, own, msg);
        }
        let named = match &to {
            Some(t) => *t == peers[i].0,
            None => true,
        };
        if peers[i].1 != own && named {
            let a = Action::Send { conn: peers[i].1, msg: signal_for(m, from) };
            proof {
                lemma_actions_push(actions@, a);
            }
            actions.push(a);
        }
        assert(actions_view(actions@) =~= start + room_sends(pv.take(i + 1), tv, own, msg));
    }
    assert(pv.take(n as int) =~= pv);
}

impl Session {
    /// A new anonymous session on connection `conn`.
    pub fn new(conn: u64) -> (r: Session)
        ensures
            r@ == (SessionView {
                conn,
                phase: PhaseView::Anonymous,
                pending: PendingView::Idle,
                room: None,
            }),
    {
        Session { conn, phase: Phase::Anonymous, pending: Pending::Idle, room: None }
    }

    /// The connection of this session.
    pub fn conn(&self) -> (r: u64)
        ensures
            r == self@.conn,
    {
        self.conn
    }

    /// The user this session registered as, if it has.
    pub fn user_id(&self) -> (r: Option<String>)
        ensures
            match r {
                Some(u) => self@.phase == (PhaseView::Registered { user_id: u@ }),
                None => !(self@.phase is Registered),
            },
    {
        match &self.phase {
            Phase::Registered { user_id } => Some(user_id.clone()),
            _ => None,
        }
    }

    /// Whether the connection has closed.
    pub fn is_closed(&self) -> (r: bool)
        ensures
            r == (self@.phase is Closed),
    {
        match &self.phase {
            Phase::Closed => true,
            _ => false,
        }
    }

    /// Whether the session waits for an answer from the store.
    pub fn is_waiting(&self) -> (r: bool)
        ensures
            r == !(self@.pending is Idle),
    {
        match &self.pending {
            Pending::Idle => false,
            _ => true,
        }
    }

    fn anonymous_message(&mut self, online: &Online, m: ClientMsg) -> (actions: Vec<Action>)
        requires
            old(self)@.pending is Idle,
            old(self)@.phase is Anonymous,
        ensures
            reached(anonymous_message(old(self)@, online@, m@), final(self)@, online@, actions@),
    {
        let mut actions: Vec<Action> = Vec::new();
        match m {
            ClientMsg::Register { user_id, username } => {
                actions.push(Action::SaveUser { user_id: user_id.clone(), username: username.clone() });
                actions.push(Action::LoadRegistration { user_id: user_id.clone() });
                self.pending = Pending::Register { user_id, username };
                assert(actions_view(actions@) =~= anonymous_message(old(self)@, online@, m@).actions);
            },
            _ => {
                actions.push(Action::Send { conn: self.conn, msg: error_reply("not registered") });
                assert(actions_view(actions@) =~= anonymous_message(old(self)@, online@, m@).actions);
            },
        }
        actions
    }

    fn member_message(&mut self, online: &Online, me: String, m: ClientMsg, now: u64) -> (actions: Vec<Action>)
        requires
            old(self)@.pending is Idle,
            old(self)@.phase is Registered,
        ensures
            reached(member_message(old(self)@, online@, me@, m@, now), final(self)@, online@, actions@),
    {
        let from_name = online.username_or_empty(me.as_str());
        let mut actions: Vec<Action> = Vec::new();
        let ghost o = member_message(old(self)@, online@, me@, m@, now);
        match m {
            ClientMsg::Register { .. } => {
                actions.push(Action::Send { conn: self.conn, msg: error_reply("already registered") });
                assert(actions_view(actions@) =~= o.actions);
            },
            ClientMsg::AddContact { contact_id } => {
                if contact_id == me {
                    actions.push(Action::Send { conn: self.conn, msg: error_reply("cannot add yourself") });
                    assert(actions_view(actions@) =~= o.actions);
                } else {
                    actions.push(Action::LookupUser { user_id: contact_id.clone() });
                    self.pending = Pending::AddContact { from_id: me, contact_id, from_name };
                    assert(actions_view(actions@) =~= o.actions);
                }
            },
            ClientMsg::RemoveContact { contact_id } => {
                actions.push(Action::DeleteContact { owner_id: me, contact_id });
                assert(actions_view(actions@) =~= o.actions);
            },
            ClientMsg::GetHistory { with_user_id, before, limit } => {
                actions.push(Action::LoadHistory {
                    user_id: me,
                    with_user_id: with_user_id.clone(),
                    before: history_before(before),
                    limit: history_limit(limit),
                });
                self.pending = Pending::History { with_user_id };
                assert(actions_view(actions@) =~= o.actions);
            },
            ClientMsg::ChatMessage { to, text, msg_id } => {
                actions.push(Action::SaveMessage {
                    msg_id: msg_id.clone(),
                    from_id: me.clone(),
                    to_id: to.clone(),
                    text: text.clone(),
                    timestamp: now,
                });
                let msg = ServerMsg::IncomingMessage { from: me, from_name, text, msg_id, timestamp: now };
                push_relay(&mut actions, online, &to, msg);
                assert(actions_view(actions@) =~= o.actions);
            },
            ClientMsg::CallOffer { to, sdp } => {
                match online.connection_of(to.as_str()) {
                    Some(c) => {
                        actions.push(Action::Send {
                            conn: c,
                            msg: ServerMsg::IncomingCall { from: me, from_name, sdp },
                        });
                    },
                    None => {
                        actions.push(Action::Send {
                            conn: self.conn,
                            msg: ServerMsg::CallRejected { from: to },
                        });
                    },
                }
                assert(actions_view(actions@) =~= o.actions);
            },
            ClientMsg::CallAnswer { to, sdp } => {
                push_relay(&mut actions, online, &to, ServerMsg::CallAnswered { from: me, sdp });
                assert(actions_view(actions@) =~= o.actions);
            },
            ClientMsg::CallReject { to } => {
                push_relay(&mut actions, online, &to, ServerMsg::CallRejected { from: me });
                assert(actions_view(actions@) =~= o.actions);
            },
            ClientMsg::HangUp { to } => {
                push_relay(&mut actions, online, &to, ServerMsg::HangUp { from: me });
                assert(actions_view(actions@) =~= o.actions);
            },
            ClientMsg::IceCandidate { to, candidate, sdp_mid, sdp_m_line_index } => {
                match to {
                    Some(to) => {
                        let msg = ServerMsg::IceCandidate { from: me, candidate, sdp_mid, sdp_m_line_index };
                        push_relay(&mut actions, online, &to, msg);
                    },
                    None => {},
                }
                assert(actions_view(actions@) =~= o.actions);
            },
            _ => {
                assert(actions_view(actions@) =~= o.actions);
            },
        }
        actions
    }

    fn finish_registration(
        &mut self,
        online: &mut Online,
        user_id: String,
        username: String,
        contacts: Vec<(String, String)>,
        watchers: Vec<String>,
    ) -> (actions: Vec<Action>)
        ensures
            reached(
                registration_loaded(
                    old(self)@,
                    old(online)@,
                    user_id@,
                    username@,
                    pairs_view(contacts@),
                    strs_view(watchers@),
                ),
                final(self)@,
                final(online)@,
                actions@,
            ),
    {
        let ghost o = registration_loaded(
            self@,
            online@,
            user_id@,
            username@,
            pairs_view(contacts@),
            strs_view(watchers@),
        );
        online.insert(user_id.clone(), username.clone(), self.conn);
        let ghost hello = ServerMsgView::UserOnline { user_id: user_id@, username: username@ };
        let ghost rows = pairs_view(contacts@);
        let ghost ids = first_of_pairs(rows);
        let mut actions: Vec<Action> = Vec::new();
        let mut list: Vec<ContactInfo> = Vec::new();
        let n = contacts.len();
        for i in 0..n
            invariant
                n == contacts@.len(),
                rows == pairs_view(contacts@),
                ids == first_of_pairs(rows),
                hello == (ServerMsgView::UserOnline { user_id: user_id@, username: username@ }),
                online@ == o.online,
                actions_view(actions@) == notices(ids.take(i as int), online@, hello),
                contacts_view(list@) == contact_infos(rows.take(i as int), online@),
        {
            proof {
                lemma_notices_take(ids, i as int, online@, hello);
            }
            let cid = &contacts[i].0;
            let is_on = online.contains(cid.as_str());
            if is_on {
                push_relay(&mut actions, online, cid, notice(&user_id, &username, true));
            } else {
                assert(actions_view(actions@) =~= notices(ids.take(i as int), online@, hello) + relay(online@, ids[i as int], hello));
            }
            let ghost before = list@;
            let info = ContactInfo { user_id: cid.clone(), username: contacts[i].1.clone(), online: is_on };
            list.push(info);
            proof {
                assert(contacts_view(list@) =~= contacts_view(before).push(info@));
                assert(rows.take(i + 1) =~= rows.take(i as int).push(rows[i as int]));
                assert(contact_infos(rows.take(i + 1), online@) =~= contact_infos(rows.take(i as int), online@).push(info@));
            }
        }
        proof {
            assert(rows.take(n as int) =~= rows);
            assert(ids.take(n as int) =~= ids);
        }
        push_notices(&mut actions, online, &watchers, &user_id, &username, true);
        let ghost before_done = actions@;
        let conn = self.conn;
        let ack = Action::Send { conn, msg: ServerMsg::Registered };
        let listing = Action::Send { conn, msg: ServerMsg::ContactList { contacts: list } };
        actions.push(ack);
        actions.push(listing);
        proof {
            assert(actions_view(actions@) =~= actions_view(before_done).push(ack@).push(listing@));
        }
        self.phase = Phase::Registered { user_id };
        self.pending = Pending::Idle;
        assert(actions_view(actions@) =~= o.actions);
        actions
    }

    fn finish_add_contact(
        &mut self,
        online: &Online,
        from_id: String,
        contact_id: String,
        from_name: String,
        stored: Option<String>,
    ) -> (actions: Vec<Action>)
        requires
            old(self)@.pending is Idle,
        ensures
            reached(
                contact_looked_up(
                    old(self)@,
                    online@,
                    from_id@,
                    contact_id@,
                    from_name@,
                    opt_str_view(stored),
                ),
                final(self)@,
                online@,
                actions@,
            ),
    {
        let ghost o = contact_looked_up(
            self@,
            online@,
            from_id@,
            contact_id@,
            from_name@,
            opt_str_view(stored),
        );
        let name: Option<String> = match stored {
            Some(u) => Some(u),
            None => match online.get(contact_id.as_str()) {
                Some(e) => Some(e.0),
                None => None,
            },
        };
        let mut actions: Vec<Action> = Vec::new();
        match name {
            None => {
                actions.push(Action::Send {
                    conn: self.conn,
                    msg: error_reply("user not found \u{2014} they need to connect at least once"),
                });
            },
            Some(username) => {
                let is_on = online.contains(contact_id.as_str());
                actions.push(Action::SaveContact {
                    owner_id: from_id.clone(),
                    contact_id: contact_id.clone(),
                });
                actions.push(Action::Send {
                    conn: self.conn,
                    msg: ServerMsg::ContactAdded { user_id: contact_id.clone(), username, online: is_on },
                });
                let added = ServerMsg::AddedByUser { user_id: from_id, username: from_name, online: true };
                push_relay(&mut actions, online, &contact_id, added);
            },
        }
        assert(actions_view(actions@) =~= o.actions);
        actions
    }

    fn close(&mut self, online: &mut Online) -> (actions: Vec<Action>)
        requires
            old(self)@.pending is Idle,
        ensures
            reached(closing(old(self)@, old(online)@), final(self)@, final(online)@, actions@),
    {
        let mut actions: Vec<Action> = Vec::new();
        let ghost o = closing(self@, online@);
        match self.user_id() {
            Some(uid) => {
                online.remove(uid.as_str());
                actions.push(Action::TouchLastSeen { user_id: uid.clone() });
                actions.push(Action::LoadWatchers { user_id: uid.clone() });
                self.phase = Phase::Closed;
                self.pending = Pending::Leave { user_id: uid };
            },
            None => {
                self.phase = Phase::Closed;
            },
        }
        assert(actions_view(actions@) =~= o.actions);
        actions
    }

    /// The contact side of a step (see [`contact_next`]).
    fn contact_step_at(&mut self, online: &mut Online, event: Event, now: u64) -> (actions: Vec<Action>)
        ensures
            reached(contact_next(old(self)@, old(online)@, event@, now), final(self)@, final(online)@, actions@),
    {
        proof {
            assert(actions_view(Seq::<Action>::empty()) =~= Seq::<ActionView>::empty());
        }
        let mut pending = Pending::Idle;
        std::mem::swap(&mut pending, &mut self.pending);
        match pending {
            Pending::Idle => match event {
                Event::Message(m) => match self.user_id() {
                    Some(me) => self.member_message(online, me, m, now),
                    None => {
                        if self.is_closed() {
                            Vec::new()
                        } else {
                            self.anonymous_message(online, m)
                        }
                    },
                },
                Event::Malformed(detail) => {
                    let mut actions: Vec<Action> = Vec::new();
                    if !self.is_closed() {
                        let reason = "bad message: ".to_owned().concat(detail.as_str());
                        actions.push(Action::Send { conn: self.conn, msg: ServerMsg::Error { reason } });
                        assert(actions_view(actions@) =~= contact_next(old(self)@, old(online)@, event@, now).actions);
                    }
                    actions
                },
                Event::Closed => {
                    if self.is_closed() {
                        Vec::new()
                    } else {
                        self.close(online)
                    }
                },
                _ => Vec::new(),
            },
            Pending::Register { user_id, username } => match event {
                Event::Registration { contacts, watchers } => self.finish_registration(
                    online,
                    user_id,
                    username,
                    contacts,
                    watchers,
                ),
                _ => {
                    self.pending = Pending::Register { user_id, username };
                    Vec::new()
                },
            },
            Pending::AddContact { from_id, contact_id, from_name } => match event {
                Event::ContactLookup(stored) => self.finish_add_contact(
                    online,
                    from_id,
                    contact_id,
                    from_name,
                    stored,
                ),
                _ => {
                    self.pending = Pending::AddContact { from_id, contact_id, from_name };
                    Vec::new()
                },
            },
            Pending::History { with_user_id } => match event {
                Event::History(rows) => {
                    let mut actions: Vec<Action> = Vec::new();
                    let messages = history_from_rows(rows);
                    actions.push(Action::Send {
                        conn: self.conn,
                        msg: ServerMsg::MessageHistory { with_user_id, messages },
                    });
                    assert(actions_view(actions@) =~= contact_next(old(self)@, old(online)@, event@, now).actions);
                    actions
                },
                _ => {
                    self.pending = Pending::History { with_user_id };
                    Vec::new()
                },
            },
            Pending::Leave { user_id } => match event {
                Event::Watchers(ws) => {
                    let mut actions: Vec<Action> = Vec::new();
                    push_notices(&mut actions, online, &ws, &user_id, &String::new(), false);
                    assert(actions_view(actions@) =~= contact_next(old(self)@, old(online)@, event@, now).actions);
                    actions
                },
                _ => {
                    self.pending = Pending::Leave { user_id };
                    Vec::new()
                },
            },
        }
    }

    /// One step of the session: `event` happens while the clock reads `now`
    /// milliseconds. Returns what the server is to do, in order.
    pub fn step_at(&mut self, online: &mut Online, rooms: &mut Rooms, event: Event, now: u64) -> (actions: Vec<Action>)
        ensures
            stepped(
                next(old(self)@, old(online)@, old(rooms)@, event@, now),
                final(self)@,
                final(online)@,
                final(rooms)@,
                actions@,
            ),
    {
        let open_and_idle = !self.is_waiting() && !self.is_closed();
        match event {
            Event::Message(m) => {
                if open_and_idle && self.is_room_message(&m) {
                    self.room_message(rooms, m)
                } else {
                    self.contact_step_at(online, Event::Message(m), now)
                }
            },
            Event::Closed => {
                if open_and_idle {
                    let ghost s0 = self@;
                    let mut actions = self.leave_room(rooms);
                    let ghost left = actions@;
                    let mut more = self.close(online);
                    let ghost closed = more@;
                    actions.append(&mut more);
                    proof {
                        assert(actions_view(actions@) =~= actions_view(left) + actions_view(closed));
                    }
                    actions
                } else {
                    self.contact_step_at(online, Event::Closed, now)
                }
            },
            other => self.contact_step_at(online, other, now),
        }
    }

    /// One step of the session on `event`. A chat message from a registered
    /// session is stamped with the current time in milliseconds, read once;
    /// when the clock reads a time before the Unix epoch the message cannot be
    /// stamped, and the step returns `None` and changes nothing. No other event
    /// reads the clock.
    pub fn step(&mut self, online: &mut Online, rooms: &mut Rooms, event: Event) -> (r: Option<Vec<Action>>)
        ensures
            match r {
                Some(actions) => {
                    &&& exists|t: u64|
                        stepped(
                            #[trigger] next(old(self)@, old(online)@, old(rooms)@, event@, t),
                            final(self)@,
                            final(online)@,
                            final(rooms)@,
                            actions@,
                        ) && (needs_clock(old(self)@, event@) ==> exists|reading: Option<(u64, u32)>|
                            is_reading(reading) && Some(t) == #[trigger] spec_millis_since_epoch(reading))
                    &&& !needs_clock(old(self)@, event@) ==> stepped(
                        next(old(self)@, old(online)@, old(rooms)@, event@, 0),
                        final(self)@,
                        final(online)@,
                        final(rooms)@,
                        actions@,
                    )
                },
                None => {
                    &&& needs_clock(old(self)@, event@)
                    &&& final(self)@ == old(self)@
                    &&& final(online)@ == old(online)@
                    &&& final(rooms)@ == old(rooms)@
                },
            },
            !needs_clock(old(self)@, event@) ==> r is Some,
    {
        let stamped = match &event {
            Event::Message(ClientMsg::ChatMessage { .. }) => !self.is_waiting()
                && self.user_id().is_some(),
            _ => false,
        };
        if stamped {
            match now_millis() {
                Some(now) => {
                    let actions = self.step_at(online, rooms, event, now);
                    assert(stepped(next(old(self)@, old(online)@, old(rooms)@, event@, now), self@, online@, rooms@, actions@));
                    Some(actions)
                },
                None => None,
            }
        } else {
            let actions = self.step_at(online, rooms, event, 0);
            assert(stepped(next(old(self)@, old(online)@, old(rooms)@, event@, 0), self@, online@, rooms@, actions@));
            Some(actions)
        }
    }

    /// Whether `m` is handled by the room side (see [`is_room_message`]).
    fn is_room_message(&self, m: &ClientMsg) -> (r: bool)
        ensures
            r == is_room_message(self@, m@),
    {
        match m {
            ClientMsg::Join { .. } => true,
            ClientMsg::Leave => true,
            ClientMsg::Offer { .. } => true,
            ClientMsg::Answer { .. } => true,
            ClientMsg::IceCandidate { to, .. } => self.room.is_some() || to.is_none(),
            _ => false,
        }
    }

    fn join_room(&mut self, rooms: &mut Rooms, code: String, peer_id: String) -> (actions: Vec<Action>)
        ensures
            room_reached(joining(old(self)@, old(rooms)@, code@, peer_id@), final(self)@, final(rooms)@, actions@),
    {
        let ghost o = joining(self@, rooms@, code@, peer_id@);
        let mut actions: Vec<Action> = Vec::new();
        if self.room.is_some() {
            actions.push(Action::Send { conn: self.conn, msg: error_reply("already in a room") });
            assert(actions_view(actions@) =~= o.actions);
            return actions;
        }
        let peers = rooms.peers(code.as_str());
        if (peers.len() as u64) < rooms.max() {
            let ids = ids_of(&peers);
            let count: u64 = peers.len() as u64 + 1;
            actions.push(Action::Send {
                conn: self.conn,
                msg: ServerMsg::Joined { peer_count: count, existing_peers: ids },
            });
            let ghost first = actions@;
            push_peer_notices(&mut actions, &peers, &peer_id, true);
            let mut grown = peers;
            let ghost before = grown@;
            grown.push((peer_id.clone(), self.conn));
            proof {
                assert(peers_view(grown@) =~= peers_view(before).push((peer_id@, self.conn)));
            }
            rooms.set_peers(code.clone(), grown);
            self.room = Some((code, peer_id));
            assert(actions_view(actions@) =~= o.actions);
        } else {
            actions.push(Action::Send { conn: self.conn, msg: ServerMsg::RoomFull { max: rooms.max() } });
            assert(actions_view(actions@) =~= o.actions);
        }
        actions
    }

    fn leave_room(&mut self, rooms: &mut Rooms) -> (actions: Vec<Action>)
        ensures
            room_reached(leaving(old(self)@, old(rooms)@), final(self)@, final(rooms)@, actions@),
            final(self)@.pending == old(self)@.pending,
            final(self)@.phase == old(self)@.phase,
    {
        let ghost o = leaving(self@, rooms@);
        let mut actions: Vec<Action> = Vec::new();
        let mut room: Option<(String, String)> = None;
        std::mem::swap(&mut room, &mut self.room);
        match room {
            None => {
                assert(actions_view(actions@) =~= o.actions);
            },
            Some(r) => {
                let peers = rooms.peers(r.0.as_str());
                let rest = drop_conn(&peers, self.conn);
                push_peer_notices(&mut actions, &rest, &r.1, false);
                rooms.set_peers(r.0, rest);
                assert(actions_view(actions@) =~= o.actions);
            },
        }
        actions
    }

    fn room_message(&mut self, rooms: &mut Rooms, m: ClientMsg) -> (actions: Vec<Action>)
        requires
            is_room_message(old(self)@, m@),
        ensures
            room_reached(room_message(old(self)@, old(rooms)@, m@), final(self)@, final(rooms)@, actions@),
    {
        let ghost o = room_message(self@, rooms@, m@);
        match m {
            ClientMsg::Join { room_code, peer_id } => self.join_room(rooms, room_code, peer_id),
            ClientMsg::Leave => self.leave_room(rooms),
            _ => {
                let mut actions: Vec<Action> = Vec::new();
                match &self.room {
                    None => {
                        actions.push(Action::Send { conn: self.conn, msg: error_reply("not in a room") });
                    },
                    Some(r) => {
                        let peers = rooms.peers(r.0.as_str());
                        push_room_sends(&mut actions, &peers, &m, self.conn, &r.1);
                    },
                }
                assert(actions_view(actions@) =~= o.actions);
                actions
            },
        }
    }
}

} // verus!
