//! Properties of the session state machine that span events and connections.
use vstd::prelude::*;
use crate::messages::{ClientMsgView, ContactInfoView, ServerMsgView};
use crate::presence::OnlineView;
use crate::session::{
    ActionView, EventView, PendingView, PhaseView, SessionView, Step, bad_message_reason, broadcast,
    contact_infos, contact_next, error_msg, first_of_pairs, is_room_message, leaving, name_or_empty,
    needs_clock, next, notices, relay, room_sends,
};
use crate::rooms::{PeersView, RoomsView, peer_ids, room_peers, with_room, without_conn};
use crate::history::spec_history_limit;

verus! {

/// `conn` is the connection of some user in the registry.
pub open spec fn serves_online_user(online: OnlineView, conn: u64) -> bool {
    exists|u: Seq<char>| #[trigger] online.dom().contains(u) && online[u].1 == conn
}

/// Every message in `actions` goes to `own` or to the connection of a user in `online`.
pub open spec fn delivers_within(actions: Seq<ActionView>, own: u64, online: OnlineView) -> bool {
    forall|i: int|
        #![trigger actions[i]]
        0 <= i < actions.len() ==> match actions[i] {
            ActionView::Send { conn, .. } => conn == own || serves_online_user(online, conn),
            _ => true,
        }
}

proof fn lemma_delivers_concat(a: Seq<ActionView>, b: Seq<ActionView>, own: u64, online: OnlineView)
    requires
        delivers_within(a, own, online),
        delivers_within(b, own, online),
    ensures
        delivers_within(a + b, own, online),
{
    assert forall|i: int| 0 <= i < (a + b).len() implies match #[trigger] (a + b)[i] {
        ActionView::Send { conn, .. } => conn == own || serves_online_user(online, conn),
        _ => true,
    } by {
        if i < a.len() {
            assert((a + b)[i] == a[i]);
        } else {
            assert((a + b)[i] == b[i - a.len()]);
        }
    }
}

proof fn lemma_relay_delivers(online: OnlineView, to: Seq<char>, msg: ServerMsgView, own: u64)
    ensures
        delivers_within(relay(online, to, msg), own, online),
{
    if online.dom().contains(to) {
        assert(online.dom().contains(to) && online[to].1 == online[to].1);
        assert(serves_online_user(online, online[to].1));
    }
}

proof fn lemma_notices_deliver(ids: Seq<Seq<char>>, online: OnlineView, msg: ServerMsgView, own: u64)
    ensures
        delivers_within(notices(ids, online, msg), own, online),
    decreases ids.len(),
{
    if ids.len() > 0 {
        lemma_notices_deliver(ids.drop_last(), online, msg, own);
        lemma_relay_delivers(online, ids.last(), msg, own);
        lemma_delivers_concat(
            notices(ids.drop_last(), online, msg),
            relay(online, ids.last(), msg),
            own,
            online,
        );
    }
}

/// The contact side of a step delivers only to the session itself or to
/// users online after the step.
proof fn lemma_contact_deliveries(
    s: SessionView,
    online: OnlineView,
    e: EventView,
    now: u64,
)
    ensures
        delivers_within(contact_next(s, online, e, now).actions, s.conn, contact_next(s, online, e, now).online),
{
    let o = contact_next(s, online, e, now);
    match s.pending {
        PendingView::Idle => match e {
            EventView::Message(m) => match s.phase {
                PhaseView::Registered { user_id } => {
                    match m {
                        ClientMsgView::ChatMessage { to, text, msg_id } => {
                            let from_name = crate::session::name_or_empty(online, user_id);
                            let first = seq![ActionView::SaveMessage { msg_id, from_id: user_id, to_id: to, text, timestamp: now }];
                            let msg = ServerMsgView::IncomingMessage { from: user_id, from_name, text, msg_id, timestamp: now };
                            lemma_relay_delivers(online, to, msg, s.conn);
                            lemma_delivers_concat(first, relay(online, to, msg), s.conn, online);
                        },
                        ClientMsgView::CallOffer { to, sdp } => {
                            if online.dom().contains(to) {
                                assert(online.dom().contains(to) && online[to].1 == online[to].1);
                            }
                        },
                        ClientMsgView::CallAnswer { to, sdp } => {
                            lemma_relay_delivers(online, to, ServerMsgView::CallAnswered { from: user_id, sdp }, s.conn);
                        },
                        ClientMsgView::CallReject { to } => {
                            lemma_relay_delivers(online, to, ServerMsgView::CallRejected { from: user_id }, s.conn);
                        },
                        ClientMsgView::HangUp { to } => {
                            lemma_relay_delivers(online, to, ServerMsgView::HangUp { from: user_id }, s.conn);
                        },
                        ClientMsgView::IceCandidate { to, candidate, sdp_mid, sdp_m_line_index } => {
                            if let Some(to) = to {
                                lemma_relay_delivers(
                                    online,
                                    to,
                                    ServerMsgView::IceCandidate { from: user_id, candidate, sdp_mid, sdp_m_line_index },
                                    s.conn,
                                );
                            }
                        },
                        _ => {},
                    }
                },
                _ => {},
            },
            _ => {},
        },
        PendingView::Register { user_id, username } => match e {
            EventView::Registration { contacts, watchers } => {
                let online2 = online.insert(user_id, (username, s.conn));
                let hello = ServerMsgView::UserOnline { user_id, username };
                let ids = crate::session::first_of_pairs(contacts);
                lemma_notices_deliver(ids, online2, hello, s.conn);
                lemma_notices_deliver(watchers, online2, hello, s.conn);
                lemma_delivers_concat(
                    notices(ids, online2, hello),
                    notices(watchers, online2, hello),
                    s.conn,
                    online2,
                );
                let tail = seq![
                    ActionView::Send { conn: s.conn, msg: ServerMsgView::Registered },
                    ActionView::Send {
                        conn: s.conn,
                        msg: ServerMsgView::ContactList {
                            contacts: crate::session::contact_infos(contacts, online2),
                        },
                    },
                ];
                lemma_delivers_concat(
                    notices(ids, online2, hello) + notices(watchers, online2, hello),
                    tail,
                    s.conn,
                    online2,
                );
            },
            _ => {},
        },
        PendingView::AddContact { from_id, contact_id, from_name } => match e {
            EventView::ContactLookup(stored) => {
                let added = ServerMsgView::AddedByUser { user_id: from_id, username: from_name, online: true };
                lemma_relay_delivers(online, contact_id, added, s.conn);
                if o.actions.len() > 1 {
                    let head = o.actions.take(2);
                    assert(o.actions =~= head + relay(online, contact_id, added));
                    lemma_delivers_concat(head, relay(online, contact_id, added), s.conn, online);
                }
            },
            _ => {},
        },
        PendingView::History { .. } => {},
        PendingView::Leave { user_id } => match e {
            EventView::Watchers(ws) => {
                lemma_notices_deliver(ws, online, ServerMsgView::UserOffline { user_id }, s.conn);
            },
            _ => {},
        },
    }
}

/// A session keeps its connection through every step.
pub proof fn law_connection_is_stable(s: SessionView, online: OnlineView, rooms: RoomsView, e: EventView, now: u64)
    ensures
        next(s, online, rooms, e, now).session.conn == s.conn,
{
}

/// Only a chat message to a registered, idle session depends on the time:
/// every other step has the same outcome whatever the time.
pub proof fn law_clock_only_stamps_chat(
    s: SessionView,
    online: OnlineView,
    rooms: RoomsView,
    e: EventView,
    t1: u64,
    t2: u64,
)
    requires
        !needs_clock(s, e),
    ensures
        next(s, online, rooms, e, t1) == next(s, online, rooms, e, t2),
{
}

/// Until it registers, a client is refused everything but registration: any
/// other message is answered with "not registered" and changes nothing.
pub proof fn law_unregistered_clients_are_refused(
    s: SessionView,
    online: OnlineView,
    rooms: RoomsView,
    m: ClientMsgView,
    now: u64,
)
    requires
        s.phase is Anonymous,
        s.pending is Idle,
        !(m is Register),
        !is_room_message(s, m),
    ensures
        next(s, online, rooms, EventView::Message(m), now) == (Step {
            session: s,
            online,
            rooms,
            actions: seq![ActionView::Send { conn: s.conn, msg: error_msg("not registered"@) }],
        }),
{
}

/// A connection registers at most once: a second registration is answered
/// with "already registered" and changes nothing.
pub proof fn law_registration_happens_once(
    s: SessionView,
    online: OnlineView,
    rooms: RoomsView,
    user_id: Seq<char>,
    username: Seq<char>,
    now: u64,
)
    requires
        s.phase is Registered,
        s.pending is Idle,
    ensures
        next(s, online, rooms, EventView::Message(ClientMsgView::Register { user_id, username }), now)
            == (Step {
            session: s,
            online,
            rooms,
            actions: seq![ActionView::Send { conn: s.conn, msg: error_msg("already registered"@) }],
        }),
{
}

/// Registering puts the user online under its username on this connection,
/// leaves every other user's entry as it was, and acknowledges with
/// `Registered` followed by the contact list.
pub proof fn law_registration_puts_user_online(
    s: SessionView,
    online: OnlineView,
    rooms: RoomsView,
    contacts: Seq<(Seq<char>, Seq<char>)>,
    watchers: Seq<Seq<char>>,
    now: u64,
)
    requires
        s.pending is Register,
    ensures
        ({
            let o = next(s, online, rooms, EventView::Registration { contacts, watchers }, now);
            let user_id = s.pending->Register_user_id;
            let username = s.pending->Register_username;
            &&& o.online.dom().contains(user_id)
            &&& o.online[user_id] == (username, s.conn)
            &&& forall|u: Seq<char>| u != user_id ==> (#[trigger] o.online.dom().contains(u) <==> online.dom().contains(u))
            &&& forall|u: Seq<char>| u != user_id && online.dom().contains(u) ==> #[trigger] o.online[u] == online[u]
            &&& o.session.phase == (PhaseView::Registered { user_id })
            &&& o.actions.len() >= 2
            &&& o.actions[o.actions.len() - 2] == (ActionView::Send { conn: s.conn, msg: ServerMsgView::Registered })
            &&& o.actions.last() == (ActionView::Send {
                conn: s.conn,
                msg: ServerMsgView::ContactList { contacts: contact_infos(contacts, o.online) },
            })
            &&& contact_infos(contacts, o.online).len() == contacts.len()
        }),
{
}

/// Closing a registered connection takes its user offline, leaves every other
/// user's entry as it was, and takes the connection out of its room as
/// leaving does, telling the peers still there first.
pub proof fn law_closing_takes_user_offline(s: SessionView, online: OnlineView, rooms: RoomsView, now: u64)
    requires
        s.phase is Registered,
        s.pending is Idle,
    ensures
        ({
            let o = next(s, online, rooms, EventView::Closed, now);
            let user_id = s.phase->Registered_user_id;
            &&& !o.online.dom().contains(user_id)
            &&& o.online == online.remove(user_id)
            &&& o.session.phase is Closed
            &&& o.session.room is None
            &&& o.rooms == leaving(s, rooms).rooms
            &&& o.actions == leaving(s, rooms).actions + seq![
                ActionView::TouchLastSeen { user_id },
                ActionView::LoadWatchers { user_id },
            ]
        }),
{
}

/// Registering and then closing undoes the registration: when the user was
/// not online before, the registry ends as it began.
pub proof fn law_register_then_close_restores_registry(
    s: SessionView,
    online: OnlineView,
    rooms: RoomsView,
    contacts: Seq<(Seq<char>, Seq<char>)>,
    watchers: Seq<Seq<char>>,
    now: u64,
)
    requires
        s.pending is Register,
        !online.dom().contains(s.pending->Register_user_id),
    ensures
        ({
            let o1 = next(s, online, rooms, EventView::Registration { contacts, watchers }, now);
            let o2 = next(o1.session, o1.online, o1.rooms, EventView::Closed, now);
            o2.online == online
        }),
{
    let o1 = next(s, online, rooms, EventView::Registration { contacts, watchers }, now);
    let o2 = next(o1.session, o1.online, o1.rooms, EventView::Closed, now);
    assert(o2.online =~= online);
}

/// Only registration and closing change the registry of online users: every
/// other event leaves it as it was.
pub proof fn law_registry_changes_only_on_join_and_leave(
    s: SessionView,
    online: OnlineView,
    rooms: RoomsView,
    e: EventView,
    now: u64,
)
    requires
        !(e is Registration),
        !(e is Closed),
    ensures
        next(s, online, rooms, e, now).online == online,
{
}

/// A closed connection ignores whatever the client still sends.
pub proof fn law_closed_sessions_ignore_clients(
    s: SessionView,
    online: OnlineView,
    rooms: RoomsView,
    e: EventView,
    now: u64,
)
    requires
        s.phase is Closed,
        s.pending is Idle,
        e is Message || e is Malformed || e is Closed,
    ensures
        next(s, online, rooms, e, now) == (Step { session: s, online, rooms, actions: seq![] }),
{
}

/// The contact list lists each stored contact once, in the order the store
/// gave them, and marks it online exactly when it is in the registry (which
/// already holds the registering user).
pub proof fn law_contact_list_reports_presence(
    contacts: Seq<(Seq<char>, Seq<char>)>,
    online: OnlineView,
    i: int,
)
    requires
        0 <= i < contacts.len(),
    ensures
        contact_infos(contacts, online)[i].user_id == contacts[i].0,
        contact_infos(contacts, online)[i].username == contacts[i].1,
        contact_infos(contacts, online)[i].online == online.dom().contains(contacts[i].0),
{
}

/// A call offer to a user who is not online is rejected to the caller at
/// once, in the name of the callee, and nothing else happens.
pub proof fn law_offer_to_offline_user_is_rejected(
    s: SessionView,
    online: OnlineView,
    rooms: RoomsView,
    to: Seq<char>,
    sdp: Seq<char>,
    now: u64,
)
    requires
        s.phase is Registered,
        s.pending is Idle,
        !online.dom().contains(to),
    ensures
        next(s, online, rooms, EventView::Message(ClientMsgView::CallOffer { to, sdp }), now) == (Step {
            session: s,
            online,
            rooms,
            actions: seq![ActionView::Send { conn: s.conn, msg: ServerMsgView::CallRejected { from: to } }],
        }),
{
}

/// Nobody can add themselves as a contact: the request is answered with
/// "cannot add yourself" and changes nothing.
pub proof fn law_adding_yourself_is_refused(s: SessionView, online: OnlineView, rooms: RoomsView, now: u64)
    requires
        s.phase is Registered,
        s.pending is Idle,
    ensures
        next(
            s,
            online,
            rooms,
            EventView::Message(ClientMsgView::AddContact { contact_id: s.phase->Registered_user_id }),
            now,
        ) == (Step {
            session: s,
            online,
            rooms,
            actions: seq![ActionView::Send { conn: s.conn, msg: error_msg("cannot add yourself"@) }],
        }),
{
}

/// A history query asks for at most 200 messages, and for 50 when the client
/// names no limit.
pub proof fn law_history_queries_are_bounded(
    s: SessionView,
    online: OnlineView,
    rooms: RoomsView,
    with_user_id: Seq<char>,
    before: Option<u64>,
    limit: Option<u32>,
    now: u64,
)
    requires
        s.phase is Registered,
        s.pending is Idle,
    ensures
        ({
            let o = next(
                s,
                online,
                rooms,
                EventView::Message(ClientMsgView::GetHistory { with_user_id, before, limit }),
                now,
            );
            &&& o.actions.len() == 1
            &&& o.actions[0] matches ActionView::LoadHistory { limit: l, .. } && 0 <= l <= 200 && (
            limit is None ==> l == 50)
            &&& o.session.pending == (PendingView::History { with_user_id })
        }),
{
    assert(0 <= spec_history_limit(limit) <= 200);
}

proof fn lemma_notices_reach(ids: Seq<Seq<char>>, online: OnlineView, msg: ServerMsgView, x: Seq<char>)
    requires
        ids.contains(x),
        online.dom().contains(x),
    ensures
        notices(ids, online, msg).contains(ActionView::Send { conn: online[x].1, msg }),
    decreases ids.len(),
{
    let a = ActionView::Send { conn: online[x].1, msg };
    if ids.last() == x {
        let n = notices(ids.drop_last(), online, msg);
        assert((n + seq![a])[n.len() as int] == a);
    } else {
        let k = choose|k: int| 0 <= k < ids.len() && ids[k] == x;
        assert(ids.drop_last()[k] == x);
        lemma_notices_reach(ids.drop_last(), online, msg, x);
        let n = notices(ids.drop_last(), online, msg);
        let j = choose|j: int| 0 <= j < n.len() && n[j] == a;
        assert((n + relay(online, ids.last(), msg))[j] == a);
    }
}

/// Two users who are contacts and register at the same time learn of each
/// other, whichever registration the server handles first. Here `a` has `b`
/// as a contact, so the store lists `b` among `a`'s contacts and `a` among
/// `b`'s watchers. If `a` is handled first, `b`'s registration tells `a`'s
/// connection that `b` came online; if `b` is handled first, `a`'s contact
/// list marks `b` online.
pub proof fn law_contacts_registering_together_learn_of_each_other(
    sa: SessionView,
    sb: SessionView,
    online: OnlineView,
    rooms: RoomsView,
    ca: Seq<(Seq<char>, Seq<char>)>,
    wa: Seq<Seq<char>>,
    cb: Seq<(Seq<char>, Seq<char>)>,
    wb: Seq<Seq<char>>,
    now: u64,
)
    requires
        sa.pending is Register,
        sb.pending is Register,
        sa.pending->Register_user_id != sb.pending->Register_user_id,
        first_of_pairs(ca).contains(sb.pending->Register_user_id),
        wb.contains(sa.pending->Register_user_id),
    ensures
        ({
            let oa = next(sa, online, rooms, EventView::Registration { contacts: ca, watchers: wa }, now);
            let ob = next(sb, oa.online, oa.rooms, EventView::Registration { contacts: cb, watchers: wb }, now);
            ob.actions.contains(
                ActionView::Send {
                    conn: sa.conn,
                    msg: ServerMsgView::UserOnline {
                        user_id: sb.pending->Register_user_id,
                        username: sb.pending->Register_username,
                    },
                },
            )
        }),
        ({
            let ob = next(sb, online, rooms, EventView::Registration { contacts: cb, watchers: wb }, now);
            let oa = next(sa, ob.online, ob.rooms, EventView::Registration { contacts: ca, watchers: wa }, now);
            &&& oa.actions.last() == (ActionView::Send {
                conn: sa.conn,
                msg: ServerMsgView::ContactList { contacts: contact_infos(ca, oa.online) },
            })
            &&& exists|i: int|
                0 <= i < ca.len() && ca[i].0 == sb.pending->Register_user_id && #[trigger] contact_infos(
                    ca,
                    oa.online,
                )[i].online
        }),
{
    let a = sa.pending->Register_user_id;
    let b = sb.pending->Register_user_id;
    let nb = sb.pending->Register_username;
    // a first
    let oa = next(sa, online, rooms, EventView::Registration { contacts: ca, watchers: wa }, now);
    let online2 = oa.online.insert(b, (nb, sb.conn));
    let hello = ServerMsgView::UserOnline { user_id: b, username: nb };
    assert(online2.dom().contains(a) && online2[a].1 == sa.conn);
    lemma_notices_reach(wb, online2, hello, a);
    let first = notices(first_of_pairs(cb), online2, hello);
    let second = notices(wb, online2, hello);
    let target = ActionView::Send { conn: sa.conn, msg: hello };
    let j = choose|j: int| 0 <= j < second.len() && second[j] == target;
    let ob = next(sb, oa.online, oa.rooms, EventView::Registration { contacts: cb, watchers: wb }, now);
    assert(ob.actions[first.len() + j] == target);
    // b first
    let ob2 = next(sb, online, rooms, EventView::Registration { contacts: cb, watchers: wb }, now);
    let oa2 = next(sa, ob2.online, ob2.rooms, EventView::Registration { contacts: ca, watchers: wa }, now);
    let k = choose|k: int| 0 <= k < first_of_pairs(ca).len() && first_of_pairs(ca)[k] == b;
    assert(ca[k].0 == b);
    assert(oa2.online.dom().contains(b));
    assert(contact_infos(ca, oa2.online)[k].online);
}

/// Adding a contact and then removing it: the add asks the store for the
/// contact's username, then stores the contact, tells the user (with the
/// stored username, or else the one the contact is online under, and whether
/// it is online) and tells the contact, if online, who added them; the remove
/// forgets the contact and sends nothing. The session and the registry end as
/// they began.
pub proof fn law_add_then_remove_contact(
    s: SessionView,
    online: OnlineView,
    rooms: RoomsView,
    contact_id: Seq<char>,
    stored: Option<Seq<char>>,
    now: u64,
)
    requires
        s.phase is Registered,
        s.pending is Idle,
        contact_id != s.phase->Registered_user_id,
        stored is Some || online.dom().contains(contact_id),
    ensures
        ({
            let me = s.phase->Registered_user_id;
            let o1 = next(s, online, rooms, EventView::Message(ClientMsgView::AddContact { contact_id }), now);
            let o2 = next(o1.session, o1.online, o1.rooms, EventView::ContactLookup(stored), now);
            let o3 = next(o2.session, o2.online, o2.rooms, EventView::Message(ClientMsgView::RemoveContact { contact_id }), now);
            let name = match stored {
                Some(u) => u,
                None => online[contact_id].0,
            };
            &&& o1.actions == seq![ActionView::LookupUser { user_id: contact_id }]
            &&& o1.online == online
            &&& o2.session == s
            &&& o2.online == online
            &&& o2.actions == seq![
                ActionView::SaveContact { owner_id: me, contact_id },
                ActionView::Send {
                    conn: s.conn,
                    msg: ServerMsgView::ContactAdded {
                        user_id: contact_id,
                        username: name,
                        online: online.dom().contains(contact_id),
                    },
                },
            ] + relay(
                online,
                contact_id,
                ServerMsgView::AddedByUser { user_id: me, username: name_or_empty(online, me), online: true },
            )
            &&& o3 == (Step {
                session: s,
                online,
                rooms,
                actions: seq![ActionView::DeleteContact { owner_id: me, contact_id }],
            })
        }),
{
}

/// Text that is not a message is answered with one error to the sender,
/// "bad message: " and the reason, and changes nothing, as long as the
/// connection is open and waits for nothing.
pub proof fn law_malformed_text_is_answered(
    s: SessionView,
    online: OnlineView,
    rooms: RoomsView,
    detail: Seq<char>,
    now: u64,
)
    requires
        s.pending is Idle,
        !(s.phase is Closed),
    ensures
        next(s, online, rooms, EventView::Malformed(detail), now) == (Step {
            session: s,
            online,
            rooms,
            actions: seq![ActionView::Send { conn: s.conn, msg: error_msg(bad_message_reason(detail)) }],
        }),
        bad_message_reason(detail).take(13) == "bad message: "@,
{
    reveal_strlit("bad message: ");
    assert(bad_message_reason(detail).take(13) =~= "bad message: "@);
}

/// A session that waits for the store changes nothing and does nothing on a
/// client event; the server hands it client events only when it waits for
/// nothing.
pub proof fn law_waiting_sessions_hold_client_events(
    s: SessionView,
    online: OnlineView,
    rooms: RoomsView,
    e: EventView,
    now: u64,
)
    requires
        !(s.pending is Idle),
        e is Message || e is Malformed || e is Closed,
    ensures
        next(s, online, rooms, e, now) == (Step { session: s, online, rooms, actions: seq![] }),
{
}

// ───────────────────────── rooms ─────────────────────────

/// `conn` is the connection of a peer in some room.
pub open spec fn serves_room_peer(rooms: RoomsView, conn: u64) -> bool {
    exists|code: Seq<char>, i: int|
        #![trigger rooms.members[code][i]]
        rooms.members.dom().contains(code) && 0 <= i < rooms.members[code].len()
            && rooms.members[code][i].1 == conn
}

/// Every message in `actions` goes to `own`, to the connection of a user in
/// `online`, or to the connection of a peer in one of `rooms`.
pub open spec fn delivers_to_known(
    actions: Seq<ActionView>,
    own: u64,
    online: OnlineView,
    rooms: RoomsView,
) -> bool {
    forall|i: int|
        #![trigger actions[i]]
        0 <= i < actions.len() ==> match actions[i] {
            ActionView::Send { conn, .. } => conn == own || serves_online_user(online, conn)
                || serves_room_peer(rooms, conn),
            _ => true,
        }
}

proof fn lemma_known_concat(a: Seq<ActionView>, b: Seq<ActionView>, own: u64, online: OnlineView, rooms: RoomsView)
    requires
        delivers_to_known(a, own, online, rooms),
        delivers_to_known(b, own, online, rooms),
    ensures
        delivers_to_known(a + b, own, online, rooms),
{
    assert forall|i: int| 0 <= i < (a + b).len() implies match #[trigger] (a + b)[i] {
        ActionView::Send { conn, .. } => conn == own || serves_online_user(online, conn)
            || serves_room_peer(rooms, conn),
        _ => true,
    } by {
        if i < a.len() {
            assert((a + b)[i] == a[i]);
        } else {
            assert((a + b)[i] == b[i - a.len()]);
        }
    }
}

proof fn lemma_within_is_known(a: Seq<ActionView>, own: u64, online: OnlineView, rooms: RoomsView)
    requires
        delivers_within(a, own, online),
    ensures
        delivers_to_known(a, own, online, rooms),
{
    assert forall|i: int| 0 <= i < a.len() implies match #[trigger] a[i] {
        ActionView::Send { conn, .. } => conn == own || serves_online_user(online, conn)
            || serves_room_peer(rooms, conn),
        _ => true,
    } by {
        assert(match a[i] {
            ActionView::Send { conn, .. } => conn == own || serves_online_user(online, conn),
            _ => true,
        });
    }
}

/// The messages of `broadcast` go to the connections of `peers`.
proof fn lemma_broadcast_targets(p: PeersView, msg: ServerMsgView)
    ensures
        broadcast(p, msg).len() == p.len(),
        forall|k: int| 0 <= k < p.len() ==> #[trigger] broadcast(p, msg)[k] == (ActionView::Send { conn: p[k].1, msg }),
    decreases p.len(),
{
    if p.len() > 0 {
        lemma_broadcast_targets(p.drop_last(), msg);
        assert forall|k: int| 0 <= k < p.len() implies #[trigger] broadcast(p, msg)[k] == (ActionView::Send { conn: p[k].1, msg }) by {
            if k < p.len() - 1 {
                assert(broadcast(p.drop_last(), msg)[k] == (ActionView::Send { conn: p.drop_last()[k].1, msg }));
            }
        }
    }
}

/// The messages of `room_sends` go to connections of `peers` other than `own`.
proof fn lemma_room_sends_targets(p: PeersView, to: Option<Seq<char>>, own: u64, msg: ServerMsgView)
    ensures
        forall|k: int|
            0 <= k < room_sends(p, to, own, msg).len() ==> exists|j: int|
                0 <= j < p.len() && p[j].1 != own && #[trigger] room_sends(p, to, own, msg)[k] == (
                ActionView::Send { conn: p[j].1, msg }),
    decreases p.len(),
{
    if p.len() > 0 {
        let q = p.drop_last();
        lemma_room_sends_targets(q, to, own, msg);
        let r = room_sends(p, to, own, msg);
        let rq = room_sends(q, to, own, msg);
        assert forall|k: int| 0 <= k < r.len() implies exists|j: int|
            0 <= j < p.len() && p[j].1 != own && #[trigger] r[k] == (ActionView::Send { conn: p[j].1, msg }) by {
            if k < rq.len() {
                assert(r[k] == rq[k]);
                let j = choose|j: int| 0 <= j < q.len() && q[j].1 != own && rq[k] == (ActionView::Send { conn: q[j].1, msg });
                assert(p[j] == q[j]);
            } else {
                assert(r[k] == (ActionView::Send { conn: p[p.len() - 1].1, msg }));
            }
        }
    }
}

/// Every peer of a room in the registry is served there.
proof fn lemma_room_members_served(rooms: RoomsView, code: Seq<char>, own: u64, actions: Seq<ActionView>, p: PeersView)
    requires
        rooms.members.dom().contains(code),
        rooms.members[code] == p,
        forall|k: int| 0 <= k < actions.len() ==> match #[trigger] actions[k] {
            ActionView::Send { conn, .. } => exists|j: int| 0 <= j < p.len() && p[j].1 == conn,
            _ => true,
        },
    ensures
        forall|online: OnlineView| #[trigger] delivers_to_known(actions, own, online, rooms),
{
    assert forall|online: OnlineView| #[trigger] delivers_to_known(actions, own, online, rooms) by {
        assert forall|k: int| 0 <= k < actions.len() implies match #[trigger] actions[k] {
            ActionView::Send { conn, .. } => conn == own || serves_online_user(online, conn)
                || serves_room_peer(rooms, conn),
            _ => true,
        } by {
            if let ActionView::Send { conn, .. } = actions[k] {
                let j = choose|j: int| 0 <= j < p.len() && p[j].1 == conn;
                assert(rooms.members[code][j].1 == conn);
            }
        }
    }
}

proof fn lemma_room_deliveries(s: SessionView, online: OnlineView, rooms: RoomsView, m: ClientMsgView)
    ensures
        delivers_to_known(
            crate::session::room_message(s, rooms, m).actions,
            s.conn,
            online,
            crate::session::room_message(s, rooms, m).rooms,
        ),
{
    let o = crate::session::room_message(s, rooms, m);
    match m {
        ClientMsgView::Join { room_code, peer_id } => {
            let peers = room_peers(rooms, room_code);
            if s.room is None && peers.len() < rooms.max {
                let grown = peers.push((peer_id, s.conn));
                let b = broadcast(peers, ServerMsgView::PeerJoined { peer_id });
                lemma_broadcast_targets(peers, ServerMsgView::PeerJoined { peer_id });
                assert forall|k: int| 0 <= k < b.len() implies match #[trigger] b[k] {
                    ActionView::Send { conn, .. } => exists|j: int| 0 <= j < grown.len() && grown[j].1 == conn,
                    _ => true,
                } by {
                    assert(grown[k].1 == peers[k].1);
                }
                lemma_room_members_served(o.rooms, room_code, s.conn, b, grown);
                let first = seq![
                    ActionView::Send {
                        conn: s.conn,
                        msg: ServerMsgView::Joined {
                            peer_count: (peers.len() + 1) as u64,
                            existing_peers: peer_ids(peers),
                        },
                    },
                ];
                assert(delivers_to_known(b, s.conn, online, o.rooms));
                assert(delivers_to_known(first, s.conn, online, o.rooms));
                lemma_known_concat(first, b, s.conn, online, o.rooms);
            }
        },
        ClientMsgView::Leave => {
            lemma_leave_deliveries(s, online, rooms);
        },
        _ => {
            if let Some(r) = s.room {
                let peers = room_peers(rooms, r.0);
                let msg = crate::session::room_signal(m, r.1);
                let to = crate::session::signal_target(m);
                let a = room_sends(peers, to, s.conn, msg);
                lemma_room_sends_targets(peers, to, s.conn, msg);
                if rooms.members.dom().contains(r.0) {
                    assert forall|k: int| 0 <= k < a.len() implies match #[trigger] a[k] {
                        ActionView::Send { conn, .. } => exists|j: int| 0 <= j < peers.len() && peers[j].1 == conn,
                        _ => true,
                    } by {
                        let j = choose|j: int| 0 <= j < peers.len() && peers[j].1 != s.conn && a[k] == (ActionView::Send { conn: peers[j].1, msg });
                    }
                    lemma_room_members_served(rooms, r.0, s.conn, a, peers);
                } else {
                    assert(peers.len() == 0);
                    assert(a.len() == 0);
                }
            }
        },
    }
}

proof fn lemma_leave_deliveries(s: SessionView, online: OnlineView, rooms: RoomsView)
    ensures
        delivers_to_known(leaving(s, rooms).actions, s.conn, online, leaving(s, rooms).rooms),
{
    if let Some(r) = s.room {
        let rest = without_conn(room_peers(rooms, r.0), s.conn);
        let msg = ServerMsgView::PeerLeft { peer_id: r.1 };
        let b = broadcast(rest, msg);
        lemma_broadcast_targets(rest, msg);
        if rest.len() > 0 {
            assert forall|k: int| 0 <= k < b.len() implies match #[trigger] b[k] {
                ActionView::Send { conn, .. } => exists|j: int| 0 <= j < rest.len() && rest[j].1 == conn,
                _ => true,
            } by {
            }
            lemma_room_members_served(leaving(s, rooms).rooms, r.0, s.conn, b, rest);
        }
    }
}

/// Messages reach only connections the server knows: every message a step
/// delivers goes to the session's own connection, to the connection of a
/// user online after the step, or to the connection of a peer in a room
/// after the step.
pub proof fn law_deliveries_reach_known_connections(
    s: SessionView,
    online: OnlineView,
    rooms: RoomsView,
    e: EventView,
    now: u64,
)
    ensures
        ({
            let o = next(s, online, rooms, e, now);
            delivers_to_known(o.actions, s.conn, o.online, o.rooms)
        }),
{
    let o = next(s, online, rooms, e, now);
    let open_and_idle = s.pending is Idle && !(s.phase is Closed);
    match e {
        EventView::Message(m) => {
            if open_and_idle && is_room_message(s, m) {
                lemma_room_deliveries(s, online, rooms, m);
            } else {
                lemma_contact_deliveries(s, online, e, now);
                lemma_within_is_known(o.actions, s.conn, o.online, o.rooms);
            }
        },
        EventView::Closed => {
            if open_and_idle {
                let l = leaving(s, rooms);
                lemma_leave_deliveries(s, o.online, rooms);
                lemma_contact_deliveries(l.session, online, EventView::Closed, now);
                let c = contact_next(l.session, online, EventView::Closed, now);
                lemma_within_is_known(c.actions, s.conn, o.online, o.rooms);
                lemma_known_concat(l.actions, c.actions, s.conn, o.online, o.rooms);
            } else {
                lemma_contact_deliveries(s, online, e, now);
                lemma_within_is_known(o.actions, s.conn, o.online, o.rooms);
            }
        },
        _ => {
            lemma_contact_deliveries(s, online, e, now);
            lemma_within_is_known(o.actions, s.conn, o.online, o.rooms);
        },
    }
}

/// A room with a free place takes the peer that joins: the room grows by the
/// peer on this connection, the peer learns how many are now in the room and
/// who was there, and each of those learns of the newcomer.
pub proof fn law_join_takes_a_free_place(
    s: SessionView,
    online: OnlineView,
    rooms: RoomsView,
    room_code: Seq<char>,
    peer_id: Seq<char>,
    now: u64,
)
    requires
        s.pending is Idle,
        !(s.phase is Closed),
        s.room is None,
        room_peers(rooms, room_code).len() < rooms.max,
    ensures
        ({
            let peers = room_peers(rooms, room_code);
            let o = next(s, online, rooms, EventView::Message(ClientMsgView::Join { room_code, peer_id }), now);
            &&& o.session.room == Some((room_code, peer_id))
            &&& o.online == online
            &&& o.rooms.max == rooms.max
            &&& o.rooms.members == rooms.members.insert(room_code, peers.push((peer_id, s.conn)))
            &&& o.actions == seq![
                ActionView::Send {
                    conn: s.conn,
                    msg: ServerMsgView::Joined {
                        peer_count: (peers.len() + 1) as u64,
                        existing_peers: peer_ids(peers),
                    },
                },
            ] + broadcast(peers, ServerMsgView::PeerJoined { peer_id })
        }),
{
}

/// A full room refuses a peer: the peer is told the room's limit, and nothing
/// changes.
pub proof fn law_full_room_refuses(
    s: SessionView,
    online: OnlineView,
    rooms: RoomsView,
    room_code: Seq<char>,
    peer_id: Seq<char>,
    now: u64,
)
    requires
        s.pending is Idle,
        !(s.phase is Closed),
        s.room is None,
        room_peers(rooms, room_code).len() >= rooms.max,
    ensures
        next(s, online, rooms, EventView::Message(ClientMsgView::Join { room_code, peer_id }), now) == (Step {
            session: s,
            online,
            rooms,
            actions: seq![ActionView::Send { conn: s.conn, msg: ServerMsgView::RoomFull { max: rooms.max } }],
        }),
{
}

proof fn lemma_without_conn_len(p: PeersView, conn: u64)
    ensures
        without_conn(p, conn).len() <= p.len(),
        forall|k: int| 0 <= k < without_conn(p, conn).len() ==> #[trigger] without_conn(p, conn)[k].1 != conn,
    decreases p.len(),
{
    if p.len() > 0 {
        lemma_without_conn_len(p.drop_last(), conn);
        let w = without_conn(p.drop_last(), conn);
        let tail: PeersView = if p.last().1 == conn { Seq::empty() } else { seq![p.last()] };
        assert forall|k: int| 0 <= k < (w + tail).len() implies #[trigger] (w + tail)[k].1 != conn by {
            if k < w.len() {
                assert((w + tail)[k] == w[k]);
            } else {
                assert((w + tail)[k] == tail[k - w.len()]);
            }
        }
    }
}

/// Leaving a room tells each peer still in it who left, and never the one
/// who leaves: the room keeps its other peers, in order, and goes when empty.
pub proof fn law_leave_tells_the_rest(
    s: SessionView,
    online: OnlineView,
    rooms: RoomsView,
    now: u64,
)
    requires
        s.pending is Idle,
        !(s.phase is Closed),
        s.room is Some,
    ensures
        ({
            let code = s.room.unwrap().0;
            let rest = without_conn(room_peers(rooms, code), s.conn);
            let o = next(s, online, rooms, EventView::Message(ClientMsgView::Leave), now);
            &&& o.session.room is None
            &&& o.online == online
            &&& o.rooms == with_room(rooms, code, rest)
            &&& o.actions == broadcast(rest, ServerMsgView::PeerLeft { peer_id: s.room.unwrap().1 })
            &&& forall|k: int| 0 <= k < rest.len() ==> #[trigger] rest[k].1 != s.conn
        }),
{
    lemma_without_conn_len(room_peers(rooms, s.room.unwrap().0), s.conn);
}

proof fn lemma_without_absent_conn(p: PeersView, conn: u64)
    requires
        forall|k: int| 0 <= k < p.len() ==> #[trigger] p[k].1 != conn,
    ensures
        without_conn(p, conn) == p,
    decreases p.len(),
{
    if p.len() > 0 {
        lemma_without_absent_conn(p.drop_last(), conn);
        assert(p.drop_last() + seq![p.last()] =~= p);
    }
}

/// Joining and then leaving undoes the join: when no peer of the room was on
/// this connection and the registry holds no empty room, the rooms end as
/// they began.
pub proof fn law_join_then_leave_restores_rooms(
    s: SessionView,
    online: OnlineView,
    rooms: RoomsView,
    room_code: Seq<char>,
    peer_id: Seq<char>,
    now: u64,
)
    requires
        s.pending is Idle,
        !(s.phase is Closed),
        s.room is None,
        room_peers(rooms, room_code).len() < rooms.max,
        forall|k: int|
            0 <= k < room_peers(rooms, room_code).len() ==> #[trigger] room_peers(rooms, room_code)[k].1 != s.conn,
        rooms.members.dom().contains(room_code) ==> rooms.members[room_code].len() > 0,
    ensures
        ({
            let o1 = next(s, online, rooms, EventView::Message(ClientMsgView::Join { room_code, peer_id }), now);
            let o2 = next(o1.session, o1.online, o1.rooms, EventView::Message(ClientMsgView::Leave), now);
            &&& o2.rooms == rooms
            &&& o2.session == s
        }),
{
    let peers = room_peers(rooms, room_code);
    let grown = peers.push((peer_id, s.conn));
    assert(grown.drop_last() =~= peers);
    lemma_without_absent_conn(peers, s.conn);
    assert(without_conn(grown, s.conn) == peers);
    let o1 = next(s, online, rooms, EventView::Message(ClientMsgView::Join { room_code, peer_id }), now);
    let o2 = next(o1.session, o1.online, o1.rooms, EventView::Message(ClientMsgView::Leave), now);
    assert(room_peers(o1.rooms, room_code) == grown);
    assert(o2.rooms.members =~= rooms.members);
}

/// Every room stays within its limit: if no room holds more peers than the
/// limit before a step, none does after it.
pub proof fn law_rooms_stay_within_limit(
    s: SessionView,
    online: OnlineView,
    rooms: RoomsView,
    e: EventView,
    now: u64,
)
    requires
        forall|code: Seq<char>| #[trigger] rooms.members.dom().contains(code) ==> rooms.members[code].len() <= rooms.max,
    ensures
        ({
            let o = next(s, online, rooms, e, now);
            &&& o.rooms.max == rooms.max
            &&& forall|code: Seq<char>| #[trigger] o.rooms.members.dom().contains(code) ==> o.rooms.members[code].len() <= o.rooms.max
        }),
{
    if let Some(r) = s.room {
        lemma_without_conn_len(room_peers(rooms, r.0), s.conn);
    }
}

/// Offers, answers and ICE candidates sent in a room go, with the sender's
/// peer id, to the peer they name, or to every other peer when they name
/// none, and never back to the sender; nothing else changes.
pub proof fn law_signals_stay_in_the_room(
    s: SessionView,
    online: OnlineView,
    rooms: RoomsView,
    m: ClientMsgView,
    now: u64,
)
    requires
        s.pending is Idle,
        !(s.phase is Closed),
        s.room is Some,
        m is Offer || m is Answer || m is IceCandidate,
    ensures
        ({
            let o = next(s, online, rooms, EventView::Message(m), now);
            let peers = room_peers(rooms, s.room.unwrap().0);
            &&& o.session == s
            &&& o.online == online
            &&& o.rooms == rooms
            &&& o.actions == room_sends(
                peers,
                crate::session::signal_target(m),
                s.conn,
                crate::session::room_signal(m, s.room.unwrap().1),
            )
            &&& forall|k: int|
                0 <= k < o.actions.len() ==> exists|j: int|
                    0 <= j < peers.len() && peers[j].1 != s.conn && #[trigger] o.actions[k] == (
                    ActionView::Send { conn: peers[j].1, msg: crate::session::room_signal(m, s.room.unwrap().1) })
        }),
{
    let peers = room_peers(rooms, s.room.unwrap().0);
    lemma_room_sends_targets(
        peers,
        crate::session::signal_target(m),
        s.conn,
        crate::session::room_signal(m, s.room.unwrap().1),
    );
}

/// Offers and answers outside a room are refused with "not in a room".
pub proof fn law_signals_need_a_room(
    s: SessionView,
    online: OnlineView,
    rooms: RoomsView,
    m: ClientMsgView,
    now: u64,
)
    requires
        s.pending is Idle,
        !(s.phase is Closed),
        s.room is None,
        m is Offer || m is Answer,
    ensures
        next(s, online, rooms, EventView::Message(m), now) == (Step {
            session: s,
            online,
            rooms,
            actions: seq![ActionView::Send { conn: s.conn, msg: error_msg("not in a room"@) }],
        }),
{
}

proof fn lemma_contains_in_sum(a: Seq<ActionView>, b: Seq<ActionView>, x: ActionView)
    requires
        a.contains(x) || b.contains(x),
    ensures
        (a + b).contains(x),
{
    if a.contains(x) {
        let j = choose|j: int| 0 <= j < a.len() && a[j] == x;
        assert((a + b)[j] == x);
    } else {
        let j = choose|j: int| 0 <= j < b.len() && b[j] == x;
        assert((a + b)[a.len() + j] == x);
    }
}

/// When a registered user's connection has closed and the store names the
/// users who have the user as a contact, every one of them who is online is
/// told that the user went offline: one notice for each name in the list that
/// is online, in the order of the list, and nothing else. The registry and the
/// rooms stay as they are and the session waits for nothing more.
pub proof fn law_going_offline_tells_every_online_watcher(
    s: SessionView,
    online: OnlineView,
    rooms: RoomsView,
    watchers: Seq<Seq<char>>,
    now: u64,
)
    requires
        s.pending is Leave,
    ensures
        ({
            let gone = ServerMsgView::UserOffline { user_id: s.pending->Leave_user_id };
            let o = next(s, online, rooms, EventView::Watchers(watchers), now);
            &&& forall|i: int|
                #![trigger watchers[i]]
                0 <= i < watchers.len() && online.dom().contains(watchers[i]) ==> o.actions.contains(
                    ActionView::Send { conn: online[watchers[i]].1, msg: gone },
                )
            &&& o.actions == watchers.filter(|w: Seq<char>| online.dom().contains(w)).map_values(
                |w: Seq<char>| ActionView::Send { conn: online[w].1, msg: gone },
            )
            &&& o.online == online
            &&& o.rooms == rooms
            &&& o.session.pending is Idle
        }),
{
    let gone = ServerMsgView::UserOffline { user_id: s.pending->Leave_user_id };
    lemma_notices_in_order(watchers, online, gone);
    assert forall|i: int|
        0 <= i < watchers.len() && online.dom().contains(watchers[i]) implies notices(
            watchers,
            online,
            gone,
        ).contains(ActionView::Send { conn: online[watchers[i]].1, msg: gone }) by {
        assert(watchers.contains(watchers[i]));
        lemma_notices_reach(watchers, online, gone, watchers[i]);
    }
}

/// Registering tells each stored contact, then each user who has the user as
/// a contact, among those online once the user is, that the user came online
/// under its username (one notice per online entry of each list, in the
/// order of the lists, and nothing to anyone else); then it acknowledges with
/// `Registered` and the contact list, which gives each stored contact, in the
/// order the store gave them, with whether it is online.
pub proof fn law_registration_announces_presence(
    s: SessionView,
    online: OnlineView,
    rooms: RoomsView,
    contacts: Seq<(Seq<char>, Seq<char>)>,
    watchers: Seq<Seq<char>>,
    now: u64,
)
    requires
        s.pending is Register,
    ensures
        ({
            let user_id = s.pending->Register_user_id;
            let username = s.pending->Register_username;
            let hello = ServerMsgView::UserOnline { user_id, username };
            let o = next(s, online, rooms, EventView::Registration { contacts, watchers }, now);
            &&& o.online == online.insert(user_id, (username, s.conn))
            &&& forall|i: int|
                #![trigger contacts[i]]
                0 <= i < contacts.len() && o.online.dom().contains(contacts[i].0) ==> o.actions.contains(
                    ActionView::Send { conn: o.online[contacts[i].0].1, msg: hello },
                )
            &&& forall|i: int|
                #![trigger watchers[i]]
                0 <= i < watchers.len() && o.online.dom().contains(watchers[i]) ==> o.actions.contains(
                    ActionView::Send { conn: o.online[watchers[i]].1, msg: hello },
                )
            &&& o.actions == contacts.filter(
                |c: (Seq<char>, Seq<char>)| o.online.dom().contains(c.0),
            ).map_values(|c: (Seq<char>, Seq<char>)| ActionView::Send { conn: o.online[c.0].1, msg: hello })
                + watchers.filter(|w: Seq<char>| o.online.dom().contains(w)).map_values(
                |w: Seq<char>| ActionView::Send { conn: o.online[w].1, msg: hello },
            ) + seq![
                ActionView::Send { conn: s.conn, msg: ServerMsgView::Registered },
                ActionView::Send {
                    conn: s.conn,
                    msg: ServerMsgView::ContactList {
                        contacts: contacts.map_values(
                            |c: (Seq<char>, Seq<char>)|
                                ContactInfoView {
                                    user_id: c.0,
                                    username: c.1,
                                    online: o.online.dom().contains(c.0),
                                },
                        ),
                    },
                },
            ]
        }),
{
    let user_id = s.pending->Register_user_id;
    let username = s.pending->Register_username;
    let hello = ServerMsgView::UserOnline { user_id, username };
    let o = next(s, online, rooms, EventView::Registration { contacts, watchers }, now);
    let online2 = online.insert(user_id, (username, s.conn));
    let ids = first_of_pairs(contacts);
    let a = notices(ids, online2, hello);
    let b = notices(watchers, online2, hello);
    let c = seq![
        ActionView::Send { conn: s.conn, msg: ServerMsgView::Registered },
        ActionView::Send { conn: s.conn, msg: ServerMsgView::ContactList { contacts: contact_infos(contacts, online2) } },
    ];
    assert(o.actions == a + b + c);
    assert forall|i: int|
        0 <= i < contacts.len() && online2.dom().contains(contacts[i].0) implies o.actions.contains(
            ActionView::Send { conn: online2[contacts[i].0].1, msg: hello },
        ) by {
        let x = ActionView::Send { conn: online2[contacts[i].0].1, msg: hello };
        assert(ids[i] == contacts[i].0);
        assert(ids.contains(contacts[i].0));
        lemma_notices_reach(ids, online2, hello, contacts[i].0);
        lemma_contains_in_sum(a, b, x);
        lemma_contains_in_sum(a + b, c, x);
    }
    assert forall|i: int|
        0 <= i < watchers.len() && online2.dom().contains(watchers[i]) implies o.actions.contains(
            ActionView::Send { conn: online2[watchers[i]].1, msg: hello },
        ) by {
        let x = ActionView::Send { conn: online2[watchers[i]].1, msg: hello };
        assert(watchers.contains(watchers[i]));
        lemma_notices_reach(watchers, online2, hello, watchers[i]);
        lemma_contains_in_sum(a, b, x);
        lemma_contains_in_sum(a + b, c, x);
    }
    lemma_contact_notices_in_order(contacts, online2, hello);
    lemma_notices_in_order(watchers, online2, hello);
}

/// `notices` to the ids of (id, username) pairs in closed form: `msg`
/// delivered to each pair whose id is online, in order.
proof fn lemma_contact_notices_in_order(
    contacts: Seq<(Seq<char>, Seq<char>)>,
    online: OnlineView,
    msg: ServerMsgView,
)
    ensures
        notices(first_of_pairs(contacts), online, msg) == contacts.filter(
            |c: (Seq<char>, Seq<char>)| online.dom().contains(c.0),
        ).map_values(|c: (Seq<char>, Seq<char>)| ActionView::Send { conn: online[c.0].1, msg }),
    decreases contacts.len(),
{
    if contacts.len() > 0 {
        reveal(Seq::filter);
        let q = contacts.drop_last();
        lemma_contact_notices_in_order(q, online, msg);
        let ids = first_of_pairs(contacts);
        assert(ids.drop_last() =~= first_of_pairs(q));
        assert(ids.last() == contacts.last().0);
        let pred = |c: (Seq<char>, Seq<char>)| online.dom().contains(c.0);
        let fq = q.filter(pred);
        let f = contacts.filter(pred);
        if online.dom().contains(contacts.last().0) {
            assert(f == fq.push(contacts.last()));
        } else {
            assert(f == fq);
        }
        assert(notices(ids, online, msg) =~= f.map_values(
            |c: (Seq<char>, Seq<char>)| ActionView::Send { conn: online[c.0].1, msg },
        ));
    }
}

/// Every peer a signal is addressed to gets it.
proof fn lemma_room_sends_reach(p: PeersView, to: Option<Seq<char>>, own: u64, msg: ServerMsgView, j: int)
    requires
        0 <= j < p.len(),
        crate::session::addressed(p[j], to, own),
    ensures
        room_sends(p, to, own, msg).contains(ActionView::Send { conn: p[j].1, msg }),
    decreases p.len(),
{
    let x = ActionView::Send { conn: p[j].1, msg };
    let q = p.drop_last();
    let rq = room_sends(q, to, own, msg);
    let tail: Seq<ActionView> = if crate::session::addressed(p.last(), to, own) {
        seq![ActionView::Send { conn: p.last().1, msg }]
    } else {
        seq![]
    };
    assert(room_sends(p, to, own, msg) == rq + tail);
    if j == p.len() - 1 {
        assert(tail[0] == x);
        lemma_contains_in_sum(rq, tail, x);
    } else {
        assert(q[j] == p[j]);
        lemma_room_sends_reach(q, to, own, msg, j);
        lemma_contains_in_sum(rq, tail, x);
    }
}

/// Each message of `room_sends` goes to a peer it is addressed to.
proof fn lemma_room_sends_sound(p: PeersView, to: Option<Seq<char>>, own: u64, msg: ServerMsgView)
    ensures
        forall|k: int|
            #![trigger room_sends(p, to, own, msg)[k]]
            0 <= k < room_sends(p, to, own, msg).len() ==> exists|j: int|
                #![trigger p[j]]
                0 <= j < p.len() && crate::session::addressed(p[j], to, own) && room_sends(p, to, own, msg)[k]
                    == (ActionView::Send { conn: p[j].1, msg }),
    decreases p.len(),
{
    if p.len() > 0 {
        let q = p.drop_last();
        lemma_room_sends_sound(q, to, own, msg);
        let r = room_sends(p, to, own, msg);
        let rq = room_sends(q, to, own, msg);
        assert forall|k: int| 0 <= k < r.len() implies exists|j: int|
            #![trigger p[j]]
            0 <= j < p.len() && crate::session::addressed(p[j], to, own) && #[trigger] r[k] == (ActionView::Send {
                conn: p[j].1,
                msg,
            }) by {
            if k < rq.len() {
                assert(r[k] == rq[k]);
                let j = choose|j: int|
                    0 <= j < q.len() && crate::session::addressed(q[j], to, own) && rq[k] == (ActionView::Send {
                        conn: q[j].1,
                        msg,
                    });
                assert(p[j] == q[j]);
            } else {
                assert(r[k] == (ActionView::Send { conn: p[p.len() - 1].1, msg }));
                assert(p[p.len() - 1] == p.last());
            }
        }
    }
}

/// A signal sent in a room (an offer, an answer or an ICE candidate) goes, as
/// the same kind of message from the sender's peer id, to exactly the peers of
/// the room on other connections that it is for: the one it names, or every
/// one when it names none. Nothing else changes.
pub proof fn law_signal_reaches_exactly_its_peers(
    s: SessionView,
    online: OnlineView,
    rooms: RoomsView,
    m: ClientMsgView,
    now: u64,
)
    requires
        s.pending is Idle,
        !(s.phase is Closed),
        s.room is Some,
        m is Offer || m is Answer || m is IceCandidate,
    ensures
        ({
            let code = s.room.unwrap().0;
            let from = s.room.unwrap().1;
            let p = room_peers(rooms, code);
            let to: Option<Seq<char>> = match m {
                ClientMsgView::Offer { to, .. } => to,
                ClientMsgView::Answer { to, .. } => to,
                ClientMsgView::IceCandidate { to, .. } => to,
                _ => None,
            };
            let relayed = match m {
                ClientMsgView::Offer { sdp, .. } => ServerMsgView::Offer { sdp, from },
                ClientMsgView::Answer { sdp, .. } => ServerMsgView::Answer { sdp, from },
                ClientMsgView::IceCandidate { candidate, sdp_mid, sdp_m_line_index, .. } =>
                    ServerMsgView::IceCandidate { from, candidate, sdp_mid, sdp_m_line_index },
                _ => ServerMsgView::Registered,
            };
            let o = next(s, online, rooms, EventView::Message(m), now);
            &&& p == if rooms.members.dom().contains(code) { rooms.members[code] } else { Seq::empty() }
            &&& o.session == s
            &&& o.online == online
            &&& o.rooms == rooms
            &&& forall|k: int|
                #![trigger o.actions[k]]
                0 <= k < o.actions.len() ==> exists|j: int|
                    #![trigger p[j]]
                    0 <= j < p.len() && p[j].1 != s.conn && (to is Some ==> p[j].0 == to.unwrap())
                        && o.actions[k] == (ActionView::Send { conn: p[j].1, msg: relayed })
            &&& forall|j: int|
                #![trigger p[j]]
                0 <= j < p.len() && p[j].1 != s.conn && (to is Some ==> p[j].0 == to.unwrap())
                    ==> o.actions.contains(ActionView::Send { conn: p[j].1, msg: relayed })
        }),
{
    let code = s.room.unwrap().0;
    let p = room_peers(rooms, code);
    let to = crate::session::signal_target(m);
    let relayed = crate::session::room_signal(m, s.room.unwrap().1);
    lemma_room_sends_sound(p, to, s.conn, relayed);
    assert forall|j: int|
        0 <= j < p.len() && p[j].1 != s.conn && (to is Some ==> p[j].0 == to.unwrap()) implies room_sends(
            p,
            to,
            s.conn,
            relayed,
        ).contains(ActionView::Send { conn: p[j].1, msg: relayed }) by {
        lemma_room_sends_reach(p, to, s.conn, relayed, j);
    }
}

/// A peer that joins a room with a free place is answered first, with the
/// number of peers the room now holds and the peer ids of those already
/// there, in the order they joined; then each of those, in the same order, is
/// told the newcomer's peer id. The room then holds its earlier peers followed
/// by the newcomer on this connection, and no other room changes.
pub proof fn law_join_reply_lists_the_room(
    s: SessionView,
    online: OnlineView,
    rooms: RoomsView,
    room_code: Seq<char>,
    peer_id: Seq<char>,
    now: u64,
)
    requires
        s.pending is Idle,
        !(s.phase is Closed),
        s.room is None,
        (if rooms.members.dom().contains(room_code) { rooms.members[room_code].len() as int } else { 0 })
            < rooms.max,
    ensures
        ({
            let p = room_peers(rooms, room_code);
            let o = next(s, online, rooms, EventView::Message(ClientMsgView::Join { room_code, peer_id }), now);
            &&& p == if rooms.members.dom().contains(room_code) { rooms.members[room_code] } else { Seq::empty() }
            &&& o.actions.len() == p.len() + 1
            &&& o.actions[0] matches ActionView::Send {
                conn,
                msg: ServerMsgView::Joined { peer_count, existing_peers },
            } && conn == s.conn && peer_count == p.len() + 1 && existing_peers.len() == p.len() && forall|j: int|
                #![trigger existing_peers[j]]
                0 <= j < p.len() ==> existing_peers[j] == p[j].0
            &&& forall|j: int|
                #![trigger p[j]]
                0 <= j < p.len() ==> o.actions[j + 1] == (ActionView::Send {
                    conn: p[j].1,
                    msg: ServerMsgView::PeerJoined { peer_id },
                })
            &&& o.rooms.max == rooms.max
            &&& o.rooms.members.dom().contains(room_code)
            &&& o.rooms.members[room_code] == p.push((peer_id, s.conn))
            &&& forall|c: Seq<char>|
                #![trigger o.rooms.members.dom().contains(c)]
                c != room_code ==> (o.rooms.members.dom().contains(c) == rooms.members.dom().contains(c)
                    && (rooms.members.dom().contains(c) ==> o.rooms.members[c] == rooms.members[c]))
            &&& o.session.room == Some((room_code, peer_id))
            &&& o.online == online
        }),
{
    let p = room_peers(rooms, room_code);
    let msg = ServerMsgView::PeerJoined { peer_id };
    lemma_broadcast_targets(p, msg);
    let o = next(s, online, rooms, EventView::Message(ClientMsgView::Join { room_code, peer_id }), now);
    let first = seq![
        ActionView::Send {
            conn: s.conn,
            msg: ServerMsgView::Joined { peer_count: (p.len() + 1) as u64, existing_peers: peer_ids(p) },
        },
    ];
    assert(o.actions == first + broadcast(p, msg));
    assert(o.actions[0] == first[0]);
    assert forall|j: int| 0 <= j < p.len() implies o.actions[j + 1] == (ActionView::Send {
        conn: #[trigger] p[j].1,
        msg,
    }) by {
        assert(o.actions[j + 1] == broadcast(p, msg)[j]);
    }
}

/// A chat message from a registered user is first stored, with the sender,
/// the recipient, the text, the message id and the time of the step; if the
/// recipient is online it is then delivered there, once, with the sender's
/// id and the username the sender is online under (empty when not online) and
/// the same time; otherwise nothing more happens. The session, the registry
/// and the rooms stay as they are.
pub proof fn law_chat_is_stored_and_relayed_with_the_step_time(
    s: SessionView,
    online: OnlineView,
    rooms: RoomsView,
    to: Seq<char>,
    text: Seq<char>,
    msg_id: Seq<char>,
    now: u64,
)
    requires
        s.phase is Registered,
        s.pending is Idle,
    ensures
        ({
            let me = s.phase->Registered_user_id;
            let from_name = if online.dom().contains(me) { online[me].0 } else { Seq::empty() };
            let o = next(s, online, rooms, EventView::Message(ClientMsgView::ChatMessage { to, text, msg_id }), now);
            &&& o.session == s
            &&& o.online == online
            &&& o.rooms == rooms
            &&& o.actions.len() == if online.dom().contains(to) { 2int } else { 1int }
            &&& o.actions[0] == (ActionView::SaveMessage { msg_id, from_id: me, to_id: to, text, timestamp: now })
            &&& online.dom().contains(to) ==> o.actions[1] == (ActionView::Send {
                conn: online[to].1,
                msg: ServerMsgView::IncomingMessage { from: me, from_name, text, msg_id, timestamp: now },
            })
        }),
{
}

/// `notices` in closed form: `msg` delivered to each of `ids` that is online,
/// in the order of `ids`.
proof fn lemma_notices_in_order(ids: Seq<Seq<char>>, online: OnlineView, msg: ServerMsgView)
    ensures
        notices(ids, online, msg) == ids.filter(|x: Seq<char>| online.dom().contains(x)).map_values(
            |x: Seq<char>| ActionView::Send { conn: online[x].1, msg },
        ),
    decreases ids.len(),
{
    if ids.len() > 0 {
        let q = ids.drop_last();
        lemma_notices_in_order(q, online, msg);
        reveal(Seq::filter);
        let pred = |x: Seq<char>| online.dom().contains(x);
        let fq = q.filter(pred);
        let f = ids.filter(pred);
        assert(ids.drop_last() == q);
        if online.dom().contains(ids.last()) {
            assert(f == fq.push(ids.last()));
        } else {
            assert(f == fq);
        }
        assert(notices(ids, online, msg) =~= f.map_values(
            |x: Seq<char>| ActionView::Send { conn: online[x].1, msg },
        ));
    }
}

} // verus!

