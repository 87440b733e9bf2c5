use disintea_server::history::HistoryRow;
use disintea_server::messages::{ClientMsg, ContactInfo, HistoryMessage, ServerMsg};
use disintea_server::presence::Online;
use disintea_server::rooms::Rooms;
use disintea_server::session::{Action, Event, Session};

fn s(x: &str) -> String {
    x.to_string()
}

/// One step of a session that is in no room.
fn step(session: &mut Session, online: &mut Online, e: Event) -> Vec<Action> {
    let mut rooms = Rooms::new(2);
    session.step(online, &mut rooms, e).expect("the clock reads after the Unix epoch")
}

fn send(conn: u64, msg: ServerMsg) -> Action {
    Action::Send { conn, msg }
}

fn error(conn: u64, reason: &str) -> Action {
    send(conn, ServerMsg::Error { reason: s(reason) })
}

/// A session on connection 1 registered as alice ("Alice"), with nobody else online.
fn registered_alice(online: &mut Online) -> Session {
    let mut session = Session::new(1);
    step(&mut session, online, Event::Message(ClientMsg::Register { user_id: s("alice"), username: s("Alice") }));
    step(&mut session, online, Event::Registration { contacts: vec![], watchers: vec![] });
    session
}

#[test]
fn new_session_is_anonymous() {
    let session = Session::new(7);
    assert_eq!(session.conn(), 7);
    assert_eq!(session.user_id(), None);
    assert!(!session.is_closed());
    assert!(!session.is_waiting());
}

#[test]
fn messages_before_registration_are_refused() {
    let mut online = Online::new();
    let mut session = Session::new(1);
    let msgs = vec![
        ClientMsg::AddContact { contact_id: s("bob") },
        ClientMsg::RemoveContact { contact_id: s("bob") },
        ClientMsg::GetHistory { with_user_id: s("bob"), before: None, limit: None },
        ClientMsg::CallOffer { to: s("bob"), sdp: s("o") },
        ClientMsg::CallAnswer { to: s("bob"), sdp: s("a") },
        ClientMsg::CallReject { to: s("bob") },
        ClientMsg::HangUp { to: s("bob") },
        ClientMsg::IceCandidate { to: Some(s("bob")), candidate: s("c"), sdp_mid: None, sdp_m_line_index: None },
        ClientMsg::ChatMessage { to: s("bob"), text: s("hi"), msg_id: s("m1") },
    ];
    for m in msgs {
        let actions = step(&mut session, &mut online, Event::Message(m));
        assert_eq!(actions, vec![error(1, "not registered")]);
        assert_eq!(session.user_id(), None);
        assert!(!online.contains("bob"));
    }
}

#[test]
fn registration_asks_the_store_then_announces() {
    let mut online = Online::new();
    online.insert(s("bob"), s("Bob"), 2);
    online.insert(s("dave"), s("Dave"), 4);
    let mut session = Session::new(1);
    let actions = step(&mut session,
        &mut online,
        Event::Message(ClientMsg::Register { user_id: s("alice"), username: s("Alice") }),
    );
    assert_eq!(
        actions,
        vec![
            Action::SaveUser { user_id: s("alice"), username: s("Alice") },
            Action::LoadRegistration { user_id: s("alice") },
        ]
    );
    assert!(session.is_waiting());
    assert!(!online.contains("alice"));

    let actions = step(&mut session,
        &mut online,
        Event::Registration {
            contacts: vec![(s("bob"), s("Bob")), (s("carol"), s("Carol"))],
            watchers: vec![s("dave"), s("erin")],
        },
    );
    let hello = ServerMsg::UserOnline { user_id: s("alice"), username: s("Alice") };
    assert_eq!(
        actions,
        vec![
            send(2, hello.clone()),
            send(4, hello),
            send(1, ServerMsg::Registered),
            send(
                1,
                ServerMsg::ContactList {
                    contacts: vec![
                        ContactInfo { user_id: s("bob"), username: s("Bob"), online: true },
                        ContactInfo { user_id: s("carol"), username: s("Carol"), online: false },
                    ],
                }
            ),
        ]
    );
    assert_eq!(online.get("alice"), Some((s("Alice"), 1)));
    assert_eq!(session.user_id(), Some(s("alice")));
    assert!(!session.is_waiting());
}

#[test]
fn a_user_who_is_both_contact_and_watcher_hears_twice() {
    let mut online = Online::new();
    online.insert(s("bob"), s("Bob"), 2);
    let mut session = Session::new(1);
    step(&mut session, &mut online, Event::Message(ClientMsg::Register { user_id: s("alice"), username: s("A") }));
    let actions = step(&mut session,
        &mut online,
        Event::Registration { contacts: vec![(s("bob"), s("Bob"))], watchers: vec![s("bob")] },
    );
    let hello = ServerMsg::UserOnline { user_id: s("alice"), username: s("A") };
    assert_eq!(actions[0], send(2, hello.clone()));
    assert_eq!(actions[1], send(2, hello));
    assert_eq!(actions.len(), 4);
}

#[test]
fn registering_twice_is_refused() {
    let mut online = Online::new();
    let mut session = registered_alice(&mut online);
    let actions = step(&mut session,
        &mut online,
        Event::Message(ClientMsg::Register { user_id: s("mallory"), username: s("M") }),
    );
    assert_eq!(actions, vec![error(1, "already registered")]);
    assert_eq!(session.user_id(), Some(s("alice")));
    assert!(!online.contains("mallory"));
}

#[test]
fn adding_yourself_is_refused() {
    let mut online = Online::new();
    let mut session = registered_alice(&mut online);
    let actions = step(&mut session, &mut online, Event::Message(ClientMsg::AddContact { contact_id: s("alice") }));
    assert_eq!(actions, vec![error(1, "cannot add yourself")]);
    assert!(!session.is_waiting());
}

#[test]
fn adding_a_stored_contact_who_is_online() {
    let mut online = Online::new();
    let mut session = registered_alice(&mut online);
    online.insert(s("bob"), s("Bobby"), 2);
    let actions = step(&mut session, &mut online, Event::Message(ClientMsg::AddContact { contact_id: s("bob") }));
    assert_eq!(actions, vec![Action::LookupUser { user_id: s("bob") }]);
    assert!(session.is_waiting());
    let actions = step(&mut session, &mut online, Event::ContactLookup(Some(s("Bob"))));
    assert_eq!(
        actions,
        vec![
            Action::SaveContact { owner_id: s("alice"), contact_id: s("bob") },
            send(1, ServerMsg::ContactAdded { user_id: s("bob"), username: s("Bob"), online: true }),
            send(2, ServerMsg::AddedByUser { user_id: s("alice"), username: s("Alice"), online: true }),
        ]
    );
    assert!(!session.is_waiting());
}

#[test]
fn adding_a_contact_known_only_online() {
    let mut online = Online::new();
    let mut session = registered_alice(&mut online);
    online.insert(s("bob"), s("Bobby"), 2);
    step(&mut session, &mut online, Event::Message(ClientMsg::AddContact { contact_id: s("bob") }));
    let actions = step(&mut session, &mut online, Event::ContactLookup(None));
    assert_eq!(
        actions,
        vec![
            Action::SaveContact { owner_id: s("alice"), contact_id: s("bob") },
            send(1, ServerMsg::ContactAdded { user_id: s("bob"), username: s("Bobby"), online: true }),
            send(2, ServerMsg::AddedByUser { user_id: s("alice"), username: s("Alice"), online: true }),
        ]
    );
}

#[test]
fn adding_an_offline_stored_contact() {
    let mut online = Online::new();
    let mut session = registered_alice(&mut online);
    step(&mut session, &mut online, Event::Message(ClientMsg::AddContact { contact_id: s("bob") }));
    let actions = step(&mut session, &mut online, Event::ContactLookup(Some(s("Bob"))));
    assert_eq!(
        actions,
        vec![
            Action::SaveContact { owner_id: s("alice"), contact_id: s("bob") },
            send(1, ServerMsg::ContactAdded { user_id: s("bob"), username: s("Bob"), online: false }),
        ]
    );
}

#[test]
fn adding_an_unknown_user_is_refused() {
    let mut online = Online::new();
    let mut session = registered_alice(&mut online);
    step(&mut session, &mut online, Event::Message(ClientMsg::AddContact { contact_id: s("ghost") }));
    let actions = step(&mut session, &mut online, Event::ContactLookup(None));
    assert_eq!(actions, vec![error(1, "user not found \u{2014} they need to connect at least once")]);
    assert!(!session.is_waiting());
}

#[test]
fn removing_a_contact() {
    let mut online = Online::new();
    let mut session = registered_alice(&mut online);
    let actions = step(&mut session, &mut online, Event::Message(ClientMsg::RemoveContact { contact_id: s("bob") }));
    assert_eq!(actions, vec![Action::DeleteContact { owner_id: s("alice"), contact_id: s("bob") }]);
}

#[test]
fn history_defaults_and_order() {
    let mut online = Online::new();
    let mut session = registered_alice(&mut online);
    let actions = step(&mut session,
        &mut online,
        Event::Message(ClientMsg::GetHistory { with_user_id: s("bob"), before: None, limit: None }),
    );
    assert_eq!(
        actions,
        vec![Action::LoadHistory { user_id: s("alice"), with_user_id: s("bob"), before: None, limit: 50 }]
    );
    let rows = vec![
        HistoryRow { msg_id: s("m2"), from_id: s("bob"), text: s("later"), timestamp: 20 },
        HistoryRow { msg_id: s("m1"), from_id: s("alice"), text: s("first"), timestamp: 10 },
    ];
    let actions = step(&mut session, &mut online, Event::History(rows));
    assert_eq!(
        actions,
        vec![send(
            1,
            ServerMsg::MessageHistory {
                with_user_id: s("bob"),
                messages: vec![
                    HistoryMessage { msg_id: s("m1"), from_id: s("alice"), text: s("first"), timestamp: 10 },
                    HistoryMessage { msg_id: s("m2"), from_id: s("bob"), text: s("later"), timestamp: 20 },
                ],
            }
        )]
    );
}

#[test]
fn history_bounds_are_passed_on_and_capped() {
    let mut online = Online::new();
    let mut session = registered_alice(&mut online);
    let actions = step(&mut session,
        &mut online,
        Event::Message(ClientMsg::GetHistory { with_user_id: s("bob"), before: Some(1000), limit: Some(500) }),
    );
    assert_eq!(
        actions,
        vec![Action::LoadHistory { user_id: s("alice"), with_user_id: s("bob"), before: Some(1000), limit: 200 }]
    );
}

#[test]
fn chat_is_stored_and_relayed_with_one_timestamp() {
    let mut online = Online::new();
    let mut session = registered_alice(&mut online);
    online.insert(s("bob"), s("Bob"), 2);
    let actions = session.step_at(
        &mut online,
        &mut Rooms::new(2),
        Event::Message(ClientMsg::ChatMessage { to: s("bob"), text: s("hi"), msg_id: s("m1") }),
        1_700_000_000_123,
    );
    assert_eq!(
        actions,
        vec![
            Action::SaveMessage {
                msg_id: s("m1"),
                from_id: s("alice"),
                to_id: s("bob"),
                text: s("hi"),
                timestamp: 1_700_000_000_123,
            },
            send(
                2,
                ServerMsg::IncomingMessage {
                    from: s("alice"),
                    from_name: s("Alice"),
                    text: s("hi"),
                    msg_id: s("m1"),
                    timestamp: 1_700_000_000_123,
                }
            ),
        ]
    );
}

#[test]
fn chat_to_an_offline_user_is_only_stored() {
    let mut online = Online::new();
    let mut session = registered_alice(&mut online);
    let actions = step(&mut session,
        &mut online,
        Event::Message(ClientMsg::ChatMessage { to: s("bob"), text: s("hi"), msg_id: s("m1") }),
    );
    assert_eq!(actions.len(), 1);
    match &actions[0] {
        Action::SaveMessage { msg_id, from_id, to_id, text, timestamp } => {
            assert_eq!((msg_id.as_str(), from_id.as_str(), to_id.as_str(), text.as_str()), ("m1", "alice", "bob", "hi"));
            assert!(*timestamp > 1_600_000_000_000);
        }
        other => panic!("unexpected action {:?}", other),
    }
}

#[test]
fn call_offer_to_online_and_offline_users() {
    let mut online = Online::new();
    let mut session = registered_alice(&mut online);
    online.insert(s("bob"), s("Bob"), 2);
    let actions = step(&mut session, &mut online, Event::Message(ClientMsg::CallOffer { to: s("bob"), sdp: s("v=0") }));
    assert_eq!(
        actions,
        vec![send(2, ServerMsg::IncomingCall { from: s("alice"), from_name: s("Alice"), sdp: s("v=0") })]
    );
    let actions = step(&mut session, &mut online, Event::Message(ClientMsg::CallOffer { to: s("carol"), sdp: s("v=0") }));
    assert_eq!(actions, vec![send(1, ServerMsg::CallRejected { from: s("carol") })]);
}

#[test]
fn signalling_is_relayed_to_online_users_only() {
    let mut online = Online::new();
    let mut session = registered_alice(&mut online);
    online.insert(s("bob"), s("Bob"), 2);
    let cases = vec![
        (
            ClientMsg::CallAnswer { to: s("bob"), sdp: s("ans") },
            ServerMsg::CallAnswered { from: s("alice"), sdp: s("ans") },
        ),
        (ClientMsg::CallReject { to: s("bob") }, ServerMsg::CallRejected { from: s("alice") }),
        (ClientMsg::HangUp { to: s("bob") }, ServerMsg::HangUp { from: s("alice") }),
        (
            ClientMsg::IceCandidate {
                to: Some(s("bob")),
                candidate: s("cand"),
                sdp_mid: Some(s("0")),
                sdp_m_line_index: Some(0),
            },
            ServerMsg::IceCandidate {
                from: s("alice"),
                candidate: s("cand"),
                sdp_mid: Some(s("0")),
                sdp_m_line_index: Some(0),
            },
        ),
    ];
    for (m, expected) in cases {
        let actions = step(&mut session, &mut online, Event::Message(m));
        assert_eq!(actions, vec![send(2, expected)]);
    }
    let offline = vec![
        ClientMsg::CallAnswer { to: s("carol"), sdp: s("ans") },
        ClientMsg::CallReject { to: s("carol") },
        ClientMsg::HangUp { to: s("carol") },
        ClientMsg::IceCandidate { to: Some(s("carol")), candidate: s("c"), sdp_mid: None, sdp_m_line_index: None },
    ];
    for m in offline {
        assert_eq!(step(&mut session, &mut online, Event::Message(m)), vec![]);
    }
}

#[test]
fn messages_carry_an_empty_name_once_the_entry_is_gone() {
    let mut online = Online::new();
    let mut session = registered_alice(&mut online);
    online.insert(s("bob"), s("Bob"), 2);
    online.remove("alice");
    let actions = step(&mut session, &mut online, Event::Message(ClientMsg::CallOffer { to: s("bob"), sdp: s("x") }));
    assert_eq!(
        actions,
        vec![send(2, ServerMsg::IncomingCall { from: s("alice"), from_name: s(""), sdp: s("x") })]
    );
}

#[test]
fn malformed_text_is_answered_with_the_reason() {
    let mut online = Online::new();
    let mut session = Session::new(3);
    let actions = step(&mut session, &mut online, Event::Malformed(s("missing field `type`")));
    assert_eq!(actions, vec![error(3, "bad message: missing field `type`")]);
}

#[test]
fn closing_takes_the_user_offline_and_tells_watchers() {
    let mut online = Online::new();
    let mut session = registered_alice(&mut online);
    online.insert(s("bob"), s("Bob"), 2);
    let actions = step(&mut session, &mut online, Event::Closed);
    assert_eq!(
        actions,
        vec![Action::TouchLastSeen { user_id: s("alice") }, Action::LoadWatchers { user_id: s("alice") }]
    );
    assert!(!online.contains("alice"));
    assert!(session.is_closed());
    let actions = step(&mut session, &mut online, Event::Watchers(vec![s("bob"), s("carol")]));
    assert_eq!(actions, vec![send(2, ServerMsg::UserOffline { user_id: s("alice") })]);
    assert!(!session.is_waiting());
}

#[test]
fn closing_an_anonymous_session_does_nothing_else() {
    let mut online = Online::new();
    let mut session = Session::new(1);
    assert_eq!(step(&mut session, &mut online, Event::Closed), vec![]);
    assert!(session.is_closed());
}

#[test]
fn closed_sessions_ignore_clients() {
    let mut online = Online::new();
    let mut session = registered_alice(&mut online);
    step(&mut session, &mut online, Event::Closed);
    step(&mut session, &mut online, Event::Watchers(vec![]));
    assert_eq!(step(&mut session, &mut online, Event::Message(ClientMsg::HangUp { to: s("bob") })), vec![]);
    assert_eq!(step(&mut session, &mut online, Event::Malformed(s("x"))), vec![]);
    assert_eq!(step(&mut session, &mut online, Event::Closed), vec![]);
}

#[test]
fn unexpected_answers_change_nothing() {
    let mut online = Online::new();
    let mut session = Session::new(1);
    assert_eq!(step(&mut session, &mut online, Event::ContactLookup(Some(s("x")))), vec![]);
    assert_eq!(step(&mut session, &mut online, Event::Watchers(vec![s("x")])), vec![]);
    step(&mut session, &mut online, Event::Message(ClientMsg::Register { user_id: s("alice"), username: s("A") }));
    assert_eq!(step(&mut session, &mut online, Event::Message(ClientMsg::HangUp { to: s("b") })), vec![]);
    assert!(session.is_waiting());
    assert_eq!(session.user_id(), None);
}

#[test]
fn register_then_close_restores_the_registry() {
    let mut online = Online::new();
    online.insert(s("bob"), s("Bob"), 2);
    let mut session = registered_alice(&mut online);
    assert_eq!(online.get("alice"), Some((s("Alice"), 1)));
    step(&mut session, &mut online, Event::Closed);
    assert!(!online.contains("alice"));
    assert_eq!(online.get("bob"), Some((s("Bob"), 2)));
}

#[test]
fn deliveries_reach_only_self_or_online_users() {
    let mut online = Online::new();
    online.insert(s("bob"), s("Bob"), 2);
    let mut session = Session::new(1);
    step(&mut session, &mut online, Event::Message(ClientMsg::Register { user_id: s("alice"), username: s("A") }));
    let actions = step(&mut session,
        &mut online,
        Event::Registration {
            contacts: vec![(s("bob"), s("Bob")), (s("zed"), s("Zed"))],
            watchers: vec![s("yan")],
        },
    );
    for a in actions {
        if let Action::Send { conn, .. } = a {
            assert!(conn == 1 || conn == 2);
        }
    }
}

#[test]
fn contacts_registering_together_learn_of_each_other_a_first() {
    let mut online = Online::new();
    let mut a = Session::new(1);
    let mut b = Session::new(2);
    step(&mut a, &mut online, Event::Message(ClientMsg::Register { user_id: s("a"), username: s("A") }));
    step(&mut b, &mut online, Event::Message(ClientMsg::Register { user_id: s("b"), username: s("B") }));
    step(&mut a, &mut online, Event::Registration { contacts: vec![(s("b"), s("B"))], watchers: vec![] });
    let actions = step(&mut b, &mut online, Event::Registration { contacts: vec![], watchers: vec![s("a")] });
    assert!(actions.contains(&send(1, ServerMsg::UserOnline { user_id: s("b"), username: s("B") })));
}

#[test]
fn contacts_registering_together_learn_of_each_other_b_first() {
    let mut online = Online::new();
    let mut a = Session::new(1);
    let mut b = Session::new(2);
    step(&mut a, &mut online, Event::Message(ClientMsg::Register { user_id: s("a"), username: s("A") }));
    step(&mut b, &mut online, Event::Message(ClientMsg::Register { user_id: s("b"), username: s("B") }));
    step(&mut b, &mut online, Event::Registration { contacts: vec![], watchers: vec![s("a")] });
    let actions = step(&mut a, &mut online, Event::Registration { contacts: vec![(s("b"), s("B"))], watchers: vec![] });
    assert_eq!(
        actions.last(),
        Some(&send(
            1,
            ServerMsg::ContactList {
                contacts: vec![ContactInfo { user_id: s("b"), username: s("B"), online: true }],
            }
        ))
    );
}

#[test]
fn add_then_remove_a_contact() {
    let mut online = Online::new();
    let mut session = registered_alice(&mut online);
    online.insert(s("bob"), s("Bob"), 2);
    assert_eq!(
        step(&mut session, &mut online, Event::Message(ClientMsg::AddContact { contact_id: s("bob") })),
        vec![Action::LookupUser { user_id: s("bob") }]
    );
    assert_eq!(step(&mut session, &mut online, Event::ContactLookup(Some(s("Bob")))).len(), 3);
    assert_eq!(
        step(&mut session, &mut online, Event::Message(ClientMsg::RemoveContact { contact_id: s("bob") })),
        vec![Action::DeleteContact { owner_id: s("alice"), contact_id: s("bob") }]
    );
    assert!(!session.is_waiting());
    assert_eq!(online.get("alice"), Some((s("Alice"), 1)));
}

#[test]
fn malformed_text_while_registered_changes_nothing() {
    let mut online = Online::new();
    let mut session = registered_alice(&mut online);
    let actions = step(&mut session, &mut online, Event::Malformed(s("expected value at line 1 column 1")));
    assert_eq!(actions, vec![error(1, "bad message: expected value at line 1 column 1")]);
    assert_eq!(session.user_id(), Some(s("alice")));
    assert_eq!(online.get("alice"), Some((s("Alice"), 1)));
}
