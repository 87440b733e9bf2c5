use disintea_server::messages::{ClientMsg, ServerMsg};
use disintea_server::presence::Online;
use disintea_server::rooms::{new_room_map, Rooms, DEFAULT_MAX_PEERS_PER_ROOM};
use disintea_server::session::{Action, Event, Session};

fn s(x: &str) -> String {
    x.to_string()
}

fn send(conn: u64, msg: ServerMsg) -> Action {
    Action::Send { conn, msg }
}

fn step(session: &mut Session, online: &mut Online, rooms: &mut Rooms, e: Event) -> Vec<Action> {
    session.step(online, rooms, e).expect("the clock reads after the Unix epoch")
}

fn join(session: &mut Session, online: &mut Online, rooms: &mut Rooms, code: &str, peer: &str) -> Vec<Action> {
    step(session, online, rooms, Event::Message(ClientMsg::Join { room_code: s(code), peer_id: s(peer) }))
}

#[test]
fn a_new_room_map_is_empty_with_the_default_limit() {
    let rooms = new_room_map();
    assert_eq!(DEFAULT_MAX_PEERS_PER_ROOM, 2);
    assert_eq!(rooms.max(), 2);
    assert_eq!(rooms.peers("r"), vec![]);
}

#[test]
fn joining_creates_and_fills_a_room() {
    let mut online = Online::new();
    let mut rooms = Rooms::new(2);
    let mut a = Session::new(1);
    let mut b = Session::new(2);
    assert_eq!(
        join(&mut a, &mut online, &mut rooms, "r1", "pa"),
        vec![send(1, ServerMsg::Joined { peer_count: 1, existing_peers: vec![] })]
    );
    assert_eq!(rooms.peers("r1"), vec![(s("pa"), 1)]);
    assert_eq!(
        join(&mut b, &mut online, &mut rooms, "r1", "pb"),
        vec![
            send(2, ServerMsg::Joined { peer_count: 2, existing_peers: vec![s("pa")] }),
            send(1, ServerMsg::PeerJoined { peer_id: s("pb") }),
        ]
    );
    assert_eq!(rooms.peers("r1"), vec![(s("pa"), 1), (s("pb"), 2)]);
}

#[test]
fn a_full_room_refuses() {
    let mut online = Online::new();
    let mut rooms = Rooms::new(2);
    let mut a = Session::new(1);
    let mut b = Session::new(2);
    let mut c = Session::new(3);
    join(&mut a, &mut online, &mut rooms, "r1", "pa");
    join(&mut b, &mut online, &mut rooms, "r1", "pb");
    assert_eq!(join(&mut c, &mut online, &mut rooms, "r1", "pc"), vec![send(3, ServerMsg::RoomFull { max: 2 })]);
    assert_eq!(rooms.peers("r1"), vec![(s("pa"), 1), (s("pb"), 2)]);
    // c is in no room: an offer is refused
    assert_eq!(
        step(&mut c, &mut online, &mut rooms, Event::Message(ClientMsg::Offer { sdp: s("x"), to: None })),
        vec![send(3, ServerMsg::Error { reason: s("not in a room") })]
    );
}

#[test]
fn a_room_of_zero_refuses_everyone() {
    let mut online = Online::new();
    let mut rooms = Rooms::new(0);
    let mut a = Session::new(1);
    assert_eq!(join(&mut a, &mut online, &mut rooms, "r", "p"), vec![send(1, ServerMsg::RoomFull { max: 0 })]);
}

#[test]
fn joining_twice_is_refused() {
    let mut online = Online::new();
    let mut rooms = Rooms::new(3);
    let mut a = Session::new(1);
    join(&mut a, &mut online, &mut rooms, "r1", "pa");
    assert_eq!(
        join(&mut a, &mut online, &mut rooms, "r2", "pa"),
        vec![send(1, ServerMsg::Error { reason: s("already in a room") })]
    );
    assert_eq!(rooms.peers("r2"), vec![]);
}

#[test]
fn signals_go_to_the_other_peer() {
    let mut online = Online::new();
    let mut rooms = Rooms::new(2);
    let mut a = Session::new(1);
    let mut b = Session::new(2);
    join(&mut a, &mut online, &mut rooms, "r1", "pa");
    join(&mut b, &mut online, &mut rooms, "r1", "pb");
    assert_eq!(
        step(&mut a, &mut online, &mut rooms, Event::Message(ClientMsg::Offer { sdp: s("v=0 o"), to: None })),
        vec![send(2, ServerMsg::Offer { sdp: s("v=0 o"), from: s("pa") })]
    );
    assert_eq!(
        step(&mut b, &mut online, &mut rooms, Event::Message(ClientMsg::Answer { sdp: s("v=0 a"), to: Some(s("pa")) })),
        vec![send(1, ServerMsg::Answer { sdp: s("v=0 a"), from: s("pb") })]
    );
    assert_eq!(
        step(
            &mut a,
            &mut online,
            &mut rooms,
            Event::Message(ClientMsg::IceCandidate {
                to: None,
                candidate: s("cand"),
                sdp_mid: Some(s("0")),
                sdp_m_line_index: Some(0),
            })
        ),
        vec![send(
            2,
            ServerMsg::IceCandidate {
                from: s("pa"),
                candidate: s("cand"),
                sdp_mid: Some(s("0")),
                sdp_m_line_index: Some(0),
            }
        )]
    );
    // a named peer that is not in the room gets nothing, nor does the sender
    assert_eq!(
        step(&mut a, &mut online, &mut rooms, Event::Message(ClientMsg::Offer { sdp: s("x"), to: Some(s("zz")) })),
        vec![]
    );
    assert_eq!(
        step(&mut a, &mut online, &mut rooms, Event::Message(ClientMsg::Offer { sdp: s("x"), to: Some(s("pa")) })),
        vec![]
    );
}

#[test]
fn signals_without_a_peer_reach_every_other_peer() {
    let mut online = Online::new();
    let mut rooms = Rooms::new(3);
    let mut a = Session::new(1);
    let mut b = Session::new(2);
    let mut c = Session::new(3);
    join(&mut a, &mut online, &mut rooms, "r", "pa");
    join(&mut b, &mut online, &mut rooms, "r", "pb");
    join(&mut c, &mut online, &mut rooms, "r", "pc");
    assert_eq!(
        step(&mut b, &mut online, &mut rooms, Event::Message(ClientMsg::Offer { sdp: s("o"), to: None })),
        vec![
            send(1, ServerMsg::Offer { sdp: s("o"), from: s("pb") }),
            send(3, ServerMsg::Offer { sdp: s("o"), from: s("pb") }),
        ]
    );
}

#[test]
fn leaving_tells_the_rest_and_empties_the_room() {
    let mut online = Online::new();
    let mut rooms = Rooms::new(2);
    let mut a = Session::new(1);
    let mut b = Session::new(2);
    join(&mut a, &mut online, &mut rooms, "r1", "pa");
    join(&mut b, &mut online, &mut rooms, "r1", "pb");
    assert_eq!(
        step(&mut a, &mut online, &mut rooms, Event::Message(ClientMsg::Leave)),
        vec![send(2, ServerMsg::PeerLeft { peer_id: s("pa") })]
    );
    assert_eq!(rooms.peers("r1"), vec![(s("pb"), 2)]);
    assert_eq!(step(&mut a, &mut online, &mut rooms, Event::Message(ClientMsg::Leave)), vec![]);
    assert_eq!(step(&mut b, &mut online, &mut rooms, Event::Message(ClientMsg::Leave)), vec![]);
    assert_eq!(rooms.peers("r1"), vec![]);
    // the room can be joined again
    assert_eq!(
        join(&mut a, &mut online, &mut rooms, "r1", "pa"),
        vec![send(1, ServerMsg::Joined { peer_count: 1, existing_peers: vec![] })]
    );
}

#[test]
fn closing_leaves_the_room() {
    let mut online = Online::new();
    let mut rooms = Rooms::new(2);
    let mut a = Session::new(1);
    let mut b = Session::new(2);
    join(&mut a, &mut online, &mut rooms, "r1", "pa");
    join(&mut b, &mut online, &mut rooms, "r1", "pb");
    assert_eq!(
        step(&mut b, &mut online, &mut rooms, Event::Closed),
        vec![send(1, ServerMsg::PeerLeft { peer_id: s("pb") })]
    );
    assert!(b.is_closed());
    assert_eq!(rooms.peers("r1"), vec![(s("pa"), 1)]);
}

#[test]
fn rooms_work_alongside_registration() {
    let mut online = Online::new();
    let mut rooms = Rooms::new(2);
    let mut a = Session::new(1);
    step(&mut a, &mut online, &mut rooms, Event::Message(ClientMsg::Register { user_id: s("alice"), username: s("A") }));
    step(&mut a, &mut online, &mut rooms, Event::Registration { contacts: vec![], watchers: vec![] });
    join(&mut a, &mut online, &mut rooms, "r", "pa");
    let actions = step(&mut a, &mut online, &mut rooms, Event::Closed);
    assert_eq!(
        actions,
        vec![Action::TouchLastSeen { user_id: s("alice") }, Action::LoadWatchers { user_id: s("alice") }]
    );
    assert_eq!(rooms.peers("r"), vec![]);
    assert!(!online.contains("alice"));
}

#[test]
fn ice_candidates_outside_rooms_need_a_peer() {
    let mut online = Online::new();
    let mut rooms = Rooms::new(2);
    let mut a = Session::new(1);
    assert_eq!(
        step(
            &mut a,
            &mut online,
            &mut rooms,
            Event::Message(ClientMsg::IceCandidate { to: None, candidate: s("c"), sdp_mid: None, sdp_m_line_index: None })
        ),
        vec![send(1, ServerMsg::Error { reason: s("not in a room") })]
    );
    assert_eq!(
        step(
            &mut a,
            &mut online,
            &mut rooms,
            Event::Message(ClientMsg::IceCandidate {
                to: Some(s("bob")),
                candidate: s("c"),
                sdp_mid: None,
                sdp_m_line_index: None,
            })
        ),
        vec![send(1, ServerMsg::Error { reason: s("not registered") })]
    );
}
