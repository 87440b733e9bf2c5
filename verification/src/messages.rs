//! The wire messages of the signalling protocol, and their mathematical views.
//!
//! Every message is a JSON object with a `type` field; the JSON form is
//! produced and read outside the library, which works on these values.
use vstd::prelude::*;

verus! {

/// A message sent by a client to the server.
#[derive(Debug, Clone, PartialEq, Eq)]
pub enum ClientMsg {
    /// First message: identify yourself.
    Register { user_id: String, username: String },
    /// Add someone to your contacts (the server stores it).
    AddContact { contact_id: String },
    /// Remove a contact.
    RemoveContact { contact_id: String },
    /// Fetch the message history with a contact.
    GetHistory { with_user_id: String, before: Option<u64>, limit: Option<u32> },
    /// Initiate a call.
    CallOffer { to: String, sdp: String },
    /// Accept a call.
    CallAnswer { to: String, sdp: String },
    /// Decline a call.
    CallReject { to: String },
    /// End a call.
    HangUp { to: String },
    /// A WebRTC ICE candidate: for the peer `to` of the room the sender is in,
    /// or for every other peer of that room when `to` is absent; outside a
    /// room, for the online user `to`.
    IceCandidate {
        to: Option<String>,
        candidate: String,
        sdp_mid: Option<String>,
        sdp_m_line_index: Option<u32>,
    },
    /// Send a chat message.
    ChatMessage { to: String, text: String, msg_id: String },
    /// Join (or create) the room `room_code` as `peer_id`.
    Join { room_code: String, peer_id: String },
    /// Relay a WebRTC SDP offer to the peer `to` of the room, or to every
    /// other peer of the room when `to` is absent.
    Offer { sdp: String, to: Option<String> },
    /// Relay a WebRTC SDP answer, as an offer is relayed.
    Answer { sdp: String, to: Option<String> },
    /// Leave the room.
    Leave,
}

/// A message sent by the server to a client.
#[derive(Debug, Clone, PartialEq, Eq)]
pub enum ServerMsg {
    /// Registration acknowledged.
    Registered,
    /// Full contact list on login.
    ContactList { contacts: Vec<ContactInfo> },
    /// A contact came online.
    UserOnline { user_id: String, username: String },
    /// A contact went offline.
    UserOffline { user_id: String },
    /// A contact was added (with its current online state).
    ContactAdded { user_id: String, username: String, online: bool },
    /// Someone added you as a contact.
    AddedByUser { user_id: String, username: String, online: bool },
    /// Message history response.
    MessageHistory { with_user_id: String, messages: Vec<HistoryMessage> },
    /// Incoming call.
    IncomingCall { from: String, from_name: String, sdp: String },
    /// The call was accepted.
    CallAnswered { from: String, sdp: String },
    /// The call was rejected.
    CallRejected { from: String },
    /// Hang up.
    HangUp { from: String },
    /// A relayed ICE candidate.
    IceCandidate {
        from: String,
        candidate: String,
        sdp_mid: Option<String>,
        sdp_m_line_index: Option<u32>,
    },
    /// Incoming chat message.
    IncomingMessage {
        from: String,
        from_name: String,
        text: String,
        msg_id: String,
        timestamp: u64,
    },
    /// Server error.
    Error { reason: String },
    /// Confirmation of a join: the peers in the room now, and the ids of those
    /// who were there before.
    Joined { peer_count: u64, existing_peers: Vec<String> },
    /// A new peer entered the room.
    PeerJoined { peer_id: String },
    /// A peer left the room.
    PeerLeft { peer_id: String },
    /// A relayed SDP offer.
    Offer { sdp: String, from: String },
    /// A relayed SDP answer.
    Answer { sdp: String, from: String },
    /// The room is at capacity.
    RoomFull { max: u64 },
}

/// One entry of a contact list.
#[derive(Debug, Clone, PartialEq, Eq)]
pub struct ContactInfo {
    pub user_id: String,
    pub username: String,
    pub online: bool,
}

/// One stored chat message, as returned in a history.
#[derive(Debug, Clone, PartialEq, Eq)]
pub struct HistoryMessage {
    pub msg_id: String,
    pub from_id: String,
    pub text: String,
    pub timestamp: u64,
}

/// Mathematical form of a [`ContactInfo`].
pub struct ContactInfoView {
    pub user_id: Seq<char>,
    pub username: Seq<char>,
    pub online: bool,
}

/// Mathematical form of a [`HistoryMessage`].
pub struct HistoryMessageView {
    pub msg_id: Seq<char>,
    pub from_id: Seq<char>,
    pub text: Seq<char>,
    pub timestamp: u64,
}

/// Mathematical form of a [`ClientMsg`].
pub enum ClientMsgView {
    Register { user_id: Seq<char>, username: Seq<char> },
    AddContact { contact_id: Seq<char> },
    RemoveContact { contact_id: Seq<char> },
    GetHistory { with_user_id: Seq<char>, before: Option<u64>, limit: Option<u32> },
    CallOffer { to: Seq<char>, sdp: Seq<char> },
    CallAnswer { to: Seq<char>, sdp: Seq<char> },
    CallReject { to: Seq<char> },
    HangUp { to: Seq<char> },
    IceCandidate {
        to: Option<Seq<char>>,
        candidate: Seq<char>,
        sdp_mid: Option<Seq<char>>,
        sdp_m_line_index: Option<u32>,
    },
    ChatMessage { to: Seq<char>, text: Seq<char>, msg_id: Seq<char> },
    Join { room_code: Seq<char>, peer_id: Seq<char> },
    Offer { sdp: Seq<char>, to: Option<Seq<char>> },
    Answer { sdp: Seq<char>, to: Option<Seq<char>> },
    Leave,
}

/// Mathematical form of a [`ServerMsg`].
pub enum ServerMsgView {
    Registered,
    ContactList { contacts: Seq<ContactInfoView> },
    UserOnline { user_id: Seq<char>, username: Seq<char> },
    UserOffline { user_id: Seq<char> },
    ContactAdded { user_id: Seq<char>, username: Seq<char>, online: bool },
    AddedByUser { user_id: Seq<char>, username: Seq<char>, online: bool },
    MessageHistory { with_user_id: Seq<char>, messages: Seq<HistoryMessageView> },
    IncomingCall { from: Seq<char>, from_name: Seq<char>, sdp: Seq<char> },
    CallAnswered { from: Seq<char>, sdp: Seq<char> },
    CallRejected { from: Seq<char> },
    HangUp { from: Seq<char> },
    IceCandidate {
        from: Seq<char>,
        candidate: Seq<char>,
        sdp_mid: Option<Seq<char>>,
        sdp_m_line_index: Option<u32>,
    },
    IncomingMessage {
        from: Seq<char>,
        from_name: Seq<char>,
        text: Seq<char>,
        msg_id: Seq<char>,
        timestamp: u64,
    },
    Error { reason: Seq<char> },
    Joined { peer_count: u64, existing_peers: Seq<Seq<char>> },
    PeerJoined { peer_id: Seq<char> },
    PeerLeft { peer_id: Seq<char> },
    Offer { sdp: Seq<char>, from: Seq<char> },
    Answer { sdp: Seq<char>, from: Seq<char> },
    RoomFull { max: u64 },
}

/// The view of an optional string.
pub open spec fn opt_str_view(s: Option<String>) -> Option<Seq<char>> {
    match s {
        Some(v) => Some(v@),
        None => None,
    }
}

impl View for ContactInfo {
    type V = ContactInfoView;

    open spec fn view(&self) -> ContactInfoView {
        ContactInfoView { user_id: self.user_id@, username: self.username@, online: self.online }
    }
}

impl View for HistoryMessage {
    type V = HistoryMessageView;

    open spec fn view(&self) -> HistoryMessageView {
        HistoryMessageView {
            msg_id: self.msg_id@,
            from_id: self.from_id@,
            text: self.text@,
            timestamp: self.timestamp,
        }
    }
}

/// The views of a sequence of strings, in order.
pub open spec fn strings_view(v: Seq<String>) -> Seq<Seq<char>> {
    v.map_values(|s: String| s@)
}

/// The views of the entries of a contact list, in order.
pub open spec fn contacts_view(v: Seq<ContactInfo>) -> Seq<ContactInfoView> {
    v.map_values(|c: ContactInfo| c@)
}

/// The views of the entries of a history, in order.
pub open spec fn history_view(v: Seq<HistoryMessage>) -> Seq<HistoryMessageView> {
    v.map_values(|m: HistoryMessage| m@)
}

impl View for ClientMsg {
    type V = ClientMsgView;

    open spec fn view(&self) -> ClientMsgView {
        match self {
            ClientMsg::Register { user_id, username } => ClientMsgView::Register {
                user_id: user_id@,
                username: username@,
            },
            ClientMsg::AddContact { contact_id } => ClientMsgView::AddContact {
                contact_id: contact_id@,
            },
            ClientMsg::RemoveContact { contact_id } => ClientMsgView::RemoveContact {
                contact_id: contact_id@,
            },
            ClientMsg::GetHistory { with_user_id, before, limit } => ClientMsgView::GetHistory {
                with_user_id: with_user_id@,
                before: *before,
                limit: *limit,
            },
            ClientMsg::CallOffer { to, sdp } => ClientMsgView::CallOffer { to: to@, sdp: sdp@ },
            ClientMsg::CallAnswer { to, sdp } => ClientMsgView::CallAnswer { to: to@, sdp: sdp@ },
            ClientMsg::CallReject { to } => ClientMsgView::CallReject { to: to@ },
            ClientMsg::HangUp { to } => ClientMsgView::HangUp { to: to@ },
            ClientMsg::IceCandidate { to, candidate, sdp_mid, sdp_m_line_index } =>
                ClientMsgView::IceCandidate {
                to: opt_str_view(*to),
                candidate: candidate@,
                sdp_mid: opt_str_view(*sdp_mid),
                sdp_m_line_index: *sdp_m_line_index,
            },
            ClientMsg::ChatMessage { to, text, msg_id } => ClientMsgView::ChatMessage {
                to: to@,
                text: text@,
                msg_id: msg_id@,
            },
            ClientMsg::Join { room_code, peer_id } => ClientMsgView::Join {
                room_code: room_code@,
                peer_id: peer_id@,
            },
            ClientMsg::Offer { sdp, to } => ClientMsgView::Offer { sdp: sdp@, to: opt_str_view(*to) },
            ClientMsg::Answer { sdp, to } => ClientMsgView::Answer { sdp: sdp@, to: opt_str_view(*to) },
            ClientMsg::Leave => ClientMsgView::Leave,
        }
    }
}

impl View for ServerMsg {
    type V = ServerMsgView;

    open spec fn view(&self) -> ServerMsgView {
        match self {
            ServerMsg::Registered => ServerMsgView::Registered,
            ServerMsg::ContactList { contacts } => ServerMsgView::ContactList {
                contacts: contacts_view(contacts@),
            },
            ServerMsg::UserOnline { user_id, username } => ServerMsgView::UserOnline {
                user_id: user_id@,
                username: username@,
            },
            ServerMsg::UserOffline { user_id } => ServerMsgView::UserOffline { user_id: user_id@ },
            ServerMsg::ContactAdded { user_id, username, online } => ServerMsgView::ContactAdded {
                user_id: user_id@,
                username: username@,
                online: *online,
            },
            ServerMsg::AddedByUser { user_id, username, online } => ServerMsgView::AddedByUser {
                user_id: user_id@,
                username: username@,
                online: *online,
            },
            ServerMsg::MessageHistory { with_user_id, messages } => ServerMsgView::MessageHistory {
                with_user_id: with_user_id@,
                messages: history_view(messages@),
            },
            ServerMsg::IncomingCall { from, from_name, sdp } => ServerMsgView::IncomingCall {
                from: from@,
                from_name: from_name@,
                sdp: sdp@,
            },
            ServerMsg::CallAnswered { from, sdp } => ServerMsgView::CallAnswered {
                from: from@,
                sdp: sdp@,
            },
            ServerMsg::CallRejected { from } => ServerMsgView::CallRejected { from: from@ },
            ServerMsg::HangUp { from } => ServerMsgView::HangUp { from: from@ },
            ServerMsg::IceCandidate { from, candidate, sdp_mid, sdp_m_line_index } =>
                ServerMsgView::IceCandidate {
                from: from@,
                candidate: candidate@,
                sdp_mid: opt_str_view(*sdp_mid),
                sdp_m_line_index: *sdp_m_line_index,
            },
            ServerMsg::IncomingMessage { from, from_name, text, msg_id, timestamp } =>
                ServerMsgView::IncomingMessage {
                from: from@,
                from_name: from_name@,
                text: text@,
                msg_id: msg_id@,
                timestamp: *timestamp,
            },
            ServerMsg::Error { reason } => ServerMsgView::Error { reason: reason@ },
            ServerMsg::Joined { peer_count, existing_peers } => ServerMsgView::Joined {
                peer_count: *peer_count,
                existing_peers: strings_view(existing_peers@),
            },
            ServerMsg::PeerJoined { peer_id } => ServerMsgView::PeerJoined { peer_id: peer_id@ },
            ServerMsg::PeerLeft { peer_id } => ServerMsgView::PeerLeft { peer_id: peer_id@ },
            ServerMsg::Offer { sdp, from } => ServerMsgView::Offer { sdp: sdp@, from: from@ },
            ServerMsg::Answer { sdp, from } => ServerMsgView::Answer { sdp: sdp@, from: from@ },
            ServerMsg::RoomFull { max } => ServerMsgView::RoomFull { max: *max },
        }
    }
}

} // verus!
