//! The messages of the websocket protocol (version 1) and of the ingest API.
use crate::domain::RawMember;
use vstd::prelude::*;

verus! {

/// The websocket protocol version this server speaks.
pub const PROTOCOL_VERSION: u16 = 1;

/// A message from a websocket client.
#[derive(Debug)]
pub enum ClientMessage {
    Hello { protocol_version: u16, token: Option<String>, nicknames: Vec<String> },
    Subscribe { nicknames: Vec<String> },
    Ping,
}

/// A request to the ingest API.
#[derive(Debug)]
pub enum IngestRequest {
    Snapshot { members: Vec<RawMember> },
}

/// The ingest API's answer.
#[derive(Debug)]
pub struct IngestResponse {
    pub status: String,
    pub revision: i64,
}

/// A message to a websocket client.
#[derive(Debug)]
pub enum ServerMessage {
    HelloAck {
        protocol_version: u16,
        revision: i64,
        source_status: String,
        source_age_seconds: Option<i64>,
    },
    Snapshot {
        revision: i64,
        source_status: String,
        source_age_seconds: Option<i64>,
        members: Vec<PublicMember>,
    },
    Update { revision: i64, members: Vec<PublicMember> },
    Pong,
    Error { code: String, message: String },
}

/// What a client learns of one nickname.
#[derive(Debug, Clone)]
pub struct PublicMember {
    pub nickname: String,
    pub status: PublicMemberStatus,
    pub badges: Vec<String>,
}

/// Whether a nickname names exactly one member with badges.
#[derive(Debug, Clone, Copy, PartialEq, Eq, Structural)]
pub enum PublicMemberStatus {
    Found,
    Ambiguous,
    NotFound,
}

/// The view of a [`PublicMember`].
pub struct PublicMemberView {
    pub nickname: Seq<char>,
    pub status: PublicMemberStatus,
    pub badges: Seq<Seq<char>>,
}

impl View for PublicMember {
    type V = PublicMemberView;

    open spec fn view(&self) -> PublicMemberView {
        PublicMemberView {
            nickname: self.nickname@,
            status: self.status,
            badges: self.badges.deep_view(),
        }
    }
}

/// The views of a sequence of public members.
pub open spec fn members_view(members: Seq<PublicMember>) -> Seq<PublicMemberView> {
    members.map_values(|m: PublicMember| m@)
}

/// The view of a [`ServerMessage`].
pub enum ServerMessageView {
    HelloAck {
        protocol_version: u16,
        revision: i64,
        source_status: Seq<char>,
        source_age_seconds: Option<i64>,
    },
    Snapshot {
        revision: i64,
        source_status: Seq<char>,
        source_age_seconds: Option<i64>,
        members: Seq<PublicMemberView>,
    },
    Update { revision: i64, members: Seq<PublicMemberView> },
    Pong,
    Error { code: Seq<char>, message: Seq<char> },
}

impl View for ServerMessage {
    type V = ServerMessageView;

    open spec fn view(&self) -> ServerMessageView {
        match self {
            ServerMessage::HelloAck { protocol_version, revision, source_status, source_age_seconds } =>
                ServerMessageView::HelloAck {
                protocol_version: *protocol_version,
                revision: *revision,
                source_status: source_status@,
                source_age_seconds: *source_age_seconds,
            },
            ServerMessage::Snapshot { revision, source_status, source_age_seconds, members } =>
                ServerMessageView::Snapshot {
                revision: *revision,
                source_status: source_status@,
                source_age_seconds: *source_age_seconds,
                members: members_view(members@),
            },
            ServerMessage::Update { revision, members } => ServerMessageView::Update {
                revision: *revision,
                members: members_view(members@),
            },
            ServerMessage::Pong => ServerMessageView::Pong,
            ServerMessage::Error { code, message } => ServerMessageView::Error {
                code: code@,
                message: message@,
            },
        }
    }
}

} // verus!
