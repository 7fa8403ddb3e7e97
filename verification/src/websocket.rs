//! The decisions of a websocket session (protocol version 1): how the hello
//! is answered, how each later client message is answered, and what a change
//! of the stored snapshot sends.
use crate::api::transform::{self, public_members};
use crate::domain::errors::DomainError;
use crate::domain::models::{self, MemberRecord};
use crate::domain::nicknames::{self, normalize_nicknames, MAX_NICKNAMES};
use crate::protocol::{self, ClientMessage, ServerMessage, ServerMessageView, PROTOCOL_VERSION};
use crate::storage::clock::{self, age_seconds};
use crate::storage::status::{self, SystemStatus};
use vstd::prelude::*;

verus! {

/// The `hello_ack` for the stored status at time `now`.
pub fn hello_ack(status: &SystemStatus, ttl_seconds: u64, now: i64) -> (m: ServerMessage)
    ensures
        m@ == (ServerMessageView::HelloAck {
            protocol_version: PROTOCOL_VERSION,
            revision: status.revision,
            source_status: status::source_status_of(status.last_source_sync_at, ttl_seconds, now),
            source_age_seconds: clock::age_of(status.last_source_sync_at, now),
        }),
{
    ServerMessage::HelloAck {
        protocol_version: PROTOCOL_VERSION,
        revision: status.revision,
        source_status: status.effective_source_status(ttl_seconds, now),
        source_age_seconds: age_seconds(status.last_source_sync_at, now),
    }
}

/// The `snapshot` for the subscribed `keys`, given the stored status and the
/// stored records under those keys (all records when `keys` is empty).
pub fn snapshot_message(
    status: &SystemStatus,
    ttl_seconds: u64,
    now: i64,
    keys: &[String],
    records: Vec<MemberRecord>,
) -> (m: ServerMessage)
    ensures
        m@ is Snapshot,
        m@->Snapshot_revision == status.revision,
        m@->Snapshot_source_status == status::source_status_of(status.last_source_sync_at, ttl_seconds, now),
        m@->Snapshot_source_age_seconds == clock::age_of(status.last_source_sync_at, now),
        transform::presents(keys.deep_view(), models::records_view(records@), m@->Snapshot_members),
{
    let source_status = status.effective_source_status(ttl_seconds, now);
    let source_age_seconds = age_seconds(status.last_source_sync_at, now);
    let members = public_members(keys, records);
    ServerMessage::Snapshot { revision: status.revision, source_status, source_age_seconds, members }
}

/// The `update` sent when the stored snapshot reaches `revision`.
pub fn update_message(revision: i64, keys: &[String], records: Vec<MemberRecord>) -> (m: ServerMessage)
    ensures
        m@ is Update,
        m@->Update_revision == revision,
        transform::presents(keys.deep_view(), models::records_view(records@), m@->Update_members),
{
    let members = public_members(keys, records);
    ServerMessage::Update { revision, members }
}

/// Why a session ends without an answer.
#[derive(Debug)]
pub enum SessionError {
    /// The first message was not a hello.
    NotHello,
    /// The requested nicknames were refused.
    Nicknames(DomainError),
}

/// How the first client message is answered.
#[derive(Debug)]
pub enum HelloDecision {
    /// Accepted: the session subscribes to these keys.
    Accept(Vec<String>),
    /// Refused with this message, after which the session ends.
    Reject(ServerMessage),
    /// The session ends.
    Abort(SessionError),
}

/// The error a client gets for an unsupported protocol version.
pub open spec fn unsupported_protocol() -> ServerMessageView {
    ServerMessageView::Error {
        code: "unsupported_protocol"@,
        message: "supported protocol version is 1"@,
    }
}

/// Answers the first client message. It must be a hello of protocol
/// version 1; its nicknames, normalized, become the subscription.
pub fn open_session(first: ClientMessage) -> (d: HelloDecision)
    ensures
        !(first is Hello) ==> (d matches HelloDecision::Abort(e) && e is NotHello),
        first is Hello && first->protocol_version != PROTOCOL_VERSION ==> (d matches HelloDecision::Reject(m)
            && m@ == unsupported_protocol()),
        first is Hello && first->protocol_version == PROTOCOL_VERSION ==> ({
            let names = first->Hello_nicknames;
            &&& names@.len() > MAX_NICKNAMES ==> (d matches HelloDecision::Abort(SessionError::Nicknames(e)) && e is TooManyNicknames)
            &&& names@.len() <= MAX_NICKNAMES && !nicknames::all_keyed(names.deep_view()) ==> (d matches HelloDecision::Abort(
                SessionError::Nicknames(e),
            ) && e is EmptyNickname)
            &&& names@.len() <= MAX_NICKNAMES && nicknames::all_keyed(names.deep_view()) ==> (d matches HelloDecision::Accept(keys)
                && keys.deep_view() == nicknames::distinct_keys(names.deep_view()))
        }),
{
    match first {
        ClientMessage::Hello { protocol_version, token: _, nicknames } => {
            if protocol_version != PROTOCOL_VERSION {
                return HelloDecision::Reject(
                    ServerMessage::Error {
                        code: "unsupported_protocol".to_owned(),
                        message: "supported protocol version is 1".to_owned(),
                    },
                );
            }
            match normalize_nicknames(nicknames) {
                Ok(keys) => HelloDecision::Accept(keys),
                Err(e) => HelloDecision::Abort(SessionError::Nicknames(e)),
            }
        },
        _ => HelloDecision::Abort(SessionError::NotHello),
    }
}

/// How a later client message is answered.
#[derive(Debug)]
pub enum ClientReply {
    /// Send a snapshot for the (new) subscription.
    Snapshot,
    /// Send this message.
    Send(ServerMessage),
}

/// Answers a client message after the hello (`Err` holds why a text message
/// could not be read). A subscribe replaces the subscription with its
/// normalized nicknames and is answered with a snapshot (refused nicknames
/// end the session, the subscription unchanged); a ping is answered with a
/// pong; another hello, or an unreadable message, with an error.
pub fn answer_client(keys: &mut Vec<String>, message: Result<ClientMessage, String>) -> (r: Result<ClientReply, DomainError>)
    ensures
        message matches Ok(ClientMessage::Ping) ==> (r matches Ok(ClientReply::Send(m)) && m@ is Pong
            && final(keys)@ == old(keys)@),
        message matches Ok(ClientMessage::Hello { .. }) ==> (r matches Ok(ClientReply::Send(m)) && m@ == (ServerMessageView::Error {
            code: "hello_already_received"@,
            message: "hello may only be sent once"@,
        }) && final(keys)@ == old(keys)@),
        message is Err ==> (r matches Ok(ClientReply::Send(m)) && m@ == (ServerMessageView::Error {
            code: "invalid_message"@,
            message: message->Err_0@,
        }) && final(keys)@ == old(keys)@),
        message matches Ok(ClientMessage::Subscribe { nicknames: names }) ==> ({
            &&& names@.len() > MAX_NICKNAMES ==> (r matches Err(e) && e is TooManyNicknames && final(keys)@ == old(keys)@)
            &&& names@.len() <= MAX_NICKNAMES && !nicknames::all_keyed(names.deep_view()) ==> (r matches Err(e)
                && e is EmptyNickname && final(keys)@ == old(keys)@)
            &&& names@.len() <= MAX_NICKNAMES && nicknames::all_keyed(names.deep_view()) ==> (r matches Ok(ClientReply::Snapshot)
                && final(keys).deep_view() == nicknames::distinct_keys(names.deep_view()))
        }),
{
    match message {
        Ok(ClientMessage::Subscribe { nicknames }) => match normalize_nicknames(nicknames) {
            Ok(new_keys) => {
                *keys = new_keys;
                Ok(ClientReply::Snapshot)
            },
            Err(e) => Err(e),
        },
        Ok(ClientMessage::Ping) => Ok(ClientReply::Send(ServerMessage::Pong)),
        Ok(ClientMessage::Hello { .. }) => Ok(
            ClientReply::Send(
                ServerMessage::Error {
                    code: "hello_already_received".to_owned(),
                    message: "hello may only be sent once".to_owned(),
                },
            ),
        ),
        Err(error) => Ok(
            ClientReply::Send(ServerMessage::Error { code: "invalid_message".to_owned(), message: error }),
        ),
    }
}

/// What the change bus delivered.
#[derive(Debug)]
pub enum BusEvent {
    /// The stored snapshot reached this revision.
    Changed(i64),
    /// Some changes were missed.
    Lagged,
    /// The bus is gone.
    Closed,
}

/// How the session reacts to the change bus.
#[derive(Debug)]
pub enum BusReaction {
    /// Send an update for this revision.
    Update(i64),
    /// Send a fresh snapshot.
    Snapshot,
    /// End the session.
    Stop,
}

/// A change is answered with an update, missed changes with a snapshot, and
/// a closed bus ends the session.
pub fn react_to_bus(event: BusEvent) -> (r: BusReaction)
    ensures
        event matches BusEvent::Changed(rev) ==> (r matches BusReaction::Update(v) && v == rev),
        event is Lagged ==> r is Snapshot,
        event is Closed ==> r is Stop,
{
    match event {
        BusEvent::Changed(revision) => BusReaction::Update(revision),
        BusEvent::Lagged => BusReaction::Snapshot,
        BusEvent::Closed => BusReaction::Stop,
    }
}

} // verus!
