use gytags_roster::domain::MemberRecord;
use gytags_roster::protocol::{ClientMessage, ServerMessage};
use gytags_roster::storage::SystemStatus;
use gytags_roster::websocket::{
    BusEvent, BusReaction, ClientReply, HelloDecision, SessionError, answer_client, hello_ack,
    open_session, react_to_bus, snapshot_message, update_message,
};

fn record(nickname: &str) -> MemberRecord {
    MemberRecord {
        discord_id: "1".into(),
        nickname_raw: nickname.into(),
        nickname_key: nickname.to_lowercase(),
        role_ids: Vec::new(),
        badges: vec!["head".into()],
        observed_at: 0,
    }
}

#[test]
fn accepts_hello_and_normalizes_nicknames() {
    match open_session(ClientMessage::Hello {
        protocol_version: 1,
        token: None,
        nicknames: vec![" Player ".into(), "player".into()],
    }) {
        HelloDecision::Accept(keys) => assert_eq!(keys, vec!["player"]),
        other => panic!("unexpected {other:?}"),
    }
}

#[test]
fn rejects_other_protocol_versions_and_non_hello_starts() {
    match open_session(ClientMessage::Hello {
        protocol_version: 2,
        token: None,
        nicknames: Vec::new(),
    }) {
        HelloDecision::Reject(ServerMessage::Error { code, message }) => {
            assert_eq!(code, "unsupported_protocol");
            assert_eq!(message, "supported protocol version is 1");
        }
        other => panic!("unexpected {other:?}"),
    }
    assert!(matches!(
        open_session(ClientMessage::Ping),
        HelloDecision::Abort(SessionError::NotHello)
    ));
}

#[test]
fn answers_later_messages() {
    let mut keys = vec!["player".to_owned()];
    assert!(matches!(
        answer_client(&mut keys, Ok(ClientMessage::Ping)),
        Ok(ClientReply::Send(ServerMessage::Pong))
    ));
    match answer_client(
        &mut keys,
        Ok(ClientMessage::Hello {
            protocol_version: 1,
            token: None,
            nicknames: Vec::new(),
        }),
    ) {
        Ok(ClientReply::Send(ServerMessage::Error { code, .. })) => {
            assert_eq!(code, "hello_already_received")
        }
        other => panic!("unexpected {other:?}"),
    }
    match answer_client(&mut keys, Err("bad json".into())) {
        Ok(ClientReply::Send(ServerMessage::Error { code, message })) => {
            assert_eq!(code, "invalid_message");
            assert_eq!(message, "bad json");
        }
        other => panic!("unexpected {other:?}"),
    }
    assert!(matches!(
        answer_client(
            &mut keys,
            Ok(ClientMessage::Subscribe {
                nicknames: vec!["Other".into()]
            })
        ),
        Ok(ClientReply::Snapshot)
    ));
    assert_eq!(keys, vec!["other"]);
    assert!(answer_client(
        &mut keys,
        Ok(ClientMessage::Subscribe {
            nicknames: vec![" ".into()]
        })
    )
    .is_err());
    assert_eq!(keys, vec!["other"]);
}

#[test]
fn builds_acks_snapshots_and_updates() {
    let status = SystemStatus {
        revision: 12,
        last_source_sync_at: Some(96),
    };
    match hello_ack(&status, 300, 100) {
        ServerMessage::HelloAck {
            protocol_version,
            revision,
            source_status,
            source_age_seconds,
        } => {
            assert_eq!(protocol_version, 1);
            assert_eq!(revision, 12);
            assert_eq!(source_status, "fresh");
            assert_eq!(source_age_seconds, Some(4));
        }
        other => panic!("unexpected {other:?}"),
    }
    match snapshot_message(&status, 300, 100, &["player".into()], vec![record("Player")]) {
        ServerMessage::Snapshot {
            revision, members, ..
        } => {
            assert_eq!(revision, 12);
            assert_eq!(members.len(), 1);
            assert_eq!(members[0].badges, vec!["head"]);
        }
        other => panic!("unexpected {other:?}"),
    }
    match update_message(13, &[], vec![record("Player")]) {
        ServerMessage::Update { revision, members } => {
            assert_eq!(revision, 13);
            assert_eq!(members.len(), 1);
        }
        other => panic!("unexpected {other:?}"),
    }
    assert!(matches!(
        react_to_bus(BusEvent::Changed(5)),
        BusReaction::Update(5)
    ));
    assert!(matches!(react_to_bus(BusEvent::Lagged), BusReaction::Snapshot));
    assert!(matches!(react_to_bus(BusEvent::Closed), BusReaction::Stop));
}
