use gytags_roster::collector::{CollectorError, decode_frame};

#[test]
fn reads_hello_payload() {
    let p = decode_frame(r#"{"op":10,"s":null,"t":null,"d":{"heartbeat_interval":41250}}"#)
        .expect("valid JSON");
    assert_eq!(p.op, Some(10));
    assert_eq!(p.sequence, None);
    assert_eq!(p.event_name, None);
    assert_eq!(p.heartbeat_interval, Some(41250));
    assert!(p.ready.guilds.is_none());
    let data = p.member_list.data.expect("d is present");
    assert!(data.guild_id.is_none());
    assert!(data.ops.is_none());
}

#[test]
fn reads_ready_guilds_and_channels() {
    let p = decode_frame(
        r#"{"op":0,"s":1,"t":"READY","d":{"guilds":[{"id":"g1","member_count":250,
            "channels":[{"type":0,"id":"c1"},{"type":2,"id":"v1"},{"id":"c3"}]}]}}"#,
    )
    .expect("valid JSON");
    assert_eq!(p.op, Some(0));
    assert_eq!(p.sequence, Some(1));
    assert_eq!(p.event_name.as_deref(), Some("READY"));
    let guilds = p.ready.guilds.expect("guilds array");
    assert_eq!(guilds.len(), 1);
    assert_eq!(guilds[0].id.as_deref(), Some("g1"));
    assert_eq!(guilds[0].member_count, Some(250));
    let channels = guilds[0].channels.as_ref().expect("channels array");
    assert_eq!(channels.len(), 3);
    assert_eq!(channels[0].kind, Some(0));
    assert_eq!(channels[0].id.as_deref(), Some("c1"));
    assert_eq!(channels[1].kind, Some(2));
    assert_eq!(channels[2].kind, None);
}

#[test]
fn reads_member_list_update() {
    let p = decode_frame(
        r#"{"op":0,"s":5,"t":"GUILD_MEMBER_LIST_UPDATE","d":{"guild_id":"g1","member_count":3,
            "ops":[{"op":"SYNC","range":[0,99],"items":[{"group":{"id":"online"}},
            {"member":{"user":{"id":"42"},"nick":"Royalty72","roles":["r1",7]}}]}]}}"#,
    )
    .expect("valid JSON");
    let data = p.member_list.data.expect("d");
    assert_eq!(data.guild_id.as_deref(), Some("g1"));
    assert_eq!(data.member_count, Some(3));
    let ops = data.ops.expect("ops");
    assert_eq!(ops.len(), 1);
    assert_eq!(ops[0].op.as_deref(), Some("SYNC"));
    assert_eq!(ops[0].range, Some(vec![Some(0), Some(99)]));
    let items = ops[0].items.as_ref().expect("items");
    assert!(items[0].has_group);
    assert!(items[0].member.is_none());
    assert!(!items[1].has_group);
    let member = items[1].member.as_ref().expect("member");
    assert_eq!(member.user.as_ref().and_then(|u| u.id.as_deref()), Some("42"));
    assert_eq!(member.nick.as_deref(), Some("Royalty72"));
    assert_eq!(member.roles, Some(vec![Some("r1".to_owned()), None]));
}

#[test]
fn numbers_that_are_not_unsigned_integers_read_as_absent() {
    let p = decode_frame(r#"{"op":-1,"s":2.5,"t":3}"#).expect("valid JSON");
    assert_eq!(p.op, None);
    assert_eq!(p.sequence, None);
    assert_eq!(p.event_name, None);
    assert!(p.member_list.data.is_none());
}

#[test]
fn rejects_text_that_is_not_json() {
    match decode_frame("{\"op\":") {
        Err(CollectorError::GatewayProtocol(message)) => {
            assert!(message.starts_with("invalid gateway JSON: "), "{message}")
        }
        other => panic!("unexpected {other:?}"),
    }
}
