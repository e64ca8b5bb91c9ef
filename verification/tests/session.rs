use nwws_oi::{
    classify_handshake_fault, classify_session_fault, handle_unit, is_self_presence, join_request,
    leave_request, nickname, Channel, Config, Error, HandshakeFault, IqKind, OiPayload, RawIq,
    RawMessage, RawUnit, Server, SessionFault, UnitAction, JOIN_HISTORY_SECONDS,
    SELF_PRESENCE_STATUS,
};

fn test_config() -> Config {
    Config {
        username: "user".to_string(),
        password: "pass".to_string(),
        resource: "res".to_string(),
        server: Server::Primary,
        channel: Channel::Default,
    }
}

#[test]
fn classify_faults() {
    assert!(matches!(
        classify_handshake_fault(HandshakeFault::MalformedIdentity("bad jid".to_string())),
        Error::Configuration(d) if d == "bad jid"
    ));
    assert!(matches!(
        classify_handshake_fault(HandshakeFault::AuthRefused("denied".to_string())),
        Error::Credentials(d) if d == "denied"
    ));
    assert!(matches!(
        classify_handshake_fault(HandshakeFault::Other("reset".to_string())),
        Error::Network(d) if d == "reset"
    ));
}

#[test]
fn classify_session_faults() {
    assert!(matches!(
        classify_session_fault(SessionFault::Closed),
        Error::StreamEnded
    ));
    assert!(matches!(
        classify_session_fault(SessionFault::Transport("reset".to_string())),
        Error::Network(d) if d == "reset"
    ));
    assert!(matches!(
        classify_session_fault(SessionFault::Malformed("garbled".to_string())),
        Error::XmppParseError(d) if d == "garbled"
    ));
}

#[test]
fn nickname_joins_username_and_resource() {
    assert_eq!(nickname(&test_config()), "user/res");
}

#[test]
fn join_and_leave_requests() {
    let join = join_request("user@nwws-oi.weather.gov/res", &Channel::Default, "user/res");
    assert!(!join.unavailable);
    assert_eq!(join.from, "user@nwws-oi.weather.gov/res");
    assert_eq!(join.to, "NWWS@conference.nwws-oi.weather.gov/user/res");
    assert_eq!(join.history_seconds, Some(JOIN_HISTORY_SECONDS));
    assert_eq!(join.history_seconds, Some(300));

    let leave = leave_request(&join);
    assert!(leave.unavailable);
    assert_eq!(leave.from, join.from);
    assert_eq!(leave.to, join.to);
    assert_eq!(leave.history_seconds, None);
}

#[test]
fn self_presence_detection() {
    assert_eq!(SELF_PRESENCE_STATUS, 110);
    assert!(is_self_presence(&vec![110]));
    assert!(is_self_presence(&vec![100, 110, 210]));
    assert!(!is_self_presence(&vec![]));
    assert!(!is_self_presence(&vec![100, 201]));
}

fn bulletin_unit() -> RawUnit {
    RawUnit::Message(RawMessage {
        groupchat: true,
        delay_stamp: None,
        payload: Some(OiPayload {
            text: "\n593\nNTXX98 PHEB 040123\nbody\n".to_string(),
            awipsid: Some("RRMLMK".to_string()),
            cccc: Some("PHEB".to_string()),
            id: Some("14425.22800".to_string()),
            issue: Some("2022-02-04T01:23:00Z".to_string()),
            ttaaii: Some("NTXX98".to_string()),
        }),
    })
}

#[test]
fn scripted_units_in_sequence() {
    // A subject-only broadcast: no vendor payload, so it is skipped.
    let subject_only = RawUnit::Message(RawMessage {
        groupchat: true,
        delay_stamp: None,
        payload: None,
    });
    assert_eq!(handle_unit(subject_only), UnitAction::Ignore);

    // A well-formed bulletin unit: decoded and delivered.
    match handle_unit(bulletin_unit()) {
        UnitAction::Deliver(b) => {
            assert_eq!(b.ttaaii, "NTXX98");
            assert_eq!(b.cccc, "PHEB");
            assert_eq!(b.ldm_sequence_number, Some(593));
            assert_eq!(b.message, "NTXX98 PHEB 040123\nbody\n");
        }
        other => panic!("expected a delivery, got {:?}", other),
    }

    // An unsupported get-request: answered, not surfaced.
    let get = RawUnit::Iq(RawIq {
        from: Some("asker@example.org/x".to_string()),
        to: Some("user@nwws-oi.weather.gov/res".to_string()),
        id: "probe-1".to_string(),
        kind: IqKind::GetRequest,
    });
    match handle_unit(get) {
        UnitAction::Reply(rep) => {
            assert_eq!(rep.from, Some("user@nwws-oi.weather.gov/res".to_string()));
            assert_eq!(rep.to, Some("asker@example.org/x".to_string()));
            assert_eq!(rep.id, "probe-1");
        }
        other => panic!("expected a reply, got {:?}", other),
    }
}

#[test]
fn set_requests_are_answered_and_replies_ignored() {
    let set = RawUnit::Iq(RawIq {
        from: Some("a@b/c".to_string()),
        to: None,
        id: "7".to_string(),
        kind: IqKind::SetRequest,
    });
    assert!(matches!(handle_unit(set), UnitAction::Reply(_)));

    let result = RawUnit::Iq(RawIq {
        from: Some("a@b/c".to_string()),
        to: None,
        id: "8".to_string(),
        kind: IqKind::ResultReply,
    });
    assert_eq!(handle_unit(result), UnitAction::Ignore);

    let error = RawUnit::Iq(RawIq {
        from: None,
        to: None,
        id: "9".to_string(),
        kind: IqKind::ErrorReply,
    });
    assert_eq!(handle_unit(error), UnitAction::Ignore);
}

#[test]
fn presence_and_unknown_units_are_ignored() {
    assert_eq!(handle_unit(RawUnit::Presence), UnitAction::Ignore);
    assert_eq!(handle_unit(RawUnit::Other), UnitAction::Ignore);
}

#[test]
fn undecodable_broadcast_is_skipped_not_surfaced() {
    let broken = RawUnit::Message(RawMessage {
        groupchat: true,
        delay_stamp: None,
        payload: Some(OiPayload {
            text: "body".to_string(),
            awipsid: Some("X".to_string()),
            cccc: None,
            id: Some("1.2".to_string()),
            issue: Some("2022-02-04T01:23:00Z".to_string()),
            ttaaii: Some("NTXX98".to_string()),
        }),
    });
    assert_eq!(handle_unit(broken), UnitAction::Ignore);
}
