use bevygap::deployment::{
    deploy_request, deploy_subject, describe_failure, interpret_outcome, maybe_message_error,
    read_reply_fields, record_failure, session_from_fields, session_from_payload, DeployOutcome,
    MalformedReply, ReplyFields, RequestFailure, ServiceFault, ServiceReply, DEPLOY_TIMEOUT_SECS,
};
use bevygap::lobby::{DeploymentError, LobbyError};

fn header(value: Option<&str>) -> Option<String> {
    value.map(|text| text.to_string())
}

fn headers(code: Option<&str>, description: Option<&str>) -> Result<Option<(usize, String)>, MalformedReply> {
    maybe_message_error(&header(code), &header(description))
}

fn reply(code: Option<&str>, description: Option<&str>, payload: &[u8]) -> ServiceReply {
    ServiceReply::from_message(&header(code), &header(description), payload.to_vec()).unwrap()
}

fn service_error(code: usize) -> LobbyError {
    LobbyError::Deployment(DeploymentError::ServiceError { code, message: "m".to_string() })
}

#[test]
fn request_names_client_room_and_game() {
    assert_eq!(
        deploy_request("81.128.1.1", "ROOM001"),
        "{\"client_ip\":\"81.128.1.1\", \"room_id\":\"ROOM001\", \"game\":\"lobby-room\"}"
    );
    assert_eq!(
        deploy_request("", ""),
        "{\"client_ip\":\"\", \"room_id\":\"\", \"game\":\"lobby-room\"}"
    );
    let parsed: serde_json::Value =
        serde_json::from_str(&deploy_request("10.0.0.1", "ROOM042")).unwrap();
    assert_eq!(parsed.get("room_id").and_then(|v| v.as_str()), Some("ROOM042"));
    assert_eq!(parsed.get("game").and_then(|v| v.as_str()), Some("lobby-room"));
    assert_eq!(deploy_subject(), "session.gensession");
    assert_eq!(DEPLOY_TIMEOUT_SECS, 60);
}

#[test]
fn reply_fields_are_read_from_json() {
    let fields = read_reply_fields(
        "{\"session_id\":\"abc\",\"gameserver_ip\":\"1.2.3.4\",\"gameserver_port\":30123,\"connect_token\":\"t0k\",\"more\":[1]}",
    );
    assert_eq!(
        fields,
        ReplyFields {
            session_id: Some("abc".to_string()),
            gameserver_ip: Some("1.2.3.4".to_string()),
            gameserver_port: Some(30123),
            connect_token: Some("t0k".to_string()),
        }
    );
}

#[test]
fn reply_fields_of_the_wrong_kind_are_missing() {
    let fields = read_reply_fields(
        "{\"session_id\":7,\"gameserver_ip\":null,\"gameserver_port\":\"30123\",\"connect_token\":\"\"}",
    );
    assert_eq!(
        fields,
        ReplyFields {
            session_id: None,
            gameserver_ip: None,
            gameserver_port: None,
            connect_token: Some(String::new()),
        }
    );
    let negative = read_reply_fields("{\"gameserver_port\":-1}");
    assert_eq!(negative.gameserver_port, None);
    let fraction = read_reply_fields("{\"gameserver_port\":1.5}");
    assert_eq!(fraction.gameserver_port, None);
}

#[test]
fn reply_that_is_no_object_has_no_fields() {
    let nothing = ReplyFields {
        session_id: None,
        gameserver_ip: None,
        gameserver_port: None,
        connect_token: None,
    };
    assert_eq!(read_reply_fields("not json"), nothing);
    assert_eq!(read_reply_fields(""), nothing);
    assert_eq!(read_reply_fields("[\"session_id\"]"), nothing);
    assert_eq!(read_reply_fields("\"session_id\""), nothing);
    assert_eq!(read_reply_fields("{\"session_id\":\"abc\"} trailing"), nothing);
}

#[test]
fn complete_reply_is_ready() {
    let info = session_from_fields(ReplyFields {
        session_id: Some("abc".to_string()),
        gameserver_ip: Some("1.2.3.4".to_string()),
        gameserver_port: Some(30123),
        connect_token: Some("t0k".to_string()),
    });
    assert_eq!(info.session_id.as_deref(), Some("abc"));
    assert_eq!(info.game_server_ip.as_deref(), Some("1.2.3.4"));
    assert_eq!(info.game_server_port, Some(30123));
    assert_eq!(info.connect_token.as_deref(), Some("t0k"));
    assert_eq!(info.deployment_status, "Ready");
}

#[test]
fn missing_detail_leaves_the_details_pending() {
    let info = session_from_fields(ReplyFields {
        session_id: Some("abc".to_string()),
        gameserver_ip: Some("1.2.3.4".to_string()),
        gameserver_port: None,
        connect_token: Some("t0k".to_string()),
    });
    assert_eq!(info.session_id.as_deref(), Some("abc"));
    assert_eq!(info.game_server_port, None);
    assert_eq!(info.deployment_status, "Ready (details pending)");
    let info = session_from_payload(&b"garbage".to_vec());
    assert_eq!(info.session_id, None);
    assert_eq!(info.game_server_ip, None);
    assert_eq!(info.game_server_port, None);
    assert_eq!(info.connect_token, None);
    assert_eq!(info.deployment_status, "Ready (details pending)");
}

#[test]
fn port_keeps_its_low_sixteen_bits() {
    let port = |number: u64| {
        session_from_fields(ReplyFields {
            session_id: None,
            gameserver_ip: None,
            gameserver_port: Some(number),
            connect_token: None,
        })
        .game_server_port
    };
    assert_eq!(port(0), Some(0));
    assert_eq!(port(65535), Some(65535));
    assert_eq!(port(65536), Some(0));
    assert_eq!(port(65536 + 7777), Some(7777));
    assert_eq!(port(u64::MAX), Some(65535));
}

#[test]
fn payload_is_decoded_leniently() {
    let mut payload = b"{\"session_id\":\"a".to_vec();
    payload.push(0xff);
    payload.extend_from_slice(b"b\",\"connect_token\":\"t\"}");
    let info = session_from_payload(&payload);
    assert_eq!(info.session_id.as_deref(), Some("a\u{fffd}b"));
    assert_eq!(info.connect_token.as_deref(), Some("t"));
    assert_eq!(info.deployment_status, "Ready (details pending)");
}

#[test]
fn service_error_is_read_from_the_headers() {
    assert_eq!(headers(Some("503"), Some("no servers")), Ok(Some((503, "no servers".to_string()))));
    assert_eq!(headers(None, Some("ignored")), Ok(None));
    assert_eq!(headers(None, None), Ok(None));
    assert_eq!(headers(Some("+0042"), Some("")), Ok(Some((42, String::new()))));
    assert_eq!(
        reply(Some("503"), Some("no servers"), b"x"),
        ServiceReply {
            fault: Some(ServiceFault { code: 503, description: "no servers".to_string() }),
            payload: b"x".to_vec(),
        }
    );
    assert_eq!(
        reply(None, Some("ignored"), b"{}"),
        ServiceReply { fault: None, payload: b"{}".to_vec() }
    );
}

#[test]
fn malformed_service_errors_are_told_apart() {
    assert_eq!(headers(Some("500"), None), Err(MalformedReply::MissingDescription));
    assert_eq!(headers(Some("abc"), None), Err(MalformedReply::MissingDescription));
    assert_eq!(headers(Some("abc"), Some("d")), Err(MalformedReply::InvalidCode));
    assert_eq!(headers(Some(""), Some("d")), Err(MalformedReply::InvalidCode));
    assert_eq!(headers(Some("-1"), Some("d")), Err(MalformedReply::InvalidCode));
    assert_eq!(headers(Some(" 1"), Some("d")), Err(MalformedReply::InvalidCode));
    assert_eq!(
        headers(Some("99999999999999999999999999"), Some("d")),
        Err(MalformedReply::InvalidCode)
    );
    assert_eq!(
        ServiceReply::from_message(&header(Some("x")), &header(Some("d")), Vec::new()),
        Err(MalformedReply::InvalidCode)
    );
    assert_eq!(
        ServiceReply::from_message(&header(Some("1")), &None, Vec::new()),
        Err(MalformedReply::MissingDescription)
    );
}

#[test]
fn outcomes_are_interpreted() {
    let (error, info) = interpret_outcome(&DeployOutcome::Failed(RequestFailure::TimedOut));
    assert_eq!(error, Some(DeploymentError::Timeout));
    assert_eq!(info, record_failure("Deployment request timeout"));
    assert_eq!(info.deployment_status, "Failed: Deployment request timeout");

    let (error, info) =
        interpret_outcome(&DeployOutcome::Replied(reply(Some("404"), Some("gone"), b"{}")));
    assert_eq!(
        error,
        Some(DeploymentError::ServiceError { code: 404, message: "gone".to_string() })
    );
    assert_eq!(info.deployment_status, "Failed: gone");

    let (error, info) = interpret_outcome(&DeployOutcome::Replied(reply(
        None,
        None,
        b"{\"session_id\":\"s\",\"gameserver_ip\":\"i\",\"gameserver_port\":1,\"connect_token\":\"c\"}",
    )));
    assert_eq!(error, None);
    assert_eq!(info.deployment_status, "Ready");
    assert_eq!(info.game_server_port, Some(1));
}

#[test]
fn failures_have_their_texts() {
    assert_eq!(describe_failure(RequestFailure::TimedOut), "Deployment request timeout");
    assert_eq!(describe_failure(RequestFailure::NoResponders), "No deployment service available");
    assert_eq!(describe_failure(RequestFailure::Other), "Deployment service error");
}

#[test]
fn service_codes_become_statuses() {
    assert_eq!(service_error(404).status_code(), 404);
    assert_eq!(service_error(100).status_code(), 100);
    assert_eq!(service_error(999).status_code(), 999);
    assert_eq!(service_error(99).status_code(), 500);
    assert_eq!(service_error(1000).status_code(), 500);
    assert_eq!(service_error(0).status_code(), 500);
    assert_eq!(service_error(65536 + 404).status_code(), 404);
    assert_eq!(service_error(65536).status_code(), 500);
    assert_eq!(service_error(404).message(), "Failed to deploy game server: m");
}

#[test]
fn refusals_have_their_statuses() {
    assert_eq!(LobbyError::CapacityExceeded { max_rooms: 3 }.status_code(), 429);
    assert_eq!(LobbyError::NotFound.status_code(), 404);
    assert_eq!(LobbyError::AlreadyStarted.status_code(), 409);
    assert_eq!(LobbyError::Full.status_code(), 409);
    assert_eq!(LobbyError::Deployment(DeploymentError::Timeout).status_code(), 408);
    assert_eq!(LobbyError::Deployment(DeploymentError::NoResponders).status_code(), 503);
    assert_eq!(LobbyError::Deployment(DeploymentError::Other).status_code(), 500);
    assert_eq!(
        LobbyError::CapacityExceeded { max_rooms: 0 }.message(),
        "maximum active rooms reached (0)"
    );
}
