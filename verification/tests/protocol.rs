use nono_approval::protocol::{
    parse_default_webhook_body, parse_webhook_body, AccessMode, Envelope, IncomingApproval,
    KnownApprovalRequest, NetworkProtocol, ProtocolError, SourceKind, WebhookDecision,
    DEFAULT_MAX_BODY_BYTES, WIRE_ADAPTER_VERSION,
};
use serde_json::Value;

fn text_of(value: &Value, name: &str) -> Result<String, String> {
    value
        .get(name)
        .and_then(Value::as_str)
        .map(str::to_owned)
        .ok_or_else(|| format!("missing field `{name}`"))
}

fn optional_text(value: &Value, name: &str) -> Result<Option<String>, String> {
    match value.get(name) {
        None | Some(Value::Null) => Ok(None),
        Some(Value::String(text)) => Ok(Some(text.clone())),
        Some(_) => Err(format!("invalid type for `{name}`")),
    }
}

fn number_of(value: &Value, name: &str) -> Result<u64, String> {
    value
        .get(name)
        .and_then(Value::as_u64)
        .ok_or_else(|| format!("missing field `{name}`"))
}

fn texts_of(value: &Value, name: &str) -> Result<Vec<String>, String> {
    value
        .get(name)
        .and_then(Value::as_array)
        .ok_or_else(|| format!("missing field `{name}`"))?
        .iter()
        .map(|item| {
            item.as_str()
                .map(str::to_owned)
                .ok_or_else(|| format!("invalid type in `{name}`"))
        })
        .collect()
}

fn known(value: &Value) -> Result<KnownApprovalRequest, String> {
    let request_id = text_of(value, "request_id")?;
    let session_id = text_of(value, "session_id")?;
    let reason = optional_text(value, "reason")?;
    let child_pid = u32::try_from(number_of(value, "child_pid")?).map_err(|e| e.to_string())?;
    match text_of(value, "capability_type")?.as_str() {
        "command" => Ok(KnownApprovalRequest::Command {
            request_id,
            command: text_of(value, "command")?,
            args: texts_of(value, "args")?,
            caller: text_of(value, "caller")?,
            intercept_rule: text_of(value, "intercept_rule")?,
            reason,
            child_pid,
            session_id,
        }),
        "endpoint" => Ok(KnownApprovalRequest::Endpoint {
            request_id,
            route_id: text_of(value, "route_id")?,
            upstream: text_of(value, "upstream")?,
            method: text_of(value, "method")?,
            path: text_of(value, "path")?,
            rule_label: text_of(value, "rule_label")?,
            reason,
            child_pid,
            session_id,
        }),
        "capability" => Ok(KnownApprovalRequest::Capability {
            request_id,
            path: text_of(value, "path")?,
            access: match text_of(value, "access")?.as_str() {
                "Read" => AccessMode::Read,
                "Write" => AccessMode::Write,
                "ReadWrite" => AccessMode::ReadWrite,
                other => return Err(format!("unknown variant `{other}`")),
            },
            reason,
            child_pid,
            session_id,
        }),
        "network" => Ok(KnownApprovalRequest::Network {
            request_id,
            host: text_of(value, "host")?,
            port: u16::try_from(number_of(value, "port")?).map_err(|e| e.to_string())?,
            protocol: match text_of(value, "protocol")?.as_str() {
                "tcp" => NetworkProtocol::Tcp,
                "udp" => NetworkProtocol::Udp,
                other => return Err(format!("unknown variant `{other}`")),
            },
            resolved_ips: texts_of(value, "resolved_ips")?,
            reason,
            child_pid,
            session_id,
        }),
        other => Err(format!("unknown variant `{other}`")),
    }
}

fn decode(body: &[u8]) -> Result<Envelope, String> {
    let value: Value = serde_json::from_slice(body).map_err(|error| error.to_string())?;
    let backend = text_of(&value, "backend")?;
    let request = value.get("request").ok_or("missing field `request`")?;
    Ok(Envelope {
        backend,
        raw_request: request.to_string(),
        request: known(request),
    })
}

fn parse(body: &[u8]) -> Result<IncomingApproval, ProtocolError> {
    parse_default_webhook_body(body, decode(body))
}

fn command_json(extra: &str) -> String {
    format!(
        r#"{{"backend":"local-broker","request":{{"capability_type":"command","request_id":"req-1","command":"date","args":["date"],"caller":"session","intercept_rule":"<catch-all>","reason":null,"child_pid":42,"session_id":"sess-1"{extra}}}}}"#
    )
}

#[test]
fn parses_known_variant_and_allows_additional_fields() {
    let incoming = parse(command_json(",\"future\":true").as_bytes()).unwrap();
    assert!(matches!(
        incoming.request,
        KnownApprovalRequest::Command { .. }
    ));
    assert_eq!(incoming.detail.summary, "date");
}

#[test]
fn rejects_unknown_or_incomplete_variants() {
    let unknown = br#"{"backend":"x","request":{"capability_type":"future","request_id":"r","session_id":"s"}}"#;
    assert!(matches!(parse(unknown), Err(ProtocolError::InvalidJson(_))));
    let incomplete = br#"{"backend":"x","request":{"capability_type":"command","request_id":"r","session_id":"s"}}"#;
    assert!(matches!(
        parse(incomplete),
        Err(ProtocolError::InvalidJson(_))
    ));
}

#[test]
fn rejects_trailing_json_and_body_over_limit() {
    let mut body = command_json("").into_bytes();
    body.extend_from_slice(b" true");
    assert!(matches!(parse(&body), Err(ProtocolError::InvalidJson(_))));
    assert_eq!(
        parse_webhook_body(b"12345", 4, 1024, decode(b"12345")).unwrap_err(),
        ProtocolError::BodyTooLarge { limit: 4 }
    );
}

#[test]
fn parses_every_supported_variant() {
    let fixtures = [
        r#"{"backend":"x","request":{"capability_type":"endpoint","request_id":"r","route_id":"github","upstream":"https://api.github.com","method":"POST","path":"/repos/a/b/issues","rule_label":"approve","reason":null,"child_pid":0,"session_id":"proxy"}}"#,
        r#"{"backend":"x","request":{"capability_type":"capability","request_id":"r","path":"/tmp/demo","access":"ReadWrite","reason":"needed","child_pid":1,"session_id":"s"}}"#,
        r#"{"backend":"x","request":{"capability_type":"network","request_id":"r","host":"example.com","port":443,"protocol":"tcp","resolved_ips":["192.0.2.1"],"reason":null,"child_pid":1,"session_id":"s"}}"#,
    ];
    for fixture in fixtures {
        parse(fixture.as_bytes()).unwrap();
    }
}

#[test]
fn rejects_unknown_access_mode_protocol_and_empty_operation_fields() {
    let invalid_access = r#"{"backend":"x","request":{"capability_type":"capability","request_id":"r","path":"/tmp/demo","access":"Execute","reason":null,"child_pid":1,"session_id":"s"}}"#;
    let invalid_protocol = r#"{"backend":"x","request":{"capability_type":"network","request_id":"r","host":"example.com","port":53,"protocol":"sctp","resolved_ips":[],"reason":null,"child_pid":1,"session_id":"s"}}"#;
    let empty_command = command_json("").replace("\"command\":\"date\"", "\"command\":\"\"");
    assert!(matches!(
        parse(invalid_access.as_bytes()),
        Err(ProtocolError::InvalidJson(_))
    ));
    assert!(matches!(
        parse(invalid_protocol.as_bytes()),
        Err(ProtocolError::InvalidJson(_))
    ));
    assert_eq!(
        parse(empty_command.as_bytes()).unwrap_err(),
        ProtocolError::EmptyField("command")
    );
}

#[test]
fn checks_come_in_order() {
    let empty_backend = command_json("").replace("local-broker", "");
    assert_eq!(
        parse(empty_backend.as_bytes()).unwrap_err(),
        ProtocolError::EmptyBackend
    );
    let empty_request = command_json("").replace("req-1", "");
    assert_eq!(
        parse(empty_request.as_bytes()).unwrap_err(),
        ProtocolError::EmptyRequestId
    );
    let empty_session = command_json("").replace("sess-1", "");
    assert_eq!(
        parse(empty_session.as_bytes()).unwrap_err(),
        ProtocolError::EmptySessionId
    );
    let body = command_json("");
    assert_eq!(
        parse_webhook_body(body.as_bytes(), 4096, 10, decode(body.as_bytes())).unwrap_err(),
        ProtocolError::DetailTooLarge { limit: 10 }
    );
    let both = command_json("").replace("local-broker", "").replace("req-1", "");
    assert_eq!(parse(both.as_bytes()).unwrap_err(), ProtocolError::EmptyBackend);
}

#[test]
fn the_detail_limit_counts_the_bytes_of_its_json() {
    let body = command_json("");
    let length = parse(body.as_bytes()).unwrap().detail.serialized_len();
    assert!(parse_webhook_body(body.as_bytes(), 4096, length, decode(body.as_bytes())).is_ok());
    assert!(parse_webhook_body(body.as_bytes(), 4096, length - 1, decode(body.as_bytes())).is_err());
}

#[test]
fn errors_have_messages() {
    assert_eq!(
        ProtocolError::BodyTooLarge { limit: 262144 }.message(),
        "request body exceeds 262144 bytes"
    );
    assert_eq!(
        ProtocolError::InvalidJson("x".to_owned()).message(),
        "invalid webhook JSON: x"
    );
    assert_eq!(
        ProtocolError::EmptyField("host").message(),
        "required request field must not be empty: host"
    );
    assert_eq!(
        ProtocolError::DetailTooLarge { limit: 7 }.message(),
        "approval detail exceeds 7 bytes"
    );
    assert_eq!(ProtocolError::EmptyBackend.message(), "backend must not be empty");
    assert_eq!(ProtocolError::EmptyRequestId.message(), "request_id must not be empty");
    assert_eq!(ProtocolError::EmptySessionId.message(), "session_id must not be empty");
}

#[test]
fn requests_tell_their_kind_and_identifiers() {
    let incoming = parse(command_json("").as_bytes()).unwrap();
    let request = &incoming.request;
    assert_eq!(request.capability_type(), "command");
    assert_eq!(request.request_id(), "req-1");
    assert_eq!(request.session_id(), "sess-1");
    assert_eq!(request.child_pid(), 42);
    assert_eq!(request.source_kind(), SourceKind::ToolSandbox);
    assert_eq!(request.source_kind().as_str(), "tool_sandbox");
    assert_eq!(AccessMode::ReadWrite.as_str(), "read+write");
    assert_eq!(NetworkProtocol::Udp.as_str(), "udp");
    assert_eq!(incoming.claimed_backend, "local-broker");
    assert_eq!(incoming.clone().request, incoming.request);
    assert_eq!(WebhookDecision::Granted.clone(), WebhookDecision::Granted);
    assert_eq!(DEFAULT_MAX_BODY_BYTES, 256 * 1024);
    assert_eq!(WIRE_ADAPTER_VERSION, 1);
}
