use mcpg_plugin_backend_soap::envelope::{
    build_result_envelope, soap_fault_downstream_error, DownstreamHttpError,
};
use mcpg_plugin_backend_soap::fault::SoapFault;
use mcpg_plugin_backend_soap::json::{put, JsonNumber, JsonValue};
use mcpg_plugin_backend_soap::outcome::{
    audit_action_for_outcome, audit_metadata, audit_record, build_display_headers,
    host_outcome_label_for_status, host_outcome_label_for_transport_error,
    synthetic_system_identity, Actor, AuditRecord,
};
use mcpg_plugin_backend_soap::response::{
    classify, read_response, retry_after_ms, summarize, Reply,
};
use mcpg_plugin_backend_soap::string_map::StringMap;
use mcpg_plugin_backend_soap::types::{HttpResponseSummary, SoapVersion};

fn text(s: &str) -> JsonValue {
    JsonValue::text(s)
}

fn number(n: u64) -> JsonValue {
    JsonValue::Number(JsonNumber::Unsigned(n))
}

fn object(members: Vec<(&str, JsonValue)>) -> JsonValue {
    let mut map = StringMap::new();
    for (key, value) in members {
        put(&mut map, key, value);
    }
    JsonValue::Object(map)
}

fn member<'a>(value: &'a JsonValue, key: &str) -> &'a JsonValue {
    value.get(key).expect("member")
}

fn sample_fault(code: &str) -> SoapFault {
    SoapFault {
        code: code.to_owned(),
        reason: "boom".to_owned(),
        node: None,
        role: None,
        detail: Some("<e>x</e>".to_owned()),
        subcodes: vec![],
    }
}

fn encoded(error: &DownstreamHttpError) -> JsonValue {
    object(vec![
        ("kind", text(&error.kind)),
        ("message", text(&error.message)),
    ])
}

#[test]
fn receiver_fault_is_retryable() {
    let err = soap_fault_downstream_error(&sample_fault("env:Receiver"), 500);
    assert_eq!(err.kind, "soap_fault");
    assert!(err.retryable);
    assert_eq!(err.status_code, Some(500));
    assert_eq!(err.message, "boom");
}

#[test]
fn sender_fault_is_not_retryable() {
    let err = soap_fault_downstream_error(&sample_fault("soap:Client"), 500);
    assert!(!err.retryable);
    assert_eq!(err.suggested_action, "inspect_soap_fault_detail");
}

#[test]
fn envelope_surfaces_downstream_error_for_fault() {
    let fault = sample_fault("soap:Server");
    let dse = soap_fault_downstream_error(&fault, 500);
    let env = build_result_envelope(
        "GetWeather",
        "weather",
        SoapVersion::V11,
        Some("urn:GetWeather"),
        "https://svc/weather",
        "<soap:Envelope/>",
        &StringMap::new(),
        None,
        None,
        None,
        Some(&fault),
        Some(&encoded(&dse)),
        &vec![encoded(&dse)],
        None,
    );
    assert_eq!(*member(&env, "soapVersion"), text("1.1"));
    assert_eq!(*member(member(&env, "fault"), "code"), text("soap:Server"));
    assert_ne!(*member(&env, "downstreamError"), JsonValue::Null);
    assert_eq!(
        *member(member(&env, "downstreamError"), "kind"),
        text("soap_fault")
    );
}

#[test]
fn retryable_fault_error_is_exactly_this() {
    let fault = SoapFault {
        code: "soap:Server".to_owned(),
        reason: " \n".to_owned(),
        node: Some("n".to_owned()),
        role: None,
        detail: None,
        subcodes: vec!["s".to_owned()],
    };
    assert_eq!(
        soap_fault_downstream_error(&fault, 502),
        DownstreamHttpError {
            kind: "soap_fault".to_owned(),
            code: "mcpg.downstream_soap.fault".to_owned(),
            message: "SOAP Fault: soap:Server".to_owned(),
            retryable: true,
            retry_class: "with_backoff".to_owned(),
            retry_after_ms: None,
            idempotency_hint: "potentially_non_idempotent".to_owned(),
            caller_retry_decision: "confirm_idempotency_then_retry_with_backoff".to_owned(),
            retry_safety: "review_idempotency_before_retry".to_owned(),
            backoff_strategy: "exponential_backoff".to_owned(),
            minimum_backoff_ms: Some(1_000),
            suggested_action: "review_idempotency_then_retry_with_backoff".to_owned(),
            status_code: Some(502),
            details: object(vec![
                ("faultCode", text("soap:Server")),
                ("faultReason", text(" \n")),
                ("faultNode", text("n")),
                ("faultRole", JsonValue::Null),
                ("faultSubcodes", JsonValue::Array(vec![text("s")])),
                ("faultDetail", JsonValue::Null),
            ]),
        }
    );
}

#[test]
fn final_fault_error_says_not_to_retry() {
    let err = soap_fault_downstream_error(&sample_fault("env:Sender"), 400);
    assert_eq!(err.retry_class, "do_not_retry");
    assert_eq!(err.caller_retry_decision, "do_not_retry");
    assert_eq!(err.retry_safety, "do_not_retry");
    assert_eq!(err.backoff_strategy, "no_retry");
    assert_eq!(err.minimum_backoff_ms, None);
}

#[test]
fn envelope_is_complete() {
    let mut headers = StringMap::new();
    headers.insert("X".to_owned(), "1".to_owned());
    let response = HttpResponseSummary {
        status_code: 200,
        content_type: Some("text/xml".to_owned()),
        retry_after_ms: None,
        body: "<a/>".to_owned(),
        body_truncated: false,
        duration_ms: 12,
    };
    assert_eq!(
        build_result_envelope(
            "t",
            "p",
            SoapVersion::V12,
            None,
            "http://e",
            "<x/>",
            &headers,
            Some(&response),
            Some(&object(vec![("a", text(""))])),
            None,
            None,
            None,
            &Vec::new(),
            Some("oops"),
        ),
        object(vec![
            ("toolName", text("t")),
            ("profile", text("p")),
            ("soapVersion", text("1.2")),
            ("soapAction", JsonValue::Null),
            (
                "request",
                object(vec![
                    ("endpoint", text("http://e")),
                    ("xml", text("<x/>")),
                    ("headers", object(vec![("X", text("1"))])),
                ])
            ),
            (
                "response",
                object(vec![
                    ("durationMs", number(12)),
                    ("statusCode", number(200)),
                    ("contentType", text("text/xml")),
                    ("xml", text("<a/>")),
                    ("bodyTruncated", JsonValue::Bool(false)),
                    ("json", object(vec![("a", text(""))])),
                    ("jsonParseError", JsonValue::Null),
                ])
            ),
            ("fault", JsonValue::Null),
            ("downstreamError", JsonValue::Null),
            ("downstreamErrors", JsonValue::Array(vec![])),
            ("error", text("oops")),
        ])
    );
}

#[test]
fn status_labels() {
    for (status, label) in [
        (200, "ok"),
        (204, "ok"),
        (302, "ok"),
        (399, "ok"),
        (400, "http_4xx"),
        (499, "http_4xx"),
        (500, "http_5xx"),
        (599, "http_5xx"),
        (600, "ok"),
    ] {
        assert_eq!(host_outcome_label_for_status(status), label);
    }
}

#[test]
fn transport_labels() {
    assert_eq!(
        host_outcome_label_for_transport_error("operation Timed Out"),
        "timeout"
    );
    assert_eq!(
        host_outcome_label_for_transport_error("connect TIMEOUT"),
        "timeout"
    );
    assert_eq!(
        host_outcome_label_for_transport_error("connection refused"),
        "transport"
    );
}

#[test]
fn audited_labels() {
    for (label, action) in [
        ("timeout", Some("dev.mcpg.backend.soap.request_timeout")),
        ("transport", Some("dev.mcpg.backend.soap.request_failed")),
        ("http_5xx", Some("dev.mcpg.backend.soap.upstream_5xx")),
        ("soap_fault", Some("dev.mcpg.backend.soap.fault")),
        ("invalid_spec", Some("dev.mcpg.backend.soap.request_failed")),
        ("ok", None),
        ("http_4xx", None),
        ("profile_not_found", None),
    ] {
        assert_eq!(audit_action_for_outcome(label), action);
    }
}

#[test]
fn audit_records() {
    assert_eq!(
        audit_record(
            "weather",
            "soap_fault",
            Some(500),
            Some("boom"),
            false,
            text("alias"),
            "rq-1",
            1_234_567_890,
        ),
        Some(AuditRecord {
            event_id: "soap-rq-1-1234567890".to_owned(),
            actor: Actor::System(synthetic_system_identity()),
            action: "dev.mcpg.backend.soap.fault".to_owned(),
            resource: "soap-binding://weather".to_owned(),
            request_id: "rq-1".to_owned(),
            details: object(vec![
                ("backend", text("weather")),
                ("duration_ms", number(1234)),
                ("outcome", text("soap_fault")),
                ("alias", text("alias")),
                ("status_code", number(500)),
                ("reason", text("boom")),
            ]),
        })
    );
    assert_eq!(
        audit_record("w", "ok", Some(200), None, true, JsonValue::Null, "r", 1),
        None
    );
    let record = audit_record("w", "timeout", None, None, true, JsonValue::Null, "r", u128::MAX)
        .expect("record");
    assert_eq!(record.actor, Actor::Caller);
    assert_eq!(
        *member(&record.details, "duration_ms"),
        number((u128::MAX / 1_000_000) as u64)
    );
    assert!(record.details.get("status_code").is_none());
    assert!(record.details.get("reason").is_none());
}

#[test]
fn system_identity() {
    let identity = synthetic_system_identity();
    assert_eq!(identity.kind, "system");
    assert_eq!(identity.trust_level, "verified");
    assert_eq!(identity.subject_id.as_deref(), Some("dev.mcpg.backend.soap"));
    assert!(identity.auth_provider.is_none() && identity.issuer.is_none());
    assert!(identity.roles.is_empty() && identity.groups.is_empty() && identity.scopes.is_empty());
}

#[test]
fn display_headers_show_what_the_call_adds() {
    let mut resolved = StringMap::new();
    resolved.insert("Authorization".to_owned(), "x".to_owned());
    resolved.insert("Content-Type".to_owned(), "old".to_owned());
    let with = build_display_headers(&resolved, "text/xml", Some("\"a\""));
    assert_eq!(with.len(), 3);
    assert_eq!(with.get("Authorization").map(String::as_str), Some("x"));
    assert_eq!(with.get("Content-Type").map(String::as_str), Some("text/xml"));
    assert_eq!(with.get("SOAPAction").map(String::as_str), Some("\"a\""));
    let without = build_display_headers(&resolved, "text/xml", None);
    assert_eq!(without.len(), 2);
}

#[test]
fn metadata_of_the_backend() {
    let members = audit_metadata();
    assert_eq!(members.len(), 1);
    assert_eq!(members.get("soap.transport"), Some(&text("plugin")));
}

fn reply(body: &[u8]) -> Reply {
    Reply {
        status_code: 200,
        content_type: None,
        retry_after: Some(" 3 ".to_owned()),
        body: body.to_vec(),
        body_truncated: true,
        duration_ms: 7,
    }
}

#[test]
fn replies_are_summed_up() {
    assert_eq!(
        summarize(reply("é".as_bytes())),
        HttpResponseSummary {
            status_code: 200,
            content_type: None,
            retry_after_ms: Some(3_000),
            body: "é".to_owned(),
            body_truncated: true,
            duration_ms: 7,
        }
    );
    assert_eq!(summarize(reply(&[b'a', 0xff, b'b'])).body, "a\u{fffd}b");
}

#[test]
fn retry_after_is_a_number_of_seconds() {
    assert_eq!(retry_after_ms(None), None);
    assert_eq!(retry_after_ms(Some("120")), Some(120_000));
    assert_eq!(retry_after_ms(Some("Wed, 21 Oct 2015 07:28:00 GMT")), None);
    assert_eq!(retry_after_ms(Some("18446744073709551615")), Some(u64::MAX));
}

#[test]
fn readings_of_bodies() {
    let blank = read_response(" \n", SoapVersion::V11);
    assert_eq!(blank.fault, None);
    assert_eq!(blank.response_json, None);
    assert_eq!(blank.json_parse_error, None);
    let broken = read_response("<a>", SoapVersion::V11);
    assert_eq!(broken.response_json, None);
    assert_eq!(
        broken.json_parse_error.as_deref(),
        Some("unexpected EOF inside XML element")
    );
    let fault = read_response("<Fault><faultcode>c</faultcode></Fault>", SoapVersion::V11);
    assert_eq!(fault.fault.expect("fault").code, "c");
    assert_eq!(
        fault.response_json,
        Some(object(vec![("Fault", object(vec![("faultcode", text("c"))]))]))
    );
}

#[test]
fn faults_come_before_statuses() {
    let fault = sample_fault("soap:Server");
    let status_error = || soap_fault_downstream_error(&sample_fault("other"), 1);
    let found = classify(Some(&fault), 200, Some(status_error()));
    assert_eq!(found.outcome_label, "soap_fault");
    assert_eq!(
        found.downstream_error,
        Some(soap_fault_downstream_error(&fault, 200))
    );
    let found = classify(None, 503, Some(status_error()));
    assert_eq!(found.outcome_label, "http_5xx");
    assert_eq!(found.downstream_error, Some(status_error()));
    let found = classify(None, 503, None);
    assert_eq!(found.outcome_label, "ok");
    assert_eq!(found.downstream_error, None);
}
