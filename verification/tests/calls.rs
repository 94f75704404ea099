use mcpg_plugin_backend_soap::call::{serialization_failed, start};
use mcpg_plugin_backend_soap::call_state::{
    CallAction, CallEvent, CallState, Profile, Report, ResolvedClient, SendFailure,
};
use mcpg_plugin_backend_soap::envelope::{soap_fault_downstream_error, DownstreamHttpError};
use mcpg_plugin_backend_soap::fault::SoapFault;
use mcpg_plugin_backend_soap::json::{put, JsonValue};
use mcpg_plugin_backend_soap::registration::Template;
use mcpg_plugin_backend_soap::request::{outbound_headers, tool_name, trace_headers};
use mcpg_plugin_backend_soap::response::Reply;
use mcpg_plugin_backend_soap::string_map::StringMap;
use mcpg_plugin_backend_soap::types::{BackendError, SoapVersion};

fn text(s: &str) -> JsonValue {
    JsonValue::text(s)
}

fn object(members: Vec<(&str, JsonValue)>) -> JsonValue {
    let mut map = StringMap::new();
    for (key, value) in members {
        put(&mut map, key, value);
    }
    JsonValue::Object(map)
}

fn member<'a>(value: &'a JsonValue, key: &str) -> &'a JsonValue {
    value.get(key).expect("member")
}

fn pair(name: &str, value: &str) -> (String, String) {
    (name.to_owned(), value.to_owned())
}

fn profile(has_action: bool, has_header: bool) -> Profile {
    let mut headers = StringMap::new();
    headers.insert("X-Key".to_owned(), "${k}".to_owned());
    Profile {
        version: SoapVersion::V11,
        url: "https://svc/${x}".to_owned(),
        headers,
        has_action,
        has_header,
        max_response_bytes: 64,
    }
}

fn request_headers() -> Vec<(String, String)> {
    vec![
        pair("MCPG-Tool-Name", "GetWeather"),
        pair("TraceParent", "00-1"),
        pair("cookie", "c"),
        pair("tracestate", "s"),
    ]
}

fn client() -> CallEvent {
    let mut headers = StringMap::new();
    headers.insert("X-Key".to_owned(), "secret".to_owned());
    CallEvent::Client(Ok(ResolvedClient {
        url: "https://svc/1".to_owned(),
        headers,
    }))
}

fn reply(status_code: u16, body: &str) -> CallEvent {
    CallEvent::Response(Ok(Reply {
        status_code,
        content_type: Some("text/xml".to_owned()),
        retry_after: None,
        body: body.as_bytes().to_vec(),
        body_truncated: false,
        duration_ms: 5,
    }))
}

fn rendered(s: &str) -> CallEvent {
    CallEvent::Rendered(Ok(s.to_owned()))
}

/// A call without an action or a header, up to its request.
fn sending() -> (CallState, CallAction) {
    let (state, _) = start("weather", &request_headers(), Vec::new())
        .step(CallEvent::Profile(Some(profile(false, false))));
    let (state, _) = state.step(rendered("<b/>"));
    state.step(client())
}

fn status_error(message: &str) -> DownstreamHttpError {
    let mut error = soap_fault_downstream_error(
        &SoapFault {
            code: String::new(),
            reason: message.to_owned(),
            node: None,
            role: None,
            detail: None,
            subcodes: Vec::new(),
        },
        503,
    );
    error.kind = "unexpected_status_code".to_owned();
    error
}

fn answered(action: CallAction) -> (JsonValue, &'static str, Option<u16>, Option<String>) {
    match action {
        CallAction::Finish {
            report:
                Report::Answered {
                    result,
                    label,
                    status_code,
                    reason,
                },
        } => (result, label, status_code, reason),
        other => panic!("not answered: {:?}", other),
    }
}

fn refused(action: CallAction) -> (BackendError, &'static str) {
    match action {
        CallAction::Finish {
            report: Report::Refused { error, label },
        } => (error, label),
        other => panic!("not refused: {:?}", other),
    }
}

#[test]
fn execute_unknown_profile_returns_profile_not_found() {
    let (state, action) = start("missing", &Vec::new(), Vec::new()).step(CallEvent::Profile(None));
    assert!(matches!(state, CallState::Done));
    let (error, label) = refused(action);
    assert!(matches!(&error, BackendError::ProfileNotFound { .. }));
    assert_eq!(
        error,
        BackendError::ProfileNotFound {
            backend_name: "missing".to_owned()
        }
    );
    assert_eq!(label, "profile_not_found");
}

#[test]
fn execute_rejects_non_json_payload() {
    let (state, action) = start("weather", &Vec::new(), b"not json".to_vec())
        .step(CallEvent::Profile(Some(profile(true, false))));
    assert!(matches!(action, CallAction::Decode { payload } if payload == b"not json"));
    let (state, action) = state.step(CallEvent::Arguments(Err("expected ident".to_owned())));
    assert!(matches!(state, CallState::Done));
    let (error, label) = refused(action);
    assert_eq!(
        error,
        BackendError::InvalidSpec {
            message: "SOAP plugin payload is not valid JSON: expected ident".to_owned()
        }
    );
    assert_eq!(label, "invalid_spec");
}

#[test]
fn a_whole_call() {
    let arguments = object(vec![("city", text("<B>"))]);
    let escaped = object(vec![("city", text("&lt;B&gt;"))]);
    let (state, _) = start("weather", &request_headers(), b"{}".to_vec())
        .step(CallEvent::Profile(Some(profile(true, true))));
    let (state, action) = state.step(CallEvent::Arguments(Ok(arguments.clone())));
    match action {
        CallAction::Render {
            template,
            arguments: given,
            tool_name,
        } => {
            assert_eq!(template, Template::Action);
            assert_eq!(given, arguments);
            assert_eq!(tool_name, "GetWeather");
        }
        other => panic!("{:?}", other),
    }
    let (state, action) = state.step(rendered("urn:GetWeather"));
    assert!(matches!(action, CallAction::CheckHeaderValue { value } if value == "urn:GetWeather"));
    let (state, action) = state.step(CallEvent::HeaderValue(Ok(())));
    assert!(matches!(
        action,
        CallAction::Render { template: Template::Body, arguments, .. } if arguments == escaped
    ));
    let (state, action) = state.step(rendered(" <b>&lt;B&gt;</b> "));
    assert!(matches!(
        action,
        CallAction::Render { template: Template::Header, arguments, .. } if arguments == escaped
    ));
    let (state, action) = state.step(rendered("<h/>"));
    assert!(matches!(
        action,
        CallAction::ResolveClient { arguments: given, tool_name }
            if given == arguments && tool_name == "GetWeather"
    ));
    let (state, action) = state.step(client());
    let envelope = "<?xml version=\"1.0\" encoding=\"UTF-8\"?><soap:Envelope \
                    xmlns:soap=\"http://schemas.xmlsoap.org/soap/envelope/\">\
                    <soap:Header><h/></soap:Header><soap:Body><b>&lt;B&gt;</b></soap:Body>\
                    </soap:Envelope>";
    match action {
        CallAction::Send { request } => {
            assert_eq!(request.url, "https://svc/1");
            assert_eq!(request.body, envelope);
            assert_eq!(request.max_response_bytes, 64);
            assert_eq!(
                request.headers,
                vec![
                    pair("Content-Type", "text/xml; charset=utf-8"),
                    pair(
                        "Accept",
                        "text/xml, application/soap+xml, application/xml, */*"
                    ),
                    pair("SOAPAction", "\"urn:GetWeather\""),
                    pair("TraceParent", "00-1"),
                    pair("tracestate", "s"),
                ]
            );
        }
        other => panic!("{:?}", other),
    }
    let (state, action) = state.step(reply(200, "<r>ok</r>"));
    assert!(matches!(
        action,
        CallAction::CheckStatus { status_code: 200, retry_after_ms: None }
    ));
    let (state, action) = state.step(CallEvent::StatusError(None));
    assert!(matches!(state, CallState::Done));
    let (result, label, status_code, reason) = answered(action);
    assert_eq!(label, "ok");
    assert_eq!(status_code, Some(200));
    assert_eq!(reason, None);
    assert_eq!(*member(&result, "toolName"), text("GetWeather"));
    assert_eq!(*member(&result, "profile"), text("weather"));
    assert_eq!(*member(&result, "soapAction"), text("urn:GetWeather"));
    assert_eq!(*member(&result, "downstreamError"), JsonValue::Null);
    assert_eq!(*member(&result, "fault"), JsonValue::Null);
    let request = member(&result, "request");
    assert_eq!(*member(request, "endpoint"), text("https://svc/1"));
    assert_eq!(*member(request, "xml"), text(envelope));
    assert_eq!(*member(member(request, "headers"), "X-Key"), text("secret"));
    assert_eq!(
        *member(member(request, "headers"), "SOAPAction"),
        text("\"urn:GetWeather\"")
    );
    let response = member(&result, "response");
    assert_eq!(*member(response, "xml"), text("<r>ok</r>"));
    assert_eq!(*member(response, "json"), object(vec![("r", text("ok"))]));
}

#[test]
fn an_empty_payload_is_an_empty_object() {
    let (_, action) = start("weather", &Vec::new(), Vec::new())
        .step(CallEvent::Profile(Some(profile(true, false))));
    assert!(matches!(
        action,
        CallAction::Render { template: Template::Action, arguments, tool_name }
            if arguments == object(vec![]) && tool_name == "weather"
    ));
}

#[test]
fn a_fault_is_told_whatever_the_status() {
    for status in [200, 400, 500] {
        let (state, _) = sending();
        let (state, action) = state.step(reply(
            status,
            "<Fault><faultcode>soap:Server</faultcode><faultstring>boom</faultstring></Fault>",
        ));
        match action {
            CallAction::EncodeError { error } => {
                assert_eq!(error.kind, "soap_fault");
                assert_eq!(error.status_code, Some(status));
            }
            other => panic!("{:?}", other),
        }
        let (state, action) =
            state.step(CallEvent::Encoded(object(vec![("kind", text("soap_fault"))])));
        assert!(matches!(state, CallState::Done));
        let (result, label, status_code, reason) = answered(action);
        assert_eq!(label, "soap_fault");
        assert_eq!(status_code, Some(status));
        assert_eq!(reason.as_deref(), Some("boom"));
        assert_eq!(
            *member(&result, "downstreamError"),
            object(vec![("kind", text("soap_fault"))])
        );
        assert_eq!(
            *member(&result, "downstreamErrors"),
            JsonValue::Array(vec![object(vec![("kind", text("soap_fault"))])])
        );
        assert_eq!(*member(member(&result, "fault"), "reason"), text("boom"));
        assert_eq!(*member(&result, "error"), JsonValue::Null);
    }
}

#[test]
fn an_unexpected_status_is_an_error() {
    let (state, _) = sending();
    let (state, _) = state.step(reply(503, "busy"));
    let (state, action) = state.step(CallEvent::StatusError(Some(status_error("unexpected 503"))));
    assert!(matches!(
        action,
        CallAction::EncodeError { error } if error.kind == "unexpected_status_code"
    ));
    let (_, action) = state.step(CallEvent::Encoded(text("e")));
    let (result, label, status_code, reason) = answered(action);
    assert_eq!(label, "http_5xx");
    assert_eq!(status_code, Some(503));
    assert_eq!(reason.as_deref(), Some("unexpected 503"));
    assert_eq!(*member(&result, "downstreamError"), text("e"));
    assert_eq!(
        *member(member(&result, "response"), "jsonParseError"),
        text("no root element in XML")
    );
}

#[test]
fn failures_while_rendering_are_answered() {
    let begin = |has_header: bool| {
        start("weather", &Vec::new(), Vec::new())
            .step(CallEvent::Profile(Some(profile(true, has_header))))
            .0
    };
    let bad = || CallEvent::Rendered(Err("bad".to_owned()));
    let checked = |state: CallState| state.step(rendered("urn:a")).0;
    let body = |state: CallState| checked(state).step(CallEvent::HeaderValue(Ok(()))).0;
    for (then, message, action) in [
        (
            begin(false).step(bad()),
            "evaluating soap_action: bad",
            JsonValue::Null,
        ),
        (
            checked(begin(false)).step(CallEvent::HeaderValue(Err("bad".to_owned()))),
            "soap_action: bad",
            text("urn:a"),
        ),
        (
            body(begin(false)).step(bad()),
            "evaluating body_template: bad",
            text("urn:a"),
        ),
        (
            body(begin(true)).step(rendered("<b/>")).0.step(bad()),
            "evaluating header_template: bad",
            text("urn:a"),
        ),
    ] {
        let (state, asked) = then;
        assert!(matches!(asked, CallAction::EncodeFailure { message: m } if m == message));
        let (state, asked) = state.step(CallEvent::Encoded(text("e")));
        assert!(matches!(state, CallState::Done));
        let (result, label, status_code, reason) = answered(asked);
        assert_eq!(label, "invalid_spec");
        assert_eq!(status_code, None);
        assert_eq!(reason.as_deref(), Some(message));
        assert_eq!(*member(&result, "soapAction"), action);
        assert_eq!(*member(&result, "error"), text(message));
        assert_eq!(*member(&result, "downstreamError"), text("e"));
        assert_eq!(*member(&result, "response"), JsonValue::Null);
        let request = member(&result, "request");
        assert_eq!(*member(request, "endpoint"), text("https://svc/${x}"));
        assert_eq!(*member(request, "xml"), text(""));
        assert_eq!(*member(member(request, "headers"), "X-Key"), text("${k}"));
    }
}

#[test]
fn without_a_client_the_envelope_is_shown() {
    let (state, _) = start("weather", &Vec::new(), Vec::new())
        .step(CallEvent::Profile(Some(profile(false, false))));
    let (state, _) = state.step(rendered("<b/>"));
    let (state, action) = state.step(CallEvent::Client(Err("DNS timeout".to_owned())));
    assert!(matches!(action, CallAction::EncodeFailure { message } if message == "DNS timeout"));
    let (result, label, _, reason) = answered(state.step(CallEvent::Encoded(text("e"))).1);
    assert_eq!(label, "timeout");
    assert_eq!(reason.as_deref(), Some("DNS timeout"));
    assert!(matches!(
        member(member(&result, "request"), "xml"),
        JsonValue::Text(xml) if xml.contains("<soap:Body><b/></soap:Body>")
    ));
    assert_eq!(
        *member(member(&result, "request"), "endpoint"),
        text("https://svc/${x}")
    );
}

#[test]
fn failed_exchanges_are_answered() {
    for (failure, message, expected) in [
        (
            SendFailure::Request("operation timed out".to_owned()),
            "SOAP request failed: operation timed out",
            "timeout",
        ),
        (
            SendFailure::Body("reset".to_owned()),
            "reset",
            "transport",
        ),
    ] {
        let (state, _) = sending();
        let (state, action) = state.step(CallEvent::Response(Err(failure)));
        assert!(matches!(action, CallAction::EncodeFailure { message: m } if m == message));
        let (result, label, status_code, reason) =
            answered(state.step(CallEvent::Encoded(text("e"))).1);
        assert_eq!(label, expected);
        assert_eq!(status_code, None);
        assert_eq!(reason.as_deref(), Some(message));
        assert_eq!(*member(&result, "error"), text(message));
        assert_eq!(
            *member(member(&result, "request"), "endpoint"),
            text("https://svc/1")
        );
    }
}

#[test]
fn headers_of_requests() {
    assert_eq!(tool_name(&Vec::new(), "b"), "b");
    assert_eq!(
        tool_name(
            &vec![pair("mcpg-tool-name", "one"), pair("Mcpg-Tool-Name", "two")],
            "b"
        ),
        "one"
    );
    assert_eq!(
        trace_headers(&request_headers()),
        vec![pair("TraceParent", "00-1"), pair("tracestate", "s")]
    );
    assert_eq!(
        outbound_headers("t", None, &Vec::new()),
        vec![
            pair("Content-Type", "t"),
            pair(
                "Accept",
                "text/xml, application/soap+xml, application/xml, */*"
            ),
        ]
    );
}

/// Runs a call that fails at the `failing`th question, and counts its steps and
/// its requests.
fn run(failing: usize, has_action: bool, has_header: bool) -> (usize, usize) {
    let found = Some(profile(has_action, has_header));
    let mut event = CallEvent::Profile(if failing == 0 { None } else { found });
    let mut state = start("weather", &Vec::new(), b"{}".to_vec());
    let mut steps = 0;
    let mut requests = 0;
    loop {
        let (next, action) = state.step(event);
        state = next;
        steps += 1;
        let fails = steps == failing;
        let why = || "no".to_owned();
        event = match action {
            CallAction::Decode { .. } => {
                CallEvent::Arguments(if fails { Err(why()) } else { Ok(object(vec![])) })
            }
            CallAction::Render { .. } => {
                CallEvent::Rendered(if fails { Err(why()) } else { Ok("x".to_owned()) })
            }
            CallAction::CheckHeaderValue { .. } => {
                CallEvent::HeaderValue(if fails { Err(why()) } else { Ok(()) })
            }
            CallAction::ResolveClient { .. } => {
                if fails {
                    CallEvent::Client(Err(why()))
                } else {
                    client()
                }
            }
            CallAction::Send { .. } => {
                requests += 1;
                if fails {
                    CallEvent::Response(Err(SendFailure::Request(why())))
                } else {
                    reply(500, "<r/>")
                }
            }
            CallAction::CheckStatus { .. } => CallEvent::StatusError(if fails {
                Some(status_error("no"))
            } else {
                None
            }),
            CallAction::EncodeFailure { .. } | CallAction::EncodeError { .. } => {
                CallEvent::Encoded(text("e"))
            }
            CallAction::Finish { .. } => {
                assert!(matches!(state, CallState::Done));
                return (steps, requests);
            }
        };
    }
}

#[test]
fn calls_end_and_send_at_most_once() {
    for has_action in [false, true] {
        for has_header in [false, true] {
            for failing in 0..12 {
                let (steps, requests) = run(failing, has_action, has_header);
                assert!(steps <= 10);
                assert!(requests <= 1);
                let before_sending = 3 + 2 * usize::from(has_action) + usize::from(has_header);
                assert_eq!(requests, usize::from(failing > before_sending));
            }
        }
    }
}

#[test]
fn results_that_cannot_be_written() {
    assert_eq!(
        serialization_failed("x"),
        BackendError::Transport {
            message: "SOAP plugin envelope serialization failed: x".to_owned()
        }
    );
}
