//! The structured result of a call.
//!
//! A call is answered with one JSON document. Its `downstreamError` slot,
//! when it is not `null`, marks the call as failed.

use crate::fault;
use crate::fault::{Fault, SoapFault};
use crate::json;
use crate::json::{no_members, put, Json, JsonNumber, JsonValue};
use crate::string_map;
use crate::string_map::StringMap;
use crate::text;
use crate::text::{borrowed, joined, trim};
use crate::types;
use crate::types::{HttpResponseSummary, SoapVersion, Summary};
use vstd::prelude::*;
use vstd::string::*;

verus! {

broadcast use crate::json::lemma_json_model;

/// How long to wait before the first retry, in milliseconds.
pub const DEFAULT_BACKOFF_BASE_MS: u64 = 1_000;

/// An error of the service, with guidance on retrying.
#[derive(Debug, PartialEq, Eq)]
pub struct DownstreamHttpError {
    pub kind: String,
    pub code: String,
    pub message: String,
    pub retryable: bool,
    pub retry_class: String,
    pub retry_after_ms: Option<u64>,
    pub idempotency_hint: String,
    pub caller_retry_decision: String,
    pub retry_safety: String,
    pub backoff_strategy: String,
    pub minimum_backoff_ms: Option<u64>,
    pub suggested_action: String,
    pub status_code: Option<u16>,
    pub details: JsonValue,
}

/// A [`DownstreamHttpError`] in terms of what its parts stand for.
#[verifier::ext_equal]
pub struct Downstream {
    pub kind: Seq<char>,
    pub code: Seq<char>,
    pub message: Seq<char>,
    pub retryable: bool,
    pub retry_class: Seq<char>,
    pub retry_after_ms: Option<u64>,
    pub idempotency_hint: Seq<char>,
    pub caller_retry_decision: Seq<char>,
    pub retry_safety: Seq<char>,
    pub backoff_strategy: Seq<char>,
    pub minimum_backoff_ms: Option<u64>,
    pub suggested_action: Seq<char>,
    pub status_code: Option<u16>,
    pub details: Json,
}

impl View for DownstreamHttpError {
    type V = Downstream;

    open spec fn view(&self) -> Downstream {
        Downstream {
            kind: self.kind@,
            code: self.code@,
            message: self.message@,
            retryable: self.retryable,
            retry_class: self.retry_class@,
            retry_after_ms: self.retry_after_ms,
            idempotency_hint: self.idempotency_hint@,
            caller_retry_decision: self.caller_retry_decision@,
            retry_safety: self.retry_safety@,
            backoff_strategy: self.backoff_strategy@,
            minimum_backoff_ms: self.minimum_backoff_ms,
            suggested_action: self.suggested_action@,
            status_code: self.status_code,
            details: self.details@,
        }
    }
}

/// The message for a fault: its reason, or its code where the reason is
/// blank.
pub open spec fn fault_message(fault: Fault) -> Seq<char> {
    if text::is_blank(fault.reason) {
        "SOAP Fault: "@ + fault.code
    } else {
        fault.reason
    }
}

/// What a fault adds to its error.
pub open spec fn fault_details(fault: Fault) -> Json {
    Json::Object(
        map![
            "faultCode"@ => Json::Text(fault.code),
            "faultReason"@ => Json::Text(fault.reason),
            "faultNode"@ => json::optional_text_model(fault.node),
            "faultRole"@ => json::optional_text_model(fault.role),
            "faultSubcodes"@ => json::text_list_model(fault.subcodes),
            "faultDetail"@ => json::optional_text_model(fault.detail),
        ],
    )
}

/// The error that a fault amounts to.
pub open spec fn fault_error(fault: Fault, status_code: u16) -> Downstream {
    let retryable = fault::is_receiver_code(fault.code);
    Downstream {
        kind: "soap_fault"@,
        code: "mcpg.downstream_soap.fault"@,
        message: fault_message(fault),
        retryable,
        retry_class: if retryable {
            "with_backoff"@
        } else {
            "do_not_retry"@
        },
        retry_after_ms: None,
        idempotency_hint: "potentially_non_idempotent"@,
        caller_retry_decision: if retryable {
            "confirm_idempotency_then_retry_with_backoff"@
        } else {
            "do_not_retry"@
        },
        retry_safety: if retryable {
            "review_idempotency_before_retry"@
        } else {
            "do_not_retry"@
        },
        backoff_strategy: if retryable {
            "exponential_backoff"@
        } else {
            "no_retry"@
        },
        minimum_backoff_ms: if retryable {
            Some(DEFAULT_BACKOFF_BASE_MS)
        } else {
            None
        },
        suggested_action: if retryable {
            "review_idempotency_then_retry_with_backoff"@
        } else {
            "inspect_soap_fault_detail"@
        },
        status_code: Some(status_code),
        details: fault_details(fault),
    }
}

/// A text, or the other.
fn either(first: bool, a: &str, b: &str) -> (s: String)
    ensures
        s@ == (if first {
            a@
        } else {
            b@
        }),
{
    if first {
        a.to_owned()
    } else {
        b.to_owned()
    }
}

/// Maps a fault to the error that marks the call as failed. A fault of the
/// receiver may be retried, with backoff and once it is sure that repeating
/// the request does no harm; a fault of the sender may not.
pub fn soap_fault_downstream_error(fault: &SoapFault, status_code: u16) -> (error:
    DownstreamHttpError)
    ensures
        error@ == fault_error(fault@, status_code),
{
    let retryable = fault.is_retryable();
    let message = if trim(&fault.reason).as_str().is_empty() {
        joined("SOAP Fault: ", &fault.code)
    } else {
        fault.reason.clone()
    };
    let mut details = no_members();
    put(&mut details, "faultCode", JsonValue::text(&fault.code));
    put(&mut details, "faultReason", JsonValue::text(&fault.reason));
    put(&mut details, "faultNode", JsonValue::optional_text(borrowed(&fault.node)));
    put(&mut details, "faultRole", JsonValue::optional_text(borrowed(&fault.role)));
    put(&mut details, "faultSubcodes", JsonValue::text_list(&fault.subcodes));
    put(&mut details, "faultDetail", JsonValue::optional_text(borrowed(&fault.detail)));
    DownstreamHttpError {
        kind: "soap_fault".to_owned(),
        code: "mcpg.downstream_soap.fault".to_owned(),
        message,
        retryable,
        retry_class: either(retryable, "with_backoff", "do_not_retry"),
        retry_after_ms: None,
        idempotency_hint: "potentially_non_idempotent".to_owned(),
        caller_retry_decision: either(
            retryable,
            "confirm_idempotency_then_retry_with_backoff",
            "do_not_retry",
        ),
        retry_safety: either(retryable, "review_idempotency_before_retry", "do_not_retry"),
        backoff_strategy: either(retryable, "exponential_backoff", "no_retry"),
        minimum_backoff_ms: if retryable {
            Some(DEFAULT_BACKOFF_BASE_MS)
        } else {
            None
        },
        suggested_action: either(
            retryable,
            "review_idempotency_then_retry_with_backoff",
            "inspect_soap_fault_detail",
        ),
        status_code: Some(status_code),
        details: JsonValue::Object(details),
    }
}

/// A fault as it stands in the result.
pub open spec fn fault_json(fault: Fault) -> Json {
    Json::Object(
        map![
            "code"@ => Json::Text(fault.code),
            "reason"@ => Json::Text(fault.reason),
            "node"@ => json::optional_text_model(fault.node),
            "role"@ => json::optional_text_model(fault.role),
            "detail"@ => json::optional_text_model(fault.detail),
            "subcodes"@ => json::text_list_model(fault.subcodes),
        ],
    )
}

/// A fault as it stands in the result.
fn fault_to_json(fault: &SoapFault) -> (value: JsonValue)
    ensures
        value@ == fault_json(fault@),
{
    let mut members = no_members();
    put(&mut members, "code", JsonValue::text(&fault.code));
    put(&mut members, "reason", JsonValue::text(&fault.reason));
    put(&mut members, "node", JsonValue::optional_text(borrowed(&fault.node)));
    put(&mut members, "role", JsonValue::optional_text(borrowed(&fault.role)));
    put(&mut members, "detail", JsonValue::optional_text(borrowed(&fault.detail)));
    put(&mut members, "subcodes", JsonValue::text_list(&fault.subcodes));
    JsonValue::Object(members)
}

/// All that the result of a call tells.
pub struct Outcome {
    pub tool_name: Seq<char>,
    pub profile_name: Seq<char>,
    pub version: SoapVersion,
    pub soap_action: Option<Seq<char>>,
    pub endpoint: Seq<char>,
    pub request_xml: Seq<char>,
    pub request_headers: Map<Seq<char>, Seq<char>>,
    pub response: Option<Summary>,
    pub response_json: Option<Json>,
    pub response_json_parse_error: Option<Seq<char>>,
    pub fault: Option<Fault>,
    pub downstream_error: Option<Json>,
    pub downstream_errors: Seq<Json>,
    pub error: Option<Seq<char>>,
}

/// A value, `null` where there is none.
pub open spec fn or_null(value: Option<Json>) -> Json {
    match value {
        Some(value) => value,
        None => Json::Null,
    }
}

/// The `request` of a result.
pub open spec fn request_json(
    endpoint: Seq<char>,
    request_xml: Seq<char>,
    request_headers: Map<Seq<char>, Seq<char>>,
) -> Json {
    Json::Object(
        map![
            "endpoint"@ => Json::Text(endpoint),
            "xml"@ => Json::Text(request_xml),
            "headers"@ => json::text_map_model(request_headers),
        ],
    )
}

/// The `response` of a result.
pub open spec fn response_json(
    response: Summary,
    value: Option<Json>,
    parse_error: Option<Seq<char>>,
) -> Json {
    Json::Object(
        map![
            "durationMs"@ => Json::Number(JsonNumber::Unsigned(response.duration_ms)),
            "statusCode"@ => Json::Number(JsonNumber::Unsigned(response.status_code as u64)),
            "contentType"@ => json::optional_text_model(response.content_type),
            "xml"@ => Json::Text(response.body),
            "bodyTruncated"@ => Json::Bool(response.body_truncated),
            "json"@ => or_null(value),
            "jsonParseError"@ => json::optional_text_model(parse_error),
        ],
    )
}

/// The result of a call.
pub open spec fn outcome_json(o: Outcome) -> Json {
    Json::Object(
        map![
            "toolName"@ => Json::Text(o.tool_name),
            "profile"@ => Json::Text(o.profile_name),
            "soapVersion"@ => Json::Text(types::label_of(o.version)),
            "soapAction"@ => json::optional_text_model(o.soap_action),
            "request"@ => request_json(o.endpoint, o.request_xml, o.request_headers),
            "response"@ => match o.response {
                Some(r) => response_json(r, o.response_json, o.response_json_parse_error),
                None => Json::Null,
            },
            "fault"@ => match o.fault {
                Some(fault) => fault_json(fault),
                None => Json::Null,
            },
            "downstreamError"@ => or_null(o.downstream_error),
            "downstreamErrors"@ => Json::Array(o.downstream_errors),
            "error"@ => json::optional_text_model(o.error),
        ],
    )
}

/// A copy of a value, `null` where there is none.
fn copy_or_null(value: Option<&JsonValue>) -> (copy: JsonValue)
    ensures
        copy@ == or_null(json::optional_model(value)),
{
    match value {
        Some(value) => value.clone(),
        None => JsonValue::Null,
    }
}

/// An optional summary.
pub open spec fn optional_summary(o: Option<&HttpResponseSummary>) -> Option<Summary> {
    match o {
        Some(r) => Some(r@),
        None => None,
    }
}

/// An optional fault.
pub open spec fn optional_fault(o: Option<&SoapFault>) -> Option<Fault> {
    match o {
        Some(fault) => Some(fault@),
        None => None,
    }
}

/// Builds the result of a call. `request_xml` is the request envelope, and
/// `request_headers` are the headers that were in effect. The errors come as
/// the values that stand for them; the first slot that is not `null`,
/// `downstreamError`, marks the call as failed.
pub fn build_result_envelope(
    tool_name: &str,
    profile_name: &str,
    version: SoapVersion,
    soap_action: Option<&str>,
    endpoint: &str,
    request_xml: &str,
    request_headers: &StringMap<String>,
    response: Option<&HttpResponseSummary>,
    response_json: Option<&JsonValue>,
    response_json_parse_error: Option<&str>,
    fault: Option<&SoapFault>,
    downstream_error: Option<&JsonValue>,
    downstream_errors: &Vec<JsonValue>,
    error: Option<&str>,
) -> (result: JsonValue)
    ensures
        result@ == outcome_json(
            Outcome {
                tool_name: tool_name@,
                profile_name: profile_name@,
                version,
                soap_action: text::optional_str(soap_action),
                endpoint: endpoint@,
                request_xml: request_xml@,
                request_headers: string_map::texts(request_headers@),
                response: optional_summary(response),
                response_json: json::optional_model(response_json),
                response_json_parse_error: text::optional_str(response_json_parse_error),
                fault: optional_fault(fault),
                downstream_error: json::optional_model(downstream_error),
                downstream_errors: json::array_model(downstream_errors@),
                error: text::optional_str(error),
            },
        ),
{
    let mut request = no_members();
    put(&mut request, "endpoint", JsonValue::text(endpoint));
    put(&mut request, "xml", JsonValue::text(request_xml));
    put(&mut request, "headers", JsonValue::text_map(request_headers));
    let response = match response {
        Some(r) => {
            let mut members = no_members();
            put(
                &mut members,
                "durationMs",
                JsonValue::Number(JsonNumber::Unsigned(r.duration_ms)),
            );
            put(
                &mut members,
                "statusCode",
                JsonValue::Number(JsonNumber::Unsigned(r.status_code as u64)),
            );
            put(
                &mut members,
                "contentType",
                JsonValue::optional_text(borrowed(&r.content_type)),
            );
            put(&mut members, "xml", JsonValue::text(&r.body));
            put(&mut members, "bodyTruncated", JsonValue::Bool(r.body_truncated));
            put(&mut members, "json", copy_or_null(response_json));
            put(
                &mut members,
                "jsonParseError",
                JsonValue::optional_text(response_json_parse_error),
            );
            JsonValue::Object(members)
        },
        None => JsonValue::Null,
    };
    let fault = match fault {
        Some(fault) => fault_to_json(fault),
        None => JsonValue::Null,
    };
    let mut members = no_members();
    put(&mut members, "toolName", JsonValue::text(tool_name));
    put(&mut members, "profile", JsonValue::text(profile_name));
    put(&mut members, "soapVersion", JsonValue::text(version.as_str()));
    put(&mut members, "soapAction", JsonValue::optional_text(soap_action));
    put(&mut members, "request", JsonValue::Object(request));
    put(&mut members, "response", response);
    put(&mut members, "fault", fault);
    put(&mut members, "downstreamError", copy_or_null(downstream_error));
    put(&mut members, "downstreamErrors", json::copy_array(downstream_errors));
    put(&mut members, "error", JsonValue::optional_text(error));
    JsonValue::Object(members)
}

/// Only faults of the receiver are to be retried, and only those come with a
/// time to wait; of all others the caller is told not to.
pub proof fn law_only_receiver_faults_are_retried(fault: Fault, status_code: u16)
    ensures
        fault_error(fault, status_code).retryable <==> fault::is_receiver_code(fault.code),
        fault_error(fault, status_code).minimum_backoff_ms is Some <==> fault::is_receiver_code(
            fault.code,
        ),
        !fault::is_receiver_code(fault.code) ==> fault_error(
            fault,
            status_code,
        ).caller_retry_decision == "do_not_retry"@,
        fault_error(fault, status_code).status_code == Some(status_code),
{
}

/// The error of a fault always says something: its message is never blank.
pub proof fn law_fault_messages_are_not_blank(fault: Fault)
    ensures
        !text::is_blank(fault_message(fault)),
{
    if text::is_blank(fault.reason) {
        reveal_strlit("SOAP Fault: ");
        assert("SOAP Fault: "@.len() == 12 && "SOAP Fault: "@[0] == 'S');
        text::lemma_starts_with_ink(fault_message(fault));
    }
}

/// The keys of a result are different.
proof fn lemma_result_keys()
    ensures
        "toolName"@.len() == 8,
        "profile"@.len() == 7,
        "soapVersion"@.len() == 11,
        "soapAction"@.len() == 10,
        "request"@.len() == 7,
        "response"@.len() == 8,
        "fault"@.len() == 5,
        "downstreamError"@.len() == 15,
        "downstreamErrors"@.len() == 16,
        "error"@.len() == 5,
        "fault"@ != "error"@,
        "profile"@ != "request"@,
        "toolName"@ != "response"@,
{
    reveal_strlit("toolName");
    reveal_strlit("profile");
    reveal_strlit("soapVersion");
    reveal_strlit("soapAction");
    reveal_strlit("request");
    reveal_strlit("response");
    reveal_strlit("fault");
    reveal_strlit("downstreamError");
    reveal_strlit("downstreamErrors");
    reveal_strlit("error");
    assert("toolName"@.len() == 8);
    assert("profile"@.len() == 7);
    assert("soapVersion"@.len() == 11);
    assert("soapAction"@.len() == 10);
    assert("request"@.len() == 7);
    assert("response"@.len() == 8);
    assert("fault"@.len() == 5);
    assert("downstreamError"@.len() == 15);
    assert("downstreamErrors"@.len() == 16);
    assert("error"@.len() == 5);
    assert("error"@[0] == 'e');
    assert("fault"@[0] == 'f');
    assert("profile"@[0] == 'p');
    assert("request"@[0] == 'r');
    assert("response"@[0] == 'r');
    assert("toolName"@[0] == 't');
}

/// The keys of the request and of the response of a result are different.
proof fn lemma_exchange_keys()
    ensures
        "endpoint"@.len() == 8,
        "xml"@.len() == 3,
        "headers"@.len() == 7,
        "durationMs"@.len() == 10,
        "statusCode"@.len() == 10,
        "contentType"@.len() == 11,
        "bodyTruncated"@.len() == 13,
        "json"@.len() == 4,
        "jsonParseError"@.len() == 14,
        "durationMs"@ != "statusCode"@,
{
    reveal_strlit("endpoint");
    reveal_strlit("xml");
    reveal_strlit("headers");
    reveal_strlit("durationMs");
    reveal_strlit("statusCode");
    reveal_strlit("contentType");
    reveal_strlit("bodyTruncated");
    reveal_strlit("json");
    reveal_strlit("jsonParseError");
    assert("endpoint"@.len() == 8);
    assert("xml"@.len() == 3);
    assert("headers"@.len() == 7);
    assert("durationMs"@.len() == 10);
    assert("statusCode"@.len() == 10);
    assert("contentType"@.len() == 11);
    assert("bodyTruncated"@.len() == 13);
    assert("json"@.len() == 4);
    assert("jsonParseError"@.len() == 14);
    assert("durationMs"@[0] == 'd');
    assert("statusCode"@[0] == 's');
}

/// The keys of a fault are different.
proof fn lemma_fault_keys()
    ensures
        "code"@.len() == 4,
        "reason"@.len() == 6,
        "node"@.len() == 4,
        "role"@.len() == 4,
        "detail"@.len() == 6,
        "subcodes"@.len() == 8,
        "code"@ != "node"@,
        "code"@ != "role"@,
        "node"@ != "role"@,
        "reason"@ != "detail"@,
{
    reveal_strlit("code");
    reveal_strlit("reason");
    reveal_strlit("node");
    reveal_strlit("role");
    reveal_strlit("detail");
    reveal_strlit("subcodes");
    assert("code"@.len() == 4);
    assert("reason"@.len() == 6);
    assert("node"@.len() == 4);
    assert("role"@.len() == 4);
    assert("detail"@.len() == 6);
    assert("subcodes"@.len() == 8);
    assert("code"@[0] == 'c');
    assert("detail"@[0] == 'd');
    assert("node"@[0] == 'n');
    assert("reason"@[0] == 'r');
    assert("role"@[0] == 'r');
}

/// The keys of the details of a fault's error are different.
proof fn lemma_fault_detail_keys()
    ensures
        "faultCode"@.len() == 9,
        "faultReason"@.len() == 11,
        "faultNode"@.len() == 9,
        "faultRole"@.len() == 9,
        "faultSubcodes"@.len() == 13,
        "faultDetail"@.len() == 11,
        "faultCode"@ != "faultNode"@,
        "faultCode"@ != "faultRole"@,
        "faultNode"@ != "faultRole"@,
        "faultReason"@ != "faultDetail"@,
{
    reveal_strlit("faultCode");
    reveal_strlit("faultReason");
    reveal_strlit("faultNode");
    reveal_strlit("faultRole");
    reveal_strlit("faultSubcodes");
    reveal_strlit("faultDetail");
    assert("faultCode"@.len() == 9);
    assert("faultReason"@.len() == 11);
    assert("faultNode"@.len() == 9);
    assert("faultRole"@.len() == 9);
    assert("faultSubcodes"@.len() == 13);
    assert("faultDetail"@.len() == 11);
    assert("faultCode"@[5] == 'C');
    assert("faultDetail"@[5] == 'D');
    assert("faultNode"@[5] == 'N');
    assert("faultReason"@[5] == 'R');
    assert("faultRole"@[5] == 'R');
}

/// What a result tells: of the call, of the request, of the response where there
/// is one, of the fault where there is one, and of what went wrong.
pub proof fn law_what_a_result_tells(o: Outcome)
    ensures
        ({
            let result = outcome_json(o);
            &&& json::member(result, "toolName"@) == Some(Json::Text(o.tool_name))
            &&& json::member(result, "profile"@) == Some(Json::Text(o.profile_name))
            &&& json::member(result, "soapVersion"@) == Some(
                Json::Text(types::label_of(o.version)),
            )
            &&& json::member(result, "soapAction"@) == Some(
                json::optional_text_model(o.soap_action),
            )
            &&& json::member(result, "request"@) == Some(
                request_json(o.endpoint, o.request_xml, o.request_headers),
            )
            &&& o.response matches Some(r) ==> json::member(result, "response"@) == Some(
                response_json(r, o.response_json, o.response_json_parse_error),
            )
            &&& o.response is None ==> json::member(result, "response"@) == Some(Json::Null)
            &&& o.fault matches Some(f) ==> json::member(result, "fault"@) == Some(fault_json(f))
            &&& o.fault is None ==> json::member(result, "fault"@) == Some(Json::Null)
            &&& o.downstream_error matches Some(e) ==> json::member(result, "downstreamError"@)
                == Some(e)
            &&& o.downstream_error is None ==> json::member(result, "downstreamError"@) == Some(
                Json::Null,
            )
            &&& json::member(result, "downstreamErrors"@) == Some(
                Json::Array(o.downstream_errors),
            )
            &&& json::member(result, "error"@) == Some(json::optional_text_model(o.error))
        }),
{
    lemma_result_keys();
}

/// What a result tells of its request: where it went, the envelope, and the
/// headers.
pub proof fn law_what_a_result_tells_of_the_request(
    endpoint: Seq<char>,
    request_xml: Seq<char>,
    headers: Map<Seq<char>, Seq<char>>,
    name: Seq<char>,
)
    ensures
        ({
            let request = request_json(endpoint, request_xml, headers);
            &&& json::member(request, "endpoint"@) == Some(Json::Text(endpoint))
            &&& json::member(request, "xml"@) == Some(Json::Text(request_xml))
            &&& json::member(request, "headers"@) is Some
            &&& json::member(json::member(request, "headers"@)->0, name) == (
            if headers.contains_key(name) {
                Some(Json::Text(headers[name]))
            } else {
                None
            })
        }),
{
    lemma_exchange_keys();
}

/// What a result tells of its response: how long it took, its status, its content
/// type, its text and whether that is all, and its JSON view, or why there is
/// none.
pub proof fn law_what_a_result_tells_of_the_response(
    response: Summary,
    value: Option<Json>,
    parse_error: Option<Seq<char>>,
)
    ensures
        ({
            let told = response_json(response, value, parse_error);
            &&& json::member(told, "durationMs"@) == Some(
                Json::Number(JsonNumber::Unsigned(response.duration_ms)),
            )
            &&& json::member(told, "statusCode"@) == Some(
                Json::Number(JsonNumber::Unsigned(response.status_code as u64)),
            )
            &&& json::member(told, "contentType"@) == Some(
                json::optional_text_model(response.content_type),
            )
            &&& json::member(told, "xml"@) == Some(Json::Text(response.body))
            &&& json::member(told, "bodyTruncated"@) == Some(Json::Bool(response.body_truncated))
            &&& value matches Some(v) ==> json::member(told, "json"@) == Some(v)
            &&& value is None ==> json::member(told, "json"@) == Some(Json::Null)
            &&& json::member(told, "jsonParseError"@) == Some(
                json::optional_text_model(parse_error),
            )
        }),
{
    lemma_exchange_keys();
}

/// A text is told as a string, a text that is not there as `null`, and a list of
/// texts as the array of its strings.
pub proof fn law_how_texts_are_told(text: Option<Seq<char>>, list: Seq<Seq<char>>)
    ensures
        text matches Some(s) ==> json::optional_text_model(text) == Json::Text(s),
        text is None ==> json::optional_text_model(text) == Json::Null,
        json::text_list_model(list) matches Json::Array(items) && items.len() == list.len()
            && forall|i: int|
            0 <= i < list.len() ==> #[trigger] items[i] == Json::Text(list[i]),
{
}

/// A fault is told part by part, in the result and in the details of its error.
pub proof fn law_faults_are_told_part_by_part(fault: Fault)
    ensures
        ({
            let told = fault_json(fault);
            let details = fault_details(fault);
            &&& json::member(told, "code"@) == Some(Json::Text(fault.code))
            &&& json::member(told, "reason"@) == Some(Json::Text(fault.reason))
            &&& json::member(told, "node"@) == Some(json::optional_text_model(fault.node))
            &&& json::member(told, "role"@) == Some(json::optional_text_model(fault.role))
            &&& json::member(told, "detail"@) == Some(json::optional_text_model(fault.detail))
            &&& json::member(told, "subcodes"@) == Some(json::text_list_model(fault.subcodes))
            &&& json::member(details, "faultCode"@) == json::member(told, "code"@)
            &&& json::member(details, "faultReason"@) == json::member(told, "reason"@)
            &&& json::member(details, "faultNode"@) == json::member(told, "node"@)
            &&& json::member(details, "faultRole"@) == json::member(told, "role"@)
            &&& json::member(details, "faultDetail"@) == json::member(told, "detail"@)
            &&& json::member(details, "faultSubcodes"@) == json::member(told, "subcodes"@)
        }),
{
    lemma_fault_keys();
    lemma_fault_detail_keys();
}

/// The error of a fault: it is told as a fault with its reason, or with its code
/// where there is no reason, with the status and with all parts of the fault. A
/// fault of the receiver may be retried with backoff once repeating the request
/// is known to do no harm, any other may not, and what is advised follows from
/// that alone.
pub proof fn law_the_error_of_a_fault(fault: Fault, status_code: u16)
    ensures
        ({
            let error = fault_error(fault, status_code);
            &&& error.kind == "soap_fault"@
            &&& error.code == "mcpg.downstream_soap.fault"@
            &&& !text::is_blank(fault.reason) ==> error.message == fault.reason
            &&& text::is_blank(fault.reason) ==> error.message == "SOAP Fault: "@ + fault.code
            &&& error.retryable == fault::is_receiver_code(fault.code)
            &&& error.retry_after_ms is None
            &&& error.idempotency_hint == "potentially_non_idempotent"@
            &&& error.status_code == Some(status_code)
            &&& error.details == fault_details(fault)
            &&& error.retryable ==> {
                &&& error.retry_class == "with_backoff"@
                &&& error.caller_retry_decision == "confirm_idempotency_then_retry_with_backoff"@
                &&& error.retry_safety == "review_idempotency_before_retry"@
                &&& error.backoff_strategy == "exponential_backoff"@
                &&& error.minimum_backoff_ms == Some(1_000u64)
                &&& error.suggested_action == "review_idempotency_then_retry_with_backoff"@
            }
            &&& !error.retryable ==> {
                &&& error.retry_class == "do_not_retry"@
                &&& error.caller_retry_decision == "do_not_retry"@
                &&& error.retry_safety == "do_not_retry"@
                &&& error.backoff_strategy == "no_retry"@
                &&& error.minimum_backoff_ms is None
                &&& error.suggested_action == "inspect_soap_fault_detail"@
            }
        }),
{
}

} // verus!
