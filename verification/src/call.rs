//! How a call is carried out.
//!
//! A call alternates between decisions and work that is done elsewhere:
//! looking the binding up, decoding the arguments, rendering templates, HTTP.
//! [`CallState::step`] takes what that work came to and says what to do next.

use crate::call_state::{
    Action, Call, CallAction, CallEvent, CallState, CallView, Draft, DraftView, Event, Origin,
    OriginView, Profile, ProfileView, Report, ReportView, ResolvedClient, SendFailure, State,
};
use crate::envelope;
use crate::envelope::{build_result_envelope, Downstream, DownstreamHttpError, Outcome};
use crate::json;
use crate::json::{no_members, Json, JsonValue};
use crate::outcome;
use crate::outcome::{build_display_headers, host_outcome_label_for_transport_error};
use crate::registration::{invalid, Template};
use crate::request;
use crate::request::{outbound_headers, tool_name, trace_headers, HttpRequest, RequestView};
use crate::response;
use crate::response::{classify, read_response, summarize, Reading, ReadingView, Reply, ReplyView};
use crate::string_map;
use crate::text;
use crate::text::{borrowed, joined};
use crate::types;
use crate::types::{BackendError, Refusal};
use crate::xml;
use crate::xml::{build_envelope, escape_arguments};
use vstd::prelude::*;
use vstd::string::*;

verus! {

broadcast use crate::json::lemma_json_model;

/// What follows a step: the next state, and what to do.
pub type Next = (State, Action);

/// `event` is what a call in `state` waits for.
pub open spec fn awaits(state: State, event: Event) -> bool {
    match state {
        State::Lookup { .. } => event is Profile,
        State::Decode { .. } => event is Arguments,
        State::RenderAction { .. } => event is Rendered,
        State::CheckAction { .. } => event is HeaderValue,
        State::RenderBody { .. } => event is Rendered,
        State::RenderHeader { .. } => event is Rendered,
        State::Resolve { .. } => event is Client,
        State::Send { .. } => event is Response,
        State::CheckStatus { .. } => event is StatusError,
        State::Encode { .. } => event is Encoded,
        State::Done => false,
    }
}

/// A refusal ends the call.
pub open spec fn refused(error: Refusal, label: Seq<char>) -> Next {
    (State::Done, Action::Finish { report: ReportView::Refused { error, label } })
}

/// A response that holds nothing.
pub open spec fn nothing_read() -> ReadingView {
    ReadingView { fault: None, response_json: None, json_parse_error: None }
}

/// A failure before the client was ready. The result shows the endpoint and
/// the headers as they are configured.
pub open spec fn failed(
    call: CallView,
    soap_action: Option<Seq<char>>,
    request_xml: Seq<char>,
    message: Seq<char>,
    label: Seq<char>,
) -> Next {
    (
        State::Encode {
            draft: DraftView {
                origin: call.origin,
                version: call.profile.version,
                soap_action,
                endpoint: call.profile.url,
                request_xml,
                request_headers: call.profile.headers,
                response: None,
                reading: nothing_read(),
                error: Some(message),
                label,
                reason: Some(message),
            },
        },
        Action::EncodeFailure { message },
    )
}

/// The body comes next, rendered with escaped arguments.
pub open spec fn body_next(call: CallView, action: Option<Seq<char>>) -> Next {
    (
        State::RenderBody { call, action },
        Action::Render {
            template: Template::Body,
            arguments: call.escaped,
            tool_name: call.origin.tool_name,
        },
    )
}

/// The arguments are known. The action, where there is one, comes next,
/// rendered with the arguments as they are; else the body.
pub open spec fn arguments_known(
    origin: OriginView,
    profile: ProfileView,
    arguments: Json,
) -> Next {
    let call = CallView { origin, profile, arguments, escaped: xml::escaped_json(arguments) };
    if profile.has_action {
        (
            State::RenderAction { call },
            Action::Render {
                template: Template::Action,
                arguments,
                tool_name: origin.tool_name,
            },
        )
    } else {
        body_next(call, None)
    }
}

/// The envelope is complete. The client comes next.
pub open spec fn client_next(
    call: CallView,
    action: Option<Seq<char>>,
    header: Option<Seq<char>>,
    body: Seq<char>,
) -> Next {
    (
        State::Resolve {
            call,
            action,
            request_xml: xml::envelope_of(call.profile.version, header, body),
        },
        Action::ResolveClient {
            arguments: call.arguments,
            tool_name: call.origin.tool_name,
        },
    )
}

/// The client is ready. The request is sent.
pub open spec fn sent(
    call: CallView,
    action: Option<Seq<char>>,
    request_xml: Seq<char>,
    url: Seq<char>,
    headers: Map<Seq<char>, Seq<char>>,
) -> Next {
    let content_type = types::content_type_of(call.profile.version, action);
    let action_header = types::action_header_of(call.profile.version, action);
    (
        State::Send {
            call,
            action,
            request_xml,
            url,
            headers: outcome::display_headers(headers, content_type, action_header),
        },
        Action::Send {
            request: RequestView {
                url,
                headers: request::call_headers(
                    content_type,
                    action_header,
                    call.origin.trace_headers,
                ),
                body: request_xml,
                max_response_bytes: call.profile.max_response_bytes,
            },
        },
    )
}

/// What the result tells of the request, once it was sent.
pub open spec fn sent_draft(
    call: CallView,
    action: Option<Seq<char>>,
    request_xml: Seq<char>,
    url: Seq<char>,
    headers: Map<Seq<char>, Seq<char>>,
) -> DraftView {
    DraftView {
        origin: call.origin,
        version: call.profile.version,
        soap_action: action,
        endpoint: url,
        request_xml,
        request_headers: headers,
        response: None,
        reading: nothing_read(),
        error: None,
        label: "ok"@,
        reason: None,
    }
}

/// The exchange failed.
pub open spec fn not_answered(draft: DraftView, message: Seq<char>) -> Next {
    (
        State::Encode {
            draft: DraftView {
                error: Some(message),
                label: outcome::transport_label(message),
                reason: Some(message),
                ..draft
            },
        },
        Action::EncodeFailure { message },
    )
}

/// A response is classified: an error is encoded before the call ends.
pub open spec fn classified(
    draft: DraftView,
    status_code: u16,
    status_error: Option<Downstream>,
) -> Next {
    let label = response::response_label(draft.reading.fault, status_code, status_error);
    match response::error_of(draft.reading.fault, status_code, status_error) {
        Some(error) => (
            State::Encode {
                draft: DraftView { label, reason: Some(error.message), ..draft },
            },
            Action::EncodeError { error },
        ),
        None => (
            State::Done,
            Action::Finish { report: answered(DraftView { label, ..draft }, None) },
        ),
    }
}

/// A response is there. One with a fault is classified at once; of another
/// the status is checked first.
pub open spec fn answered_with(draft: DraftView, reply: ReplyView) -> Next {
    let summary = response::summary_of(reply);
    let read = DraftView {
        response: Some(summary),
        reading: response::reading_of(summary.body),
        ..draft
    };
    if read.reading.fault is Some {
        classified(read, summary.status_code, None)
    } else {
        (
            State::CheckStatus { draft: read, status_code: summary.status_code },
            Action::CheckStatus {
                status_code: summary.status_code,
                retry_after_ms: summary.retry_after_ms,
            },
        )
    }
}

/// The result that a draft makes, with the value of its error.
pub open spec fn result_of(draft: DraftView, error: Option<Json>) -> Json {
    envelope::outcome_json(
        Outcome {
            tool_name: draft.origin.tool_name,
            profile_name: draft.origin.backend_name,
            version: draft.version,
            soap_action: draft.soap_action,
            endpoint: draft.endpoint,
            request_xml: draft.request_xml,
            request_headers: draft.request_headers,
            response: draft.response,
            response_json: draft.reading.response_json,
            response_json_parse_error: draft.reading.json_parse_error,
            fault: draft.reading.fault,
            downstream_error: error,
            downstream_errors: match error {
                Some(value) => seq![value],
                None => Seq::empty(),
            },
            error: draft.error,
        },
    )
}

/// The report of a call that is answered.
pub open spec fn answered(draft: DraftView, error: Option<Json>) -> ReportView {
    ReportView::Answered {
        result: result_of(draft, error),
        label: draft.label,
        status_code: match draft.response {
            Some(response) => Some(response.status_code),
            None => None,
        },
        reason: draft.reason,
    }
}

/// What follows when a call in `state` learns of `event`.
pub open spec fn next(state: State, event: Event) -> Next {
    match (state, event) {
        (State::Lookup { origin, payload }, Event::Profile(found)) => match found {
            None => refused(
                Refusal::ProfileNotFound(origin.backend_name),
                "profile_not_found"@,
            ),
            Some(profile) => if payload.len() == 0 {
                arguments_known(origin, profile, Json::Object(Map::empty()))
            } else {
                (State::Decode { origin, profile }, Action::Decode { payload })
            },
        },
        (State::Decode { origin, profile }, Event::Arguments(decoded)) => match decoded {
            Ok(arguments) => arguments_known(origin, profile, arguments),
            Err(e) => refused(
                Refusal::InvalidSpec("SOAP plugin payload is not valid JSON: "@ + e),
                "invalid_spec"@,
            ),
        },
        (State::RenderAction { call }, Event::Rendered(rendered)) => match rendered {
            Ok(action) => (
                State::CheckAction { call, action },
                Action::CheckHeaderValue { value: action },
            ),
            Err(e) => failed(
                call,
                None,
                Seq::empty(),
                "evaluating soap_action: "@ + e,
                "invalid_spec"@,
            ),
        },
        (State::CheckAction { call, action }, Event::HeaderValue(checked)) => match checked {
            Ok(()) => body_next(call, Some(action)),
            Err(e) => failed(
                call,
                Some(action),
                Seq::empty(),
                "soap_action: "@ + e,
                "invalid_spec"@,
            ),
        },
        (State::RenderBody { call, action }, Event::Rendered(rendered)) => match rendered {
            Ok(body) => if call.profile.has_header {
                (
                    State::RenderHeader { call, action, body },
                    Action::Render {
                        template: Template::Header,
                        arguments: call.escaped,
                        tool_name: call.origin.tool_name,
                    },
                )
            } else {
                client_next(call, action, None, body)
            },
            Err(e) => failed(
                call,
                action,
                Seq::empty(),
                "evaluating body_template: "@ + e,
                "invalid_spec"@,
            ),
        },
        (State::RenderHeader { call, action, body }, Event::Rendered(rendered)) => match rendered {
            Ok(header) => client_next(call, action, Some(header), body),
            Err(e) => failed(
                call,
                action,
                Seq::empty(),
                "evaluating header_template: "@ + e,
                "invalid_spec"@,
            ),
        },
        (State::Resolve { call, action, request_xml }, Event::Client(client)) => match client {
            Ok((url, headers)) => sent(call, action, request_xml, url, headers),
            Err(e) => failed(call, action, request_xml, e, outcome::transport_label(e)),
        },
        (
            State::Send { call, action, request_xml, url, headers },
            Event::Response(reply),
        ) => match reply {
            Ok(reply) => answered_with(sent_draft(call, action, request_xml, url, headers), reply),
            Err(e) => not_answered(sent_draft(call, action, request_xml, url, headers), e),
        },
        (State::CheckStatus { draft, status_code }, Event::StatusError(error)) => classified(
            draft,
            status_code,
            error,
        ),
        (State::Encode { draft }, Event::Encoded(value)) => (
            State::Done,
            Action::Finish { report: answered(draft, Some(value)) },
        ),
        _ => arbitrary(),
    }
}

/// A call begins with looking its binding up. `headers` and `payload` are
/// those of the request.
pub fn start(backend_name: &str, headers: &Vec<(String, String)>, payload: Vec<u8>) -> (state:
    CallState)
    ensures
        state@ == (State::Lookup {
            origin: OriginView {
                backend_name: backend_name@,
                tool_name: request::tool_of(text::pairs(headers@), backend_name@),
                trace_headers: request::trace_fields(text::pairs(headers@)),
            },
            payload: payload@,
        }),
{
    CallState::Lookup {
        origin: Origin {
            backend_name: backend_name.to_owned(),
            tool_name: tool_name(headers, backend_name),
            trace_headers: trace_headers(headers),
        },
        payload,
    }
}

/// The error for a result that could not be written out; `e` says why.
pub fn serialization_failed(e: &str) -> (error: BackendError)
    ensures
        error@ == Refusal::Transport("SOAP plugin envelope serialization failed: "@ + e@),
{
    BackendError::Transport {
        message: joined("SOAP plugin envelope serialization failed: ", e),
    }
}

/// A response that holds nothing.
fn no_reading() -> (reading: Reading)
    ensures
        reading@ == nothing_read(),
{
    Reading { fault: None, response_json: None, json_parse_error: None }
}

/// Ends the call with a refusal.
fn refuse(error: BackendError, label: &'static str) -> (then: (CallState, CallAction))
    ensures
        (then.0@, then.1@) == refused(error@, label@),
{
    (CallState::Done, CallAction::Finish { report: Report::Refused { error, label } })
}

/// Goes on after a failure before the client was ready.
fn fail(
    call: Call,
    soap_action: Option<String>,
    request_xml: String,
    message: String,
    label: &'static str,
) -> (then: (CallState, CallAction))
    ensures
        (then.0@, then.1@) == failed(
            call@,
            text::optional(soap_action),
            request_xml@,
            message@,
            label@,
        ),
{
    let draft = Draft {
        origin: call.origin,
        version: call.profile.version,
        soap_action,
        endpoint: call.profile.url,
        request_xml,
        request_headers: call.profile.headers,
        response: None,
        reading: no_reading(),
        error: Some(message.clone()),
        label,
        reason: Some(message.clone()),
    };
    (CallState::Encode { draft }, CallAction::EncodeFailure { message })
}

/// Goes on to the body.
fn to_body(call: Call, action: Option<String>) -> (then: (CallState, CallAction))
    ensures
        (then.0@, then.1@) == body_next(call@, text::optional(action)),
{
    let arguments = call.escaped.clone();
    let tool_name = call.origin.tool_name.clone();
    (
        CallState::RenderBody { call, action },
        CallAction::Render { template: Template::Body, arguments, tool_name },
    )
}

/// Goes on once the arguments are known.
fn with_arguments(origin: Origin, profile: Profile, arguments: JsonValue) -> (then: (
    CallState,
    CallAction,
))
    ensures
        (then.0@, then.1@) == arguments_known(origin@, profile@, arguments@),
{
    let escaped = escape_arguments(&arguments);
    let call = Call { origin, profile, arguments, escaped };
    if call.profile.has_action {
        let arguments = call.arguments.clone();
        let tool_name = call.origin.tool_name.clone();
        (
            CallState::RenderAction { call },
            CallAction::Render { template: Template::Action, arguments, tool_name },
        )
    } else {
        to_body(call, None)
    }
}

/// Goes on to the client once the envelope can be built.
fn to_client(call: Call, action: Option<String>, header: Option<String>, body: String) -> (then: (
    CallState,
    CallAction,
))
    ensures
        (then.0@, then.1@) == client_next(
            call@,
            text::optional(action),
            text::optional(header),
            body@,
        ),
{
    let request_xml = build_envelope(call.profile.version, borrowed(&header), &body);
    let arguments = call.arguments.clone();
    let tool_name = call.origin.tool_name.clone();
    (
        CallState::Resolve { call, action, request_xml },
        CallAction::ResolveClient { arguments, tool_name },
    )
}

/// Sends the request once the client is ready.
fn send(
    call: Call,
    action: Option<String>,
    request_xml: String,
    client: ResolvedClient,
) -> (then: (CallState, CallAction))
    ensures
        (then.0@, then.1@) == sent(
            call@,
            text::optional(action),
            request_xml@,
            client.url@,
            string_map::texts(client.headers@),
        ),
{
    let content_type = call.profile.version.content_type(borrowed(&action));
    let action_header = call.profile.version.soap_action_header(borrowed(&action));
    let request = HttpRequest {
        url: client.url.clone(),
        headers: outbound_headers(
            &content_type,
            borrowed(&action_header),
            &call.origin.trace_headers,
        ),
        body: request_xml.clone(),
        max_response_bytes: call.profile.max_response_bytes,
    };
    let headers = build_display_headers(&client.headers, &content_type, borrowed(&action_header));
    (
        CallState::Send { call, action, request_xml, url: client.url, headers },
        CallAction::Send { request },
    )
}

/// The report of a call that is answered.
fn answer(draft: Draft, error: Option<JsonValue>) -> (report: Report)
    ensures
        report@ == answered(draft@, response::optional_json(error)),
{
    let mut errors: Vec<JsonValue> = Vec::new();
    if let Some(value) = &error {
        errors.push(value.clone());
    }
    assert(json::array_model(errors@) =~= (match response::optional_json(error) {
        Some(value) => seq![value],
        None => Seq::empty(),
    }));
    let result = build_result_envelope(
        &draft.origin.tool_name,
        &draft.origin.backend_name,
        draft.version,
        borrowed(&draft.soap_action),
        &draft.endpoint,
        &draft.request_xml,
        &draft.request_headers,
        draft.response.as_ref(),
        draft.reading.response_json.as_ref(),
        borrowed(&draft.reading.json_parse_error),
        draft.reading.fault.as_ref(),
        error.as_ref(),
        &errors,
        borrowed(&draft.error),
    );
    let status_code = match &draft.response {
        Some(response) => Some(response.status_code),
        None => None,
    };
    Report::Answered { result, label: draft.label, status_code, reason: draft.reason }
}

/// Goes on once a response can be classified.
fn conclude(draft: Draft, status_code: u16, status_error: Option<DownstreamHttpError>) -> (then: (
    CallState,
    CallAction,
))
    ensures
        (then.0@, then.1@) == classified(
            draft@,
            status_code,
            response::optional_error(status_error),
        ),
{
    let found = classify(draft.reading.fault.as_ref(), status_code, status_error);
    let mut draft = draft;
    draft.label = found.outcome_label;
    match found.downstream_error {
        Some(error) => {
            draft.reason = Some(error.message.clone());
            (CallState::Encode { draft }, CallAction::EncodeError { error })
        },
        None => (CallState::Done, CallAction::Finish { report: answer(draft, None) }),
    }
}

/// Goes on once there is a response.
fn read(draft: Draft, reply: Reply) -> (then: (CallState, CallAction))
    ensures
        (then.0@, then.1@) == answered_with(draft@, reply@),
{
    let summary = summarize(reply);
    let status_code = summary.status_code;
    let retry_after_ms = summary.retry_after_ms;
    let reading = read_response(&summary.body, draft.version);
    let has_fault = reading.fault.is_some();
    let mut draft = draft;
    draft.reading = reading;
    draft.response = Some(summary);
    if has_fault {
        conclude(draft, status_code, None)
    } else {
        (
            CallState::CheckStatus { draft, status_code },
            CallAction::CheckStatus { status_code, retry_after_ms },
        )
    }
}

impl CallState {
    /// Takes what the call waits for, and says what to do next.
    pub fn step(self, event: CallEvent) -> (then: (CallState, CallAction))
        requires
            awaits(self@, event@),
        ensures
            (then.0@, then.1@) == next(self@, event@),
    {
        match (self, event) {
            (CallState::Lookup { origin, payload }, CallEvent::Profile(found)) => match found {
                None => refuse(
                    BackendError::ProfileNotFound { backend_name: origin.backend_name },
                    "profile_not_found",
                ),
                Some(profile) => {
                    if payload.len() == 0 {
                        let members = no_members();
                        with_arguments(origin, profile, JsonValue::Object(members))
                    } else {
                        (CallState::Decode { origin, profile }, CallAction::Decode { payload })
                    }
                },
            },
            (CallState::Decode { origin, profile }, CallEvent::Arguments(decoded)) => {
                match decoded {
                    Ok(arguments) => with_arguments(origin, profile, arguments),
                    Err(e) => refuse(
                        invalid(joined("SOAP plugin payload is not valid JSON: ", &e)),
                        "invalid_spec",
                    ),
                }
            },
            (CallState::RenderAction { call }, CallEvent::Rendered(rendered)) => match rendered {
                Ok(action) => {
                    let value = action.clone();
                    (
                        CallState::CheckAction { call, action },
                        CallAction::CheckHeaderValue { value },
                    )
                },
                Err(e) => fail(
                    call,
                    None,
                    String::new(),
                    joined("evaluating soap_action: ", &e),
                    "invalid_spec",
                ),
            },
            (CallState::CheckAction { call, action }, CallEvent::HeaderValue(checked)) => {
                match checked {
                    Ok(()) => to_body(call, Some(action)),
                    Err(e) => fail(
                        call,
                        Some(action),
                        String::new(),
                        joined("soap_action: ", &e),
                        "invalid_spec",
                    ),
                }
            },
            (CallState::RenderBody { call, action }, CallEvent::Rendered(rendered)) => {
                match rendered {
                    Ok(body) => {
                        if call.profile.has_header {
                            let arguments = call.escaped.clone();
                            let tool_name = call.origin.tool_name.clone();
                            (
                                CallState::RenderHeader { call, action, body },
                                CallAction::Render {
                                    template: Template::Header,
                                    arguments,
                                    tool_name,
                                },
                            )
                        } else {
                            to_client(call, action, None, body)
                        }
                    },
                    Err(e) => fail(
                        call,
                        action,
                        String::new(),
                        joined("evaluating body_template: ", &e),
                        "invalid_spec",
                    ),
                }
            },
            (CallState::RenderHeader { call, action, body }, CallEvent::Rendered(rendered)) => {
                match rendered {
                    Ok(header) => to_client(call, action, Some(header), body),
                    Err(e) => fail(
                        call,
                        action,
                        String::new(),
                        joined("evaluating header_template: ", &e),
                        "invalid_spec",
                    ),
                }
            },
            (CallState::Resolve { call, action, request_xml }, CallEvent::Client(client)) => {
                match client {
                    Ok(client) => send(call, action, request_xml, client),
                    Err(e) => {
                        let label = host_outcome_label_for_transport_error(&e);
                        fail(call, action, request_xml, e, label)
                    },
                }
            },
            (
                CallState::Send { call, action, request_xml, url, headers },
                CallEvent::Response(reply),
            ) => {
                let draft = Draft {
                    origin: call.origin,
                    version: call.profile.version,
                    soap_action: action,
                    endpoint: url,
                    request_xml,
                    request_headers: headers,
                    response: None,
                    reading: no_reading(),
                    error: None,
                    label: "ok",
                    reason: None,
                };
                match reply {
                    Ok(reply) => read(draft, reply),
                    Err(failure) => {
                        let message = match failure {
                            SendFailure::Request(e) => joined("SOAP request failed: ", &e),
                            SendFailure::Body(e) => e,
                        };
                        let mut draft = draft;
                        draft.error = Some(message.clone());
                        draft.label = host_outcome_label_for_transport_error(&message);
                        draft.reason = Some(message.clone());
                        (CallState::Encode { draft }, CallAction::EncodeFailure { message })
                    },
                }
            },
            (CallState::CheckStatus { draft, status_code }, CallEvent::StatusError(error)) => {
                conclude(draft, status_code, error)
            },
            (CallState::Encode { draft }, CallEvent::Encoded(value)) => (
                CallState::Done,
                CallAction::Finish { report: answer(draft, Some(value)) },
            ),
            _ => unreached(),
        }
    }
}

} // verus!
