//! The states of a call, what it waits for, and what it asks for.

use crate::envelope::{Downstream, DownstreamHttpError};
use crate::json::{Json, JsonValue};
use crate::registration::Template;
use crate::request;
use crate::request::{HttpRequest, RequestView};
use crate::response;
use crate::response::{Reading, ReadingView, Reply, ReplyView};
use crate::string_map;
use crate::string_map::StringMap;
use crate::text;
use crate::types::{BackendError, HttpResponseSummary, Refusal, SoapVersion, Summary};
use vstd::prelude::*;
use vstd::string::*;

verus! {

/// What a call needs to know of its binding.
#[derive(Debug)]
pub struct Profile {
    /// The SOAP version.
    pub version: SoapVersion,
    /// The endpoint as it is configured.
    pub url: String,
    /// The headers as they are configured.
    pub headers: StringMap<String>,
    /// Whether there is an action.
    pub has_action: bool,
    /// Whether there is a header template.
    pub has_header: bool,
    /// How many bytes of a response are read at most.
    pub max_response_bytes: usize,
}

/// A [`Profile`] in terms of what its parts stand for.
pub struct ProfileView {
    pub version: SoapVersion,
    pub url: Seq<char>,
    pub headers: Map<Seq<char>, Seq<char>>,
    pub has_action: bool,
    pub has_header: bool,
    pub max_response_bytes: usize,
}

impl View for Profile {
    type V = ProfileView;

    open spec fn view(&self) -> ProfileView {
        ProfileView {
            version: self.version,
            url: self.url@,
            headers: string_map::texts(self.headers@),
            has_action: self.has_action,
            has_header: self.has_header,
            max_response_bytes: self.max_response_bytes,
        }
    }
}

/// Where a call comes from.
#[derive(Debug, PartialEq, Eq)]
pub struct Origin {
    /// The binding that is called.
    pub backend_name: String,
    /// The tool that the call is for.
    pub tool_name: String,
    /// The trace headers to pass on.
    pub trace_headers: Vec<(String, String)>,
}

/// An [`Origin`] in terms of character sequences.
pub struct OriginView {
    pub backend_name: Seq<char>,
    pub tool_name: Seq<char>,
    pub trace_headers: request::Fields,
}

impl View for Origin {
    type V = OriginView;

    open spec fn view(&self) -> OriginView {
        OriginView {
            backend_name: self.backend_name@,
            tool_name: self.tool_name@,
            trace_headers: text::pairs(self.trace_headers@),
        }
    }
}

/// A call with its arguments.
#[derive(Debug)]
pub struct Call {
    pub origin: Origin,
    pub profile: Profile,
    /// The arguments as the caller gave them.
    pub arguments: JsonValue,
    /// The arguments, escaped for XML.
    pub escaped: JsonValue,
}

/// A [`Call`] in terms of what its parts stand for.
pub struct CallView {
    pub origin: OriginView,
    pub profile: ProfileView,
    pub arguments: Json,
    pub escaped: Json,
}

impl View for Call {
    type V = CallView;

    open spec fn view(&self) -> CallView {
        CallView {
            origin: self.origin@,
            profile: self.profile@,
            arguments: self.arguments@,
            escaped: self.escaped@,
        }
    }
}

/// A result that lacks nothing but its error.
#[derive(Debug)]
pub struct Draft {
    pub origin: Origin,
    pub version: SoapVersion,
    pub soap_action: Option<String>,
    pub endpoint: String,
    pub request_xml: String,
    pub request_headers: StringMap<String>,
    pub response: Option<HttpResponseSummary>,
    pub reading: Reading,
    /// What went wrong before there was a response.
    pub error: Option<String>,
    /// The label under which the call is counted.
    pub label: &'static str,
    /// Why the call failed.
    pub reason: Option<String>,
}

/// A [`Draft`] in terms of what its parts stand for.
pub struct DraftView {
    pub origin: OriginView,
    pub version: SoapVersion,
    pub soap_action: Option<Seq<char>>,
    pub endpoint: Seq<char>,
    pub request_xml: Seq<char>,
    pub request_headers: Map<Seq<char>, Seq<char>>,
    pub response: Option<Summary>,
    pub reading: ReadingView,
    pub error: Option<Seq<char>>,
    pub label: Seq<char>,
    pub reason: Option<Seq<char>>,
}

/// An optional summary.
pub open spec fn optional_summary(o: Option<HttpResponseSummary>) -> Option<Summary> {
    match o {
        Some(r) => Some(r@),
        None => None,
    }
}

impl View for Draft {
    type V = DraftView;

    open spec fn view(&self) -> DraftView {
        DraftView {
            origin: self.origin@,
            version: self.version,
            soap_action: text::optional(self.soap_action),
            endpoint: self.endpoint@,
            request_xml: self.request_xml@,
            request_headers: string_map::texts(self.request_headers@),
            response: optional_summary(self.response),
            reading: self.reading@,
            error: text::optional(self.error),
            label: self.label@,
            reason: text::optional(self.reason),
        }
    }
}

/// How a call ends.
#[derive(Debug, PartialEq, Eq)]
pub enum Report {
    /// The call is refused. The error is also the reason to audit.
    Refused { error: BackendError, label: &'static str },
    /// The call is answered, be it with an error of the service.
    Answered {
        result: JsonValue,
        label: &'static str,
        status_code: Option<u16>,
        reason: Option<String>,
    },
}

/// A [`Report`] in terms of what its parts stand for.
pub enum ReportView {
    Refused { error: Refusal, label: Seq<char> },
    Answered {
        result: Json,
        label: Seq<char>,
        status_code: Option<u16>,
        reason: Option<Seq<char>>,
    },
}

impl View for Report {
    type V = ReportView;

    open spec fn view(&self) -> ReportView {
        match *self {
            Report::Refused { error, label } => ReportView::Refused {
                error: error@,
                label: label@,
            },
            Report::Answered { result, label, status_code, reason } => ReportView::Answered {
                result: result@,
                label: label@,
                status_code,
                reason: text::optional(reason),
            },
        }
    }
}

/// A client that is ready to send.
#[derive(Debug)]
pub struct ResolvedClient {
    /// The endpoint, its template rendered.
    pub url: String,
    /// The headers that the client sends of itself.
    pub headers: StringMap<String>,
}

/// Why there is no response.
#[derive(Debug, PartialEq, Eq)]
pub enum SendFailure {
    /// The request was not answered.
    Request(String),
    /// The body of the answer could not be read.
    Body(String),
}

/// The message of a failure.
pub open spec fn failure_message(failure: SendFailure) -> Seq<char> {
    match failure {
        SendFailure::Request(e) => "SOAP request failed: "@ + e@,
        SendFailure::Body(e) => e@,
    }
}

/// How far a call has come: what it waits for.
#[derive(Debug)]
pub enum CallState {
    /// The binding is being looked up.
    Lookup { origin: Origin, payload: Vec<u8> },
    /// The arguments are being decoded.
    Decode { origin: Origin, profile: Profile },
    /// The action is being rendered.
    RenderAction { call: Call },
    /// It is being checked whether the action can be a header value.
    CheckAction { call: Call, action: String },
    /// The body is being rendered.
    RenderBody { call: Call, action: Option<String> },
    /// The header is being rendered.
    RenderHeader { call: Call, action: Option<String>, body: String },
    /// The client is being made ready.
    Resolve { call: Call, action: Option<String>, request_xml: String },
    /// The request is under way.
    Send {
        call: Call,
        action: Option<String>,
        request_xml: String,
        url: String,
        headers: StringMap<String>,
    },
    /// The status of the response is being checked.
    CheckStatus { draft: Draft, status_code: u16 },
    /// The value that stands for the error is being made.
    Encode { draft: Draft },
    /// The call has ended.
    Done,
}

/// A [`CallState`] in terms of what its parts stand for.
pub enum State {
    Lookup { origin: OriginView, payload: Seq<u8> },
    Decode { origin: OriginView, profile: ProfileView },
    RenderAction { call: CallView },
    CheckAction { call: CallView, action: Seq<char> },
    RenderBody { call: CallView, action: Option<Seq<char>> },
    RenderHeader { call: CallView, action: Option<Seq<char>>, body: Seq<char> },
    Resolve { call: CallView, action: Option<Seq<char>>, request_xml: Seq<char> },
    Send {
        call: CallView,
        action: Option<Seq<char>>,
        request_xml: Seq<char>,
        url: Seq<char>,
        headers: Map<Seq<char>, Seq<char>>,
    },
    CheckStatus { draft: DraftView, status_code: u16 },
    Encode { draft: DraftView },
    Done,
}

impl View for CallState {
    type V = State;

    open spec fn view(&self) -> State {
        match *self {
            CallState::Lookup { origin, payload } => State::Lookup {
                origin: origin@,
                payload: payload@,
            },
            CallState::Decode { origin, profile } => State::Decode {
                origin: origin@,
                profile: profile@,
            },
            CallState::RenderAction { call } => State::RenderAction { call: call@ },
            CallState::CheckAction { call, action } => State::CheckAction {
                call: call@,
                action: action@,
            },
            CallState::RenderBody { call, action } => State::RenderBody {
                call: call@,
                action: text::optional(action),
            },
            CallState::RenderHeader { call, action, body } => State::RenderHeader {
                call: call@,
                action: text::optional(action),
                body: body@,
            },
            CallState::Resolve { call, action, request_xml } => State::Resolve {
                call: call@,
                action: text::optional(action),
                request_xml: request_xml@,
            },
            CallState::Send { call, action, request_xml, url, headers } => State::Send {
                call: call@,
                action: text::optional(action),
                request_xml: request_xml@,
                url: url@,
                headers: string_map::texts(headers@),
            },
            CallState::CheckStatus { draft, status_code } => State::CheckStatus {
                draft: draft@,
                status_code,
            },
            CallState::Encode { draft } => State::Encode { draft: draft@ },
            CallState::Done => State::Done,
        }
    }
}

/// What work elsewhere came to.
#[derive(Debug)]
pub enum CallEvent {
    /// The binding, where there is one of that name.
    Profile(Option<Profile>),
    /// The arguments, or why the payload is not JSON.
    Arguments(Result<JsonValue, String>),
    /// The text that a template renders to, or why it renders to none.
    Rendered(Result<String, String>),
    /// Whether a text can be a header value, or why not.
    HeaderValue(Result<(), String>),
    /// The client, or why there is none.
    Client(Result<ResolvedClient, String>),
    /// The response, or why there is none.
    Response(Result<Reply, SendFailure>),
    /// What is wrong with a status, if anything is.
    StatusError(Option<DownstreamHttpError>),
    /// The value that stands for an error.
    Encoded(JsonValue),
}

/// A [`CallEvent`] in terms of what its parts stand for.
pub enum Event {
    Profile(Option<ProfileView>),
    Arguments(Result<Json, Seq<char>>),
    Rendered(Result<Seq<char>, Seq<char>>),
    HeaderValue(Result<(), Seq<char>>),
    Client(Result<(Seq<char>, Map<Seq<char>, Seq<char>>), Seq<char>>),
    Response(Result<ReplyView, Seq<char>>),
    StatusError(Option<Downstream>),
    Encoded(Json),
}

impl View for CallEvent {
    type V = Event;

    open spec fn view(&self) -> Event {
        match *self {
            CallEvent::Profile(p) => Event::Profile(
                match p {
                    Some(p) => Some(p@),
                    None => None,
                },
            ),
            CallEvent::Arguments(r) => Event::Arguments(
                match r {
                    Ok(v) => Ok(v@),
                    Err(e) => Err(e@),
                },
            ),
            CallEvent::Rendered(r) => Event::Rendered(
                match r {
                    Ok(s) => Ok(s@),
                    Err(e) => Err(e@),
                },
            ),
            CallEvent::HeaderValue(r) => Event::HeaderValue(
                match r {
                    Ok(()) => Ok(()),
                    Err(e) => Err(e@),
                },
            ),
            CallEvent::Client(r) => Event::Client(
                match r {
                    Ok(c) => Ok((c.url@, string_map::texts(c.headers@))),
                    Err(e) => Err(e@),
                },
            ),
            CallEvent::Response(r) => Event::Response(
                match r {
                    Ok(reply) => Ok(reply@),
                    Err(failure) => Err(failure_message(failure)),
                },
            ),
            CallEvent::StatusError(e) => Event::StatusError(response::optional_error(e)),
            CallEvent::Encoded(v) => Event::Encoded(v@),
        }
    }
}

/// What to do next.
#[derive(Debug)]
pub enum CallAction {
    /// Decode the payload as JSON.
    Decode { payload: Vec<u8> },
    /// Render a template with these arguments, for this tool.
    Render { template: Template, arguments: JsonValue, tool_name: String },
    /// Check whether this can be the value of a `SOAPAction` header.
    CheckHeaderValue { value: String },
    /// Make the client ready, the endpoint and the headers rendered with
    /// these arguments, for this tool.
    ResolveClient { arguments: JsonValue, tool_name: String },
    /// Send this request.
    Send { request: HttpRequest },
    /// Check a status.
    CheckStatus { status_code: u16, retry_after_ms: Option<u64> },
    /// Make the value that stands for a failure before there was a response.
    EncodeFailure { message: String },
    /// Make the value that stands for this error.
    EncodeError { error: DownstreamHttpError },
    /// The call has ended.
    Finish { report: Report },
}

/// A [`CallAction`] in terms of what its parts stand for.
pub enum Action {
    Decode { payload: Seq<u8> },
    Render { template: Template, arguments: Json, tool_name: Seq<char> },
    CheckHeaderValue { value: Seq<char> },
    ResolveClient { arguments: Json, tool_name: Seq<char> },
    Send { request: RequestView },
    CheckStatus { status_code: u16, retry_after_ms: Option<u64> },
    EncodeFailure { message: Seq<char> },
    EncodeError { error: Downstream },
    Finish { report: ReportView },
}

impl View for CallAction {
    type V = Action;

    open spec fn view(&self) -> Action {
        match *self {
            CallAction::Decode { payload } => Action::Decode { payload: payload@ },
            CallAction::Render { template, arguments, tool_name } => Action::Render {
                template,
                arguments: arguments@,
                tool_name: tool_name@,
            },
            CallAction::CheckHeaderValue { value } => Action::CheckHeaderValue { value: value@ },
            CallAction::ResolveClient { arguments, tool_name } => Action::ResolveClient {
                arguments: arguments@,
                tool_name: tool_name@,
            },
            CallAction::Send { request } => Action::Send { request: request@ },
            CallAction::CheckStatus { status_code, retry_after_ms } => Action::CheckStatus {
                status_code,
                retry_after_ms,
            },
            CallAction::EncodeFailure { message } => Action::EncodeFailure { message: message@ },
            CallAction::EncodeError { error } => Action::EncodeError { error: error@ },
            CallAction::Finish { report } => Action::Finish { report: report@ },
        }
    }
}

/// A request that was not answered is told as such, with what went wrong; of an
/// answer that could not be read what went wrong is told as it is.
pub proof fn law_failures_to_send_say_why(failure: SendFailure)
    ensures
        failure matches SendFailure::Request(e) ==> failure_message(failure)
            == "SOAP request failed: "@ + e@,
        failure matches SendFailure::Body(e) ==> failure_message(failure) == e@,
{
}

} // verus!
