//! What the values that come in and go out stand for: what their views tell of
//! them.

use crate::call_state::{
    Action, CallAction, CallEvent, Event, Report, ReportView, SendFailure,
};
use crate::envelope;
use crate::envelope::DownstreamHttpError;
use crate::fault;
use crate::fault::SoapFault;
use crate::json::{Json, JsonValue};
use crate::outcome::AuditRecord;
use crate::projection;
use crate::request::HttpRequest;
use crate::response;
use crate::response::{Reading, Reply};
use crate::string_map;
use crate::text;
use crate::types::{BackendError, HttpResponseSummary, Refusal, SoapBackendSpec};
use crate::xml_events::{XmlEvent, XmlToken};
use vstd::prelude::*;
use vstd::string::*;

verus! {

/// An optional text is there if and only if the string is, and is what the
/// string holds; lists of strings are told one by one.
pub proof fn law_views_of_texts(
    o: Option<String>,
    s: Option<&str>,
    list: Seq<String>,
    pairs: Seq<(String, String)>,
)
    ensures
        o matches Some(t) ==> text::optional(o) == Some(t@),
        o is None ==> text::optional(o) is None,
        s matches Some(t) ==> text::optional_str(s) == Some(t@),
        s is None ==> text::optional_str(s) is None,
        text::or_empty(text::optional(o)) == (if o is Some {
            o->0@
        } else {
            Seq::empty()
        }),
        text::texts(list).len() == list.len(),
        forall|i: int| 0 <= i < list.len() ==> #[trigger] text::texts(list)[i] == list[i]@,
        text::pairs(pairs).len() == pairs.len(),
        forall|i: int|
            0 <= i < pairs.len() ==> (#[trigger] text::pairs(pairs)[i]).0 == pairs[i].0@
                && text::pairs(pairs)[i].1 == pairs[i].1@,
{
}

/// A fault stands for its parts, and is there if and only if one was found.
pub proof fn law_views_of_faults(
    fault: SoapFault,
    found: Option<SoapFault>,
    given: Option<&SoapFault>,
)
    ensures
        fault@.code == fault.code@,
        fault@.reason == fault.reason@,
        fault@.node == text::optional(fault.node),
        fault@.role == text::optional(fault.role),
        fault@.detail == text::optional(fault.detail),
        fault@.subcodes == text::texts(fault.subcodes@),
        found matches Some(f) ==> fault::optional_fault(found) == Some(f@),
        found is None ==> fault::optional_fault(found) is None,
        given matches Some(f) ==> envelope::optional_fault(given) == Some(f@),
        given is None ==> envelope::optional_fault(given) is None,
{
}

/// An error stands for its parts.
pub proof fn law_views_of_errors(error: DownstreamHttpError, o: Option<DownstreamHttpError>)
    ensures
        error@.kind == error.kind@,
        error@.code == error.code@,
        error@.message == error.message@,
        error@.retryable == error.retryable,
        error@.retry_class == error.retry_class@,
        error@.retry_after_ms == error.retry_after_ms,
        error@.idempotency_hint == error.idempotency_hint@,
        error@.caller_retry_decision == error.caller_retry_decision@,
        error@.retry_safety == error.retry_safety@,
        error@.backoff_strategy == error.backoff_strategy@,
        error@.minimum_backoff_ms == error.minimum_backoff_ms,
        error@.suggested_action == error.suggested_action@,
        error@.status_code == error.status_code,
        error@.details == error.details@,
        o matches Some(e) ==> response::optional_error(o) == Some(e@),
        o is None ==> response::optional_error(o) is None,
{
}

/// A refusal stands for its kind and what it says.
pub proof fn law_views_of_refusals(error: BackendError)
    ensures
        error matches BackendError::InvalidSpec { message } ==> error@ == Refusal::InvalidSpec(
            message@,
        ),
        error matches BackendError::ProfileNotFound { backend_name } ==> error@
            == Refusal::ProfileNotFound(backend_name@),
        error matches BackendError::Transport { message } ==> error@ == Refusal::Transport(
            message@,
        ),
{
}

/// A response stands for its parts, as it came and as it is summed up.
pub proof fn law_views_of_responses(reply: Reply, summary: HttpResponseSummary, reading: Reading)
    ensures
        reply@.status_code == reply.status_code,
        reply@.content_type == text::optional(reply.content_type),
        reply@.retry_after == text::optional(reply.retry_after),
        reply@.body == reply.body@,
        reply@.body_truncated == reply.body_truncated,
        reply@.duration_ms == reply.duration_ms,
        summary@.status_code == summary.status_code,
        summary@.content_type == text::optional(summary.content_type),
        summary@.retry_after_ms == summary.retry_after_ms,
        summary@.body == summary.body@,
        summary@.body_truncated == summary.body_truncated,
        summary@.duration_ms == summary.duration_ms,
        reading@.fault == fault::optional_fault(reading.fault),
        reading.response_json matches Some(v) ==> reading@.response_json == Some(v@),
        reading.response_json is None ==> reading@.response_json is None,
        reading@.json_parse_error == text::optional(reading.json_parse_error),
{
}

/// A result with a value or a message stands for just that.
pub proof fn law_views_of_results(value: Result<JsonValue, String>)
    ensures
        value matches Ok(v) ==> projection::result_model(value) == Ok::<_, Seq<char>>(v@),
        value matches Err(e) ==> projection::result_model(value) == Err::<Json, _>(e@),
{
}

/// An event of a document stands for its kind and what it holds.
pub proof fn law_views_of_events(event: XmlEvent)
    ensures
        event matches XmlEvent::Start(name, Ok(list)) ==> event@ == XmlToken::Start(
            name@,
            Ok(text::pairs(list@)),
        ),
        event matches XmlEvent::Start(name, Err(e)) ==> event@ == XmlToken::Start(name@, Err(e@)),
        event matches XmlEvent::Empty(name, Ok(list)) ==> event@ == XmlToken::Empty(
            name@,
            Ok(text::pairs(list@)),
        ),
        event matches XmlEvent::Empty(name, Err(e)) ==> event@ == XmlToken::Empty(name@, Err(e@)),
        event matches XmlEvent::End(name) ==> event@ == XmlToken::End(name@),
        event matches XmlEvent::Text(data) ==> event@ == XmlToken::Text(data@),
        event matches XmlEvent::CData(data) ==> event@ == XmlToken::CData(data@),
        event matches XmlEvent::Reference(name) ==> event@ == XmlToken::Reference(name@),
        event is Other ==> event@ is Other,
        event is Eof ==> event@ is Eof,
        event matches XmlEvent::Malformed(e) ==> event@ == XmlToken::Malformed(e@),
{
}

/// What a call learns stands for just that.
pub proof fn law_views_of_call_events(event: CallEvent)
    ensures
        event matches CallEvent::Profile(Some(p)) ==> event@ == Event::Profile(Some(p@)),
        event matches CallEvent::Profile(None) ==> event@ == Event::Profile(None),
        event matches CallEvent::Arguments(Ok(v)) ==> event@ == Event::Arguments(Ok(v@)),
        event matches CallEvent::Arguments(Err(e)) ==> event@ == Event::Arguments(Err(e@)),
        event matches CallEvent::Rendered(Ok(s)) ==> event@ == Event::Rendered(Ok(s@)),
        event matches CallEvent::Rendered(Err(e)) ==> event@ == Event::Rendered(Err(e@)),
        event matches CallEvent::HeaderValue(Ok(())) ==> event@ == Event::HeaderValue(Ok(())),
        event matches CallEvent::HeaderValue(Err(e)) ==> event@ == Event::HeaderValue(Err(e@)),
        event matches CallEvent::Client(Ok(c)) ==> event@ == Event::Client(
            Ok((c.url@, string_map::texts(c.headers@))),
        ),
        event matches CallEvent::Client(Err(e)) ==> event@ == Event::Client(Err(e@)),
        event matches CallEvent::Response(Ok(reply)) ==> event@ == Event::Response(Ok(reply@)),
        event matches CallEvent::Response(Err(SendFailure::Request(e))) ==> event@
            == Event::Response(Err("SOAP request failed: "@ + e@)),
        event matches CallEvent::Response(Err(SendFailure::Body(e))) ==> event@ == Event::Response(
            Err(e@),
        ),
        event matches CallEvent::StatusError(Some(e)) ==> event@ == Event::StatusError(Some(e@)),
        event matches CallEvent::StatusError(None) ==> event@ == Event::StatusError(None),
        event matches CallEvent::Encoded(v) ==> event@ == Event::Encoded(v@),
{
}

/// What a call asks for stands for just that.
pub proof fn law_views_of_call_actions(action: CallAction)
    ensures
        action matches CallAction::Decode { payload } ==> action@ == (Action::Decode {
            payload: payload@,
        }),
        action matches CallAction::Render { template, arguments, tool_name } ==> action@
            == (Action::Render { template, arguments: arguments@, tool_name: tool_name@ }),
        action matches CallAction::CheckHeaderValue { value } ==> action@
            == (Action::CheckHeaderValue { value: value@ }),
        action matches CallAction::ResolveClient { arguments, tool_name } ==> action@
            == (Action::ResolveClient { arguments: arguments@, tool_name: tool_name@ }),
        action matches CallAction::Send { request } ==> action@ == (Action::Send {
            request: request@,
        }),
        action matches CallAction::CheckStatus { status_code, retry_after_ms } ==> action@
            == (Action::CheckStatus { status_code, retry_after_ms }),
        action matches CallAction::EncodeFailure { message } ==> action@ == (Action::EncodeFailure {
            message: message@,
        }),
        action matches CallAction::EncodeError { error } ==> action@ == (Action::EncodeError {
            error: error@,
        }),
        action matches CallAction::Finish { report } ==> action@ == (Action::Finish {
            report: report@,
        }),
{
}

/// A report, a request and a record stand for their parts.
pub proof fn law_views_of_what_goes_out(report: Report, request: HttpRequest, record: AuditRecord)
    ensures
        report matches Report::Refused { error, label } ==> report@ == (ReportView::Refused {
            error: error@,
            label: label@,
        }),
        report matches Report::Answered { result, label, status_code, reason } ==> report@
            == (ReportView::Answered {
            result: result@,
            label: label@,
            status_code,
            reason: text::optional(reason),
        }),
        request@.url == request.url@,
        request@.headers == text::pairs(request.headers@),
        request@.body == request.body@,
        request@.max_response_bytes == request.max_response_bytes,
        record@.event_id == record.event_id@,
        record@.actor == record.actor@,
        record@.action == record.action@,
        record@.resource == record.resource@,
        record@.request_id == record.request_id@,
        record@.details == record.details@,
{
}

/// A spec stands for its parts.
pub proof fn law_views_of_specs(spec: SoapBackendSpec)
    ensures
        spec@.endpoint == spec.endpoint@,
        spec@.soap_version == spec.soap_version,
        spec@.soap_action == text::optional(spec.soap_action),
        spec@.body_template == spec.body_template@,
        spec@.header_template == text::optional(spec.header_template),
        spec@.headers == string_map::texts(spec.headers@),
        spec@.expected_status_codes == spec.expected_status_codes@,
        spec@.max_response_bytes == spec.max_response_bytes,
        spec@.timeout_ms == spec.timeout_ms,
        spec@.allow_private_backends == spec.allow_private_backends,
{
}

} // verus!
