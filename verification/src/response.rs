//! What a response means: its fault, its JSON view, and the error that it
//! amounts to.

use crate::envelope;
use crate::envelope::{soap_fault_downstream_error, Downstream, DownstreamHttpError};
use crate::fault;
use crate::fault::{parse_fault, Fault, SoapFault};
use crate::json::{Json, JsonValue};
use crate::outcome;
use crate::outcome::host_outcome_label_for_status;
use crate::projection;
use crate::projection::xml_to_json;
use crate::text;
use crate::text::{borrowed, from_utf8_lossy, parse_u64, trim};
use crate::types::{HttpResponseSummary, SoapVersion, Summary};
use crate::xml_events;
use vstd::prelude::*;
use vstd::string::*;
use vstd::utf8::*;

verus! {

/// A response as it came.
#[derive(Debug, Clone, PartialEq, Eq)]
pub struct Reply {
    /// The status code.
    pub status_code: u16,
    /// The `Content-Type` header, where it is text.
    pub content_type: Option<String>,
    /// The `Retry-After` header, where it is text.
    pub retry_after: Option<String>,
    /// The body, as far as it was read.
    pub body: Vec<u8>,
    /// Whether the body is longer than was read.
    pub body_truncated: bool,
    /// How long the exchange took, in milliseconds.
    pub duration_ms: u64,
}

/// A [`Reply`] in terms of what its parts stand for.
pub struct ReplyView {
    pub status_code: u16,
    pub content_type: Option<Seq<char>>,
    pub retry_after: Option<Seq<char>>,
    pub body: Seq<u8>,
    pub body_truncated: bool,
    pub duration_ms: u64,
}

impl View for Reply {
    type V = ReplyView;

    open spec fn view(&self) -> ReplyView {
        ReplyView {
            status_code: self.status_code,
            content_type: text::optional(self.content_type),
            retry_after: text::optional(self.retry_after),
            body: self.body@,
            body_truncated: self.body_truncated,
            duration_ms: self.duration_ms,
        }
    }
}

/// What `Retry-After` asks for, in milliseconds: a number of seconds, and no
/// date. What is too much for 64 bits counts as the most that they hold.
pub open spec fn retry_after(header: Option<Seq<char>>) -> Option<u64> {
    match header {
        None => None,
        Some(s) => match text::read_as_u64(text::trimmed(s)) {
            None => None,
            Some(seconds) => if seconds * 1_000 > u64::MAX {
                Some(u64::MAX)
            } else {
                Some((seconds * 1_000) as u64)
            },
        },
    }
}

/// What `Retry-After` asks for, in milliseconds.
pub fn retry_after_ms(header: Option<&str>) -> (ms: Option<u64>)
    ensures
        ms == retry_after(text::optional_str(header)),
{
    match header {
        None => None,
        Some(s) => match parse_u64(&trim(s)) {
            None => None,
            Some(seconds) => match seconds.checked_mul(1_000) {
                Some(ms) => Some(ms),
                None => Some(u64::MAX),
            },
        },
    }
}

/// The summary of a response.
pub open spec fn summary_of(reply: ReplyView) -> Summary {
    Summary {
        status_code: reply.status_code,
        content_type: reply.content_type,
        retry_after_ms: retry_after(reply.retry_after),
        body: text::lossy_text(reply.body),
        body_truncated: reply.body_truncated,
        duration_ms: reply.duration_ms,
    }
}

/// Sums a response up: the body is read as text, and `Retry-After` as a
/// number of seconds.
pub fn summarize(reply: Reply) -> (summary: HttpResponseSummary)
    ensures
        summary@ == summary_of(reply@),
        valid_utf8(reply.body@) ==> summary.body@ == decode_utf8(reply.body@),
{
    let retry_after_ms = retry_after_ms(borrowed(&reply.retry_after));
    HttpResponseSummary {
        status_code: reply.status_code,
        content_type: reply.content_type,
        retry_after_ms,
        body: from_utf8_lossy(&reply.body),
        body_truncated: reply.body_truncated,
        duration_ms: reply.duration_ms,
    }
}

/// What a response body holds.
#[derive(Debug, PartialEq, Eq)]
pub struct Reading {
    /// The fault, where there is one.
    pub fault: Option<SoapFault>,
    /// The JSON view, where the body has one.
    pub response_json: Option<JsonValue>,
    /// Why a body that is not blank has no JSON view.
    pub json_parse_error: Option<String>,
}

/// A [`Reading`] in terms of what its parts stand for.
pub struct ReadingView {
    pub fault: Option<Fault>,
    pub response_json: Option<Json>,
    pub json_parse_error: Option<Seq<char>>,
}

/// An optional value.
pub open spec fn optional_json(o: Option<JsonValue>) -> Option<Json> {
    match o {
        Some(v) => Some(v@),
        None => None,
    }
}

impl View for Reading {
    type V = ReadingView;

    open spec fn view(&self) -> ReadingView {
        ReadingView {
            fault: fault::optional_fault(self.fault),
            response_json: optional_json(self.response_json),
            json_parse_error: text::optional(self.json_parse_error),
        }
    }
}

/// What a response body holds. A blank body holds nothing, and that is no
/// error.
pub open spec fn reading_of(body: Seq<char>) -> ReadingView {
    if text::is_blank(body) {
        ReadingView { fault: None, response_json: None, json_parse_error: None }
    } else {
        let events = xml_events::document_events(body);
        ReadingView {
            fault: fault::fault_of(events),
            response_json: match projection::json_of(events) {
                Ok(v) => Some(v),
                Err(_) => None,
            },
            json_parse_error: match projection::json_of(events) {
                Ok(_) => None,
                Err(e) => Some(e),
            },
        }
    }
}

/// Reads a response body for a fault and for its JSON view.
pub fn read_response(body: &str, version: SoapVersion) -> (reading: Reading)
    ensures
        reading@ == reading_of(body@),
{
    if trim(body).as_str().is_empty() {
        return Reading { fault: None, response_json: None, json_parse_error: None };
    }
    let fault = parse_fault(body, version);
    match xml_to_json(body) {
        Ok(v) => Reading { fault, response_json: Some(v), json_parse_error: None },
        Err(e) => Reading { fault, response_json: None, json_parse_error: Some(e) },
    }
}

/// What a response amounts to.
#[derive(Debug, PartialEq, Eq)]
pub struct Classified {
    /// The error, unless all is well.
    pub downstream_error: Option<DownstreamHttpError>,
    /// The label under which the call is counted.
    pub outcome_label: &'static str,
}

/// An optional error.
pub open spec fn optional_error(o: Option<DownstreamHttpError>) -> Option<Downstream> {
    match o {
        Some(e) => Some(e@),
        None => None,
    }
}

/// The error that a response amounts to. A fault comes before what the status
/// says.
pub open spec fn error_of(
    fault: Option<Fault>,
    status_code: u16,
    status_error: Option<Downstream>,
) -> Option<Downstream> {
    match fault {
        Some(fault) => Some(envelope::fault_error(fault, status_code)),
        None => status_error,
    }
}

/// The label of a response. A fault comes before what the status says.
pub open spec fn response_label(
    fault: Option<Fault>,
    status_code: u16,
    status_error: Option<Downstream>,
) -> Seq<char> {
    if fault is Some {
        "soap_fault"@
    } else if status_error is Some {
        outcome::status_label(status_code)
    } else {
        "ok"@
    }
}

/// Classifies a response. `status_error` is what is wrong with its status. A
/// fault takes precedence: services send faults with status 500 or 400, and a
/// fault is always told as such.
pub fn classify(
    fault: Option<&SoapFault>,
    status_code: u16,
    status_error: Option<DownstreamHttpError>,
) -> (classified: Classified)
    ensures
        optional_error(classified.downstream_error) == error_of(
            envelope::optional_fault(fault),
            status_code,
            optional_error(status_error),
        ),
        classified.outcome_label@ == response_label(
            envelope::optional_fault(fault),
            status_code,
            optional_error(status_error),
        ),
        fault is None ==> classified.downstream_error == status_error,
        fault is Some ==> classified.downstream_error is Some,
{
    match fault {
        Some(fault) => Classified {
            downstream_error: Some(soap_fault_downstream_error(fault, status_code)),
            outcome_label: "soap_fault",
        },
        None => match status_error {
            Some(e) => Classified {
                downstream_error: Some(e),
                outcome_label: host_outcome_label_for_status(status_code),
            },
            None => Classified { downstream_error: None, outcome_label: "ok" },
        },
    }
}

/// A fault is told as a fault, whatever the status and what is wrong with it.
pub proof fn law_fault_takes_precedence(
    fault: Fault,
    status_code: u16,
    status_error: Option<Downstream>,
)
    ensures
        error_of(Some(fault), status_code, status_error) == Some(
            envelope::fault_error(fault, status_code),
        ),
        response_label(Some(fault), status_code, status_error) == "soap_fault"@,
        outcome::audit_action("soap_fault"@) is Some,
{
    outcome::law_notable_failures_are_audited("soap_fault"@);
    reveal_strlit("soap_fault");
    reveal_strlit("ok");
    reveal_strlit("http_4xx");
    reveal_strlit("profile_not_found");
    assert("soap_fault"@.len() == 10 && "ok"@.len() == 2 && "http_4xx"@.len() == 8);
    assert("profile_not_found"@.len() == 17);
}

/// Without a fault, and whatever the status code, the error that a response
/// amounts to is what is wrong with its status, if anything is. So all is well
/// if and only if there is neither a fault nor anything wrong with the status.
pub proof fn law_without_a_fault_the_status_counts(
    fault: Option<Fault>,
    status_code: u16,
    status_error: Option<Downstream>,
)
    ensures
        fault is None ==> error_of(fault, status_code, status_error) == status_error,
        error_of(fault, status_code, status_error) is None <==> fault is None && status_error
            is None,
        fault is None && status_error is None ==> response_label(fault, status_code, status_error)
            == "ok"@,
        fault is None && status_error is Some && 400 <= status_code <= 499 ==> response_label(
            fault,
            status_code,
            status_error,
        ) == "http_4xx"@,
        fault is None && status_error is Some && 500 <= status_code <= 599 ==> response_label(
            fault,
            status_code,
            status_error,
        ) == "http_5xx"@,
        fault is None && !(400 <= status_code <= 599) ==> response_label(
            fault,
            status_code,
            status_error,
        ) == "ok"@,
{
}

/// A wait of so many seconds is told in milliseconds, and of more than 64 bits
/// hold as the most that they do. White space around the number does not matter.
pub proof fn law_retry_after_is_in_milliseconds(header: Seq<char>, seconds: u64)
    requires
        text::trimmed(header) == text::decimal(seconds as nat),
    ensures
        retry_after(Some(header)) == Some(
            if seconds * 1_000 <= u64::MAX {
                (seconds * 1_000) as u64
            } else {
                u64::MAX
            },
        ),
{
    text::law_numerals_read_back(seconds as nat);
}

/// Without a header, or with one that is no number, there is nothing to wait for.
pub proof fn law_only_numbers_are_waited_for(header: Option<Seq<char>>)
    ensures
        retry_after(header) is Some <==> header is Some && text::read_as_u64(
            text::trimmed(header->0),
        ) is Some,
{
}

/// A summary tells of a response what it was.
pub proof fn law_summaries_tell_the_response(reply: ReplyView)
    ensures
        ({
            let summary = summary_of(reply);
            &&& summary.status_code == reply.status_code
            &&& summary.content_type == reply.content_type
            &&& summary.retry_after_ms == retry_after(reply.retry_after)
            &&& summary.body == text::lossy_text(reply.body)
            &&& summary.body_truncated == reply.body_truncated
            &&& summary.duration_ms == reply.duration_ms
        }),
{
}

/// A body that is not blank has the fault and the JSON view of its document; it
/// has a view or a reason why there is none, and never both. A blank one has
/// none of these.
pub proof fn law_what_is_read_of_a_body(body: Seq<char>)
    ensures
        ({
            let read = reading_of(body);
            let events = xml_events::document_events(body);
            &&& !text::is_blank(body) ==> read.fault == fault::fault_of(events)
            &&& !text::is_blank(body) ==> (read.response_json is Some
                <==> read.json_parse_error is None)
            &&& read.response_json matches Some(view) ==> projection::json_of(events) == Ok::<
                Json,
                Seq<char>,
            >(view)
            &&& read.json_parse_error matches Some(message) ==> projection::json_of(events)
                == Err::<Json, Seq<char>>(message)
            &&& text::is_blank(body) ==> read.fault is None && read.response_json is None
                && read.json_parse_error is None
        }),
{
}

} // verus!
