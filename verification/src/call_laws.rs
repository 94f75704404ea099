//! What holds of every call.

use crate::call;
use crate::call_state::{
    Action, CallView, DraftView, Event, OriginView, ProfileView, ReportView, State,
};
use crate::envelope;
use crate::envelope::{Downstream, Outcome};
use crate::escape_laws;
use crate::json;
use crate::json::Json;
use crate::outcome;
use crate::registration::Template;
use crate::request;
use crate::response;
use crate::response::ReplyView;
use crate::types;
use crate::types::Refusal;
use crate::xml;
use vstd::prelude::*;
use vstd::string::*;

verus! {

/// A call in `state` can learn of `events` one after the other.
pub open spec fn follow(state: State, events: Seq<Event>) -> bool
    decreases events.len(),
{
    events.len() > 0 ==> {
        &&& call::awaits(state, events[0])
        &&& follow(call::next(state, events[0]).0, events.drop_first())
    }
}

/// What a call in `state` asks for as it learns of `events`.
pub open spec fn actions(state: State, events: Seq<Event>) -> Seq<Action>
    decreases events.len(),
{
    if events.len() == 0 {
        Seq::empty()
    } else {
        seq![call::next(state, events[0]).1] + actions(
            call::next(state, events[0]).0,
            events.drop_first(),
        )
    }
}

/// `event` tells what came of `action`.
pub open spec fn answers(action: Action, event: Event) -> bool {
    match action {
        Action::Decode { .. } => event is Arguments,
        Action::Render { .. } => event is Rendered,
        Action::CheckHeaderValue { .. } => event is HeaderValue,
        Action::ResolveClient { .. } => event is Client,
        Action::Send { .. } => event is Response,
        Action::CheckStatus { .. } => event is StatusError,
        Action::EncodeFailure { .. } => event is Encoded,
        Action::EncodeError { .. } => event is Encoded,
        Action::Finish { .. } => false,
    }
}

/// A call waits for what comes of the action that it asked for, and for
/// nothing else: whoever answers each action can always go on.
pub proof fn law_calls_await_what_they_ask_for(state: State, event: Event, later: Event)
    requires
        call::awaits(state, event),
    ensures
        call::awaits(call::next(state, event).0, later) <==> answers(
            call::next(state, event).1,
            later,
        ),
{
}

/// The number of steps that a call can still take.
pub open spec fn steps_left(state: State) -> nat {
    match state {
        State::Lookup { .. } => 10,
        State::Decode { .. } => 9,
        State::RenderAction { .. } => 8,
        State::CheckAction { .. } => 7,
        State::RenderBody { .. } => 6,
        State::RenderHeader { .. } => 5,
        State::Resolve { .. } => 4,
        State::Send { .. } => 3,
        State::CheckStatus { .. } => 2,
        State::Encode { .. } => 1,
        State::Done => 0,
    }
}

/// Every step brings a call nearer to its end, and the call asks to finish if
/// and only if it has ended.
pub proof fn law_every_call_ends(state: State, event: Event)
    requires
        call::awaits(state, event),
    ensures
        steps_left(call::next(state, event).0) < steps_left(state),
        call::next(state, event).0 is Done <==> call::next(state, event).1 is Finish,
{
}

/// A call learns of no more than ten events.
pub proof fn law_calls_are_short(state: State, events: Seq<Event>)
    requires
        follow(state, events),
    ensures
        events.len() <= steps_left(state) <= 10,
    decreases events.len(),
{
    if events.len() > 0 {
        law_every_call_ends(state, events[0]);
        law_calls_are_short(call::next(state, events[0]).0, events.drop_first());
    }
}

/// The request was sent, or never will be.
pub open spec fn past_sending(state: State) -> bool {
    state is Send || state is CheckStatus || state is Encode || state is Done
}

/// Something went wrong before there was a client.
pub open spec fn is_early_failure(event: Event) -> bool {
    match event {
        Event::Profile(found) => found is None,
        Event::Arguments(decoded) => decoded is Err,
        Event::Rendered(rendered) => rendered is Err,
        Event::HeaderValue(checked) => checked is Err,
        Event::Client(client) => client is Err,
        _ => false,
    }
}

/// A request is sent only once the envelope is complete and the client is
/// ready, and what is sent is that envelope, to the URL of that client.
pub proof fn law_what_is_sent(state: State, event: Event)
    requires
        call::awaits(state, event),
        call::next(state, event).1 is Send,
    ensures
        state is Resolve,
        event is Client && event->Client_0 is Ok,
        call::next(state, event).1->request.body == state->Resolve_request_xml,
        call::next(state, event).1->request.url == event->Client_0->Ok_0.0,
        call::next(state, event).0 is Send,
{
}

proof fn lemma_nothing_more_is_sent(state: State, events: Seq<Event>)
    requires
        follow(state, events),
        past_sending(state),
    ensures
        actions(state, events).len() == events.len(),
        forall|i: int| 0 <= i < events.len() ==> !(#[trigger] actions(state, events)[i] is Send),
        forall|i: int| 0 <= i < events.len() ==> !is_early_failure(#[trigger] events[i]),
    decreases events.len(),
{
    if events.len() > 0 {
        let then = call::next(state, events[0]);
        let tail = events.drop_first();
        lemma_nothing_more_is_sent(then.0, tail);
        assert forall|i: int| 0 <= i < events.len() implies !(#[trigger] actions(state, events)[i]
            is Send) by {
            if i > 0 {
                assert(actions(state, events)[i] == actions(then.0, tail)[i - 1]);
            }
        }
        assert forall|i: int| 0 <= i < events.len() implies !is_early_failure(
            #[trigger] events[i],
        ) by {
            if i > 0 {
                assert(events[i] == tail[i - 1]);
            }
        }
    }
}

/// A call that fails before there was a client sends nothing: neither a
/// payload that is not JSON nor a template that cannot be rendered reaches
/// the wire.
pub proof fn law_early_failures_send_nothing(state: State, events: Seq<Event>, at: int)
    requires
        follow(state, events),
        0 <= at < events.len(),
        is_early_failure(events[at]),
    ensures
        actions(state, events).len() == events.len(),
        forall|i: int| 0 <= i < events.len() ==> !(#[trigger] actions(state, events)[i] is Send),
    decreases events.len(),
{
    let then = call::next(state, events[0]);
    let tail = events.drop_first();
    if is_early_failure(events[0]) || past_sending(then.0) {
        lemma_nothing_more_is_sent(then.0, tail);
        if at > 0 {
            assert(tail[at - 1] == events[at]);
        }
    } else {
        assert(tail[at - 1] == events[at]);
        law_early_failures_send_nothing(then.0, tail, at - 1);
    }
    assert forall|i: int| 0 <= i < events.len() implies !(#[trigger] actions(state, events)[i]
        is Send) by {
        if i > 0 {
            assert(actions(state, events)[i] == actions(then.0, tail)[i - 1]);
        }
    }
}

/// A call sends at most one request.
pub proof fn law_at_most_one_request(state: State, events: Seq<Event>, i: int, j: int)
    requires
        follow(state, events),
        0 <= i < j < events.len(),
        actions(state, events)[i] is Send,
    ensures
        !(actions(state, events)[j] is Send),
    decreases events.len(),
{
    let then = call::next(state, events[0]);
    let tail = events.drop_first();
    lemma_as_many_actions(then.0, tail);
    assert(actions(state, events)[j] == actions(then.0, tail)[j - 1]);
    if i == 0 {
        lemma_nothing_more_is_sent(then.0, tail);
    } else {
        assert(actions(state, events)[i] == actions(then.0, tail)[i - 1]);
        law_at_most_one_request(then.0, tail, i - 1, j - 1);
    }
}

proof fn lemma_as_many_actions(state: State, events: Seq<Event>)
    ensures
        actions(state, events).len() == events.len(),
    decreases events.len(),
{
    if events.len() > 0 {
        lemma_as_many_actions(call::next(state, events[0]).0, events.drop_first());
    }
}

/// The call that a state is about, if it has its arguments.
pub open spec fn call_in(state: State) -> Option<CallView> {
    match state {
        State::RenderAction { call } => Some(call),
        State::CheckAction { call, .. } => Some(call),
        State::RenderBody { call, .. } => Some(call),
        State::RenderHeader { call, .. } => Some(call),
        State::Resolve { call, .. } => Some(call),
        State::Send { call, .. } => Some(call),
        _ => None,
    }
}

/// The draft that a state is about, if it has one.
pub open spec fn draft_in(state: State) -> Option<DraftView> {
    match state {
        State::CheckStatus { draft, .. } => Some(draft),
        State::Encode { draft } => Some(draft),
        _ => None,
    }
}

/// A state as calls have it: the escaped arguments are those of the caller,
/// escaped, and a draft is counted under a known label.
pub open spec fn well_formed(state: State) -> bool {
    &&& call_in(state) matches Some(call) ==> call.escaped == xml::escaped_json(call.arguments)
    &&& draft_in(state) matches Some(draft) ==> outcome::is_label(draft.label)
}

/// Every step leads from a well-formed state to another, and a call that ends
/// is counted under one of the known labels.
pub proof fn law_states_stay_well_formed(state: State, event: Event)
    requires
        call::awaits(state, event),
        well_formed(state),
    ensures
        well_formed(call::next(state, event).0),
        call::next(state, event).1 matches Action::Finish { report } ==> match report {
            ReportView::Refused { label, .. } => outcome::is_label(label),
            ReportView::Answered { label, .. } => outcome::is_label(label),
        },
{
    match event {
        Event::Client(Err(message)) => {
            outcome::law_labels_are_closed(0, message);
        },
        Event::Response(Ok(reply)) => {
            outcome::law_labels_are_closed(reply.status_code, Seq::empty());
        },
        Event::Response(Err(message)) => {
            outcome::law_labels_are_closed(0, message);
        },
        Event::StatusError(_) => {
            outcome::law_labels_are_closed(state->CheckStatus_status_code, Seq::empty());
        },
        _ => {},
    }
}

/// Body and header are rendered with arguments that hold no markup; the
/// action, the endpoint and the HTTP headers with the arguments as the caller
/// gave them.
pub proof fn law_xml_is_rendered_with_escaped_arguments(state: State, event: Event)
    requires
        call::awaits(state, event),
        well_formed(state),
    ensures
        call::next(state, event).1 matches Action::Render { template, arguments, .. } ==> {
            &&& call_in(call::next(state, event).0) is Some
            &&& template != Template::Action ==> escape_laws::is_inert_json(arguments)
            &&& template == Template::Action ==> arguments == call_in(
                call::next(state, event).0,
            )->0.arguments
        },
        call::next(state, event).1 matches Action::ResolveClient { arguments, .. } ==> {
            &&& call_in(call::next(state, event).0) is Some
            &&& arguments == call_in(call::next(state, event).0)->0.arguments
        },
{
    law_states_stay_well_formed(state, event);
    if let Some(call) = call_in(call::next(state, event).0) {
        escape_laws::law_escaped_arguments_are_inert(call.arguments);
    }
}

/// A call is refused only where there is no such binding or the payload is
/// not JSON. Whatever else fails is answered with a result.
pub proof fn law_failures_are_answered(state: State, event: Event)
    requires
        call::awaits(state, event),
    ensures
        call::next(state, event).1 matches Action::Finish {
            report: ReportView::Refused { error, .. },
        } ==> {
            ||| error is ProfileNotFound && event == Event::Profile(None)
            ||| error is InvalidSpec && event is Arguments && event->Arguments_0 is Err
        },
{
}

/// What a result says of its errors: the value of the error in the slot that
/// marks the call as failed and as the one item of the list, or `null` and an
/// empty list; what went wrong before there was a response; and the fault.
pub proof fn law_result_tells_its_error(draft: DraftView, error: Option<Json>)
    ensures
        json::member(call::result_of(draft, error), "downstreamError"@) == Some(
            envelope::or_null(error),
        ),
        json::member(call::result_of(draft, error), "downstreamErrors"@) == Some(
            Json::Array(
                match error {
                    Some(value) => seq![value],
                    None => Seq::empty(),
                },
            ),
        ),
        json::member(call::result_of(draft, error), "error"@) == Some(
            json::optional_text_model(draft.error),
        ),
        json::member(call::result_of(draft, error), "fault"@) == Some(
            match draft.reading.fault {
                Some(fault) => envelope::fault_json(fault),
                None => Json::Null,
            },
        ),
{
    reveal_strlit("downstreamError");
    reveal_strlit("downstreamErrors");
    reveal_strlit("error");
    reveal_strlit("fault");
    assert("downstreamError"@.len() == 15 && "downstreamErrors"@.len() == 16);
    assert("error"@.len() == 5 && "fault"@.len() == 5);
    assert("error"@[0] == 'e' && "fault"@[0] == 'f');
}

/// A call whose response carries a fault ends with the error of that fault,
/// whatever the status: it is counted as a fault, and the reason to audit is
/// the fault's message.
pub proof fn law_fault_responses_are_faults(state: State, event: Event)
    requires
        state is Send,
        event is Response && event->Response_0 is Ok,
        response::reading_of(response::summary_of(event->Response_0->Ok_0).body).fault is Some,
    ensures
        ({
            let reply = event->Response_0->Ok_0;
            let fault = response::reading_of(response::summary_of(reply).body).fault->0;
            let then = call::next(state, event);
            &&& then.1 == (Action::EncodeError {
                error: envelope::fault_error(fault, reply.status_code),
            })
            &&& then.0 is Encode
            &&& then.0->Encode_draft.label == "soap_fault"@
            &&& then.0->Encode_draft.reason == Some(envelope::fault_message(fault))
            &&& then.0->Encode_draft.reading.fault == Some(fault)
        }),
{
}

/// The text of a response is in the result as it came, whatever else could be
/// read of it.
pub proof fn law_result_keeps_the_response(draft: DraftView, error: Option<Json>)
    requires
        draft.response is Some,
    ensures
        json::member(call::result_of(draft, error), "response"@) is Some,
        json::member(json::member(call::result_of(draft, error), "response"@)->0, "xml"@) == Some(
            Json::Text(draft.response->0.body),
        ),
{
    reveal_strlit("response");
    reveal_strlit("fault");
    reveal_strlit("downstreamError");
    reveal_strlit("downstreamErrors");
    reveal_strlit("error");
    reveal_strlit("xml");
    reveal_strlit("bodyTruncated");
    reveal_strlit("json");
    reveal_strlit("jsonParseError");
    assert("downstreamError"@.len() == 15 && "downstreamErrors"@.len() == 16 && "error"@.len()
        == 5 && "response"@.len() == 8 && "fault"@.len() == 5);
    assert("xml"@.len() == 3 && "bodyTruncated"@.len() == 13 && "json"@.len() == 4
        && "jsonParseError"@.len() == 14);
}

/// An empty payload stands for no arguments; any other is decoded.
pub proof fn law_empty_payloads_are_no_arguments(
    origin: OriginView,
    profile: ProfileView,
    payload: Seq<u8>,
)
    ensures
        payload.len() == 0 ==> call::next(
            State::Lookup { origin, payload },
            Event::Profile(Some(profile)),
        ) == call::next(
            State::Decode { origin, profile },
            Event::Arguments(Ok(Json::Object(Map::empty()))),
        ),
        payload.len() > 0 ==> call::next(
            State::Lookup { origin, payload },
            Event::Profile(Some(profile)),
        ) == (State::Decode { origin, profile }, Action::Decode { payload }),
{
}

/// Once the arguments are known the call has them as they are, and a copy from
/// which they read back that holds no markup. Where there is an action it is
/// rendered first, with the arguments as they are; else the body, with the copy.
pub proof fn law_arguments_are_kept(origin: OriginView, profile: ProfileView, arguments: Json)
    ensures
        ({
            let then = call::next(
                State::Decode { origin, profile },
                Event::Arguments(Ok(arguments)),
            );
            call_in(then.0) matches Some(call) && {
                &&& call.origin == origin
                &&& call.profile == profile
                &&& call.arguments == arguments
                &&& escape_laws::resolved_json(call.escaped) == arguments
                &&& escape_laws::is_inert_json(call.escaped)
                &&& then.1 == (Action::Render {
                    template: if profile.has_action {
                        Template::Action
                    } else {
                        Template::Body
                    },
                    arguments: if profile.has_action {
                        arguments
                    } else {
                        call.escaped
                    },
                    tool_name: origin.tool_name,
                })
                &&& profile.has_action ==> then.0 is RenderAction
                &&& !profile.has_action ==> then.0 == (State::RenderBody { call, action: None })
            }
        }),
{
    escape_laws::law_escaped_arguments_read_back(arguments);
    escape_laws::law_escaped_arguments_are_inert(arguments);
}

/// The action that was rendered, once it can be a header value, is the action of
/// the call.
pub proof fn law_the_rendered_action_is_used(call: CallView, action: Seq<char>)
    ensures
        ({
            let rendered = call::next(
                State::RenderAction { call },
                Event::Rendered(Ok(action)),
            );
            let checked = call::next(rendered.0, Event::HeaderValue(Ok(())));
            &&& rendered.1 == (Action::CheckHeaderValue { value: action })
            &&& checked.0 == (State::RenderBody { call, action: Some(action) })
            &&& checked.1 == (Action::Render {
                template: Template::Body,
                arguments: call.escaped,
                tool_name: call.origin.tool_name,
            })
        }),
{
}

/// What is sent is the envelope of the rendered body and, where the binding has
/// one, the rendered header, in the version of the binding, to the URL of the
/// client, with the content type and the action of that version, and with the
/// trace of the call.
pub proof fn law_the_rendered_templates_are_sent(
    call: CallView,
    action: Option<Seq<char>>,
    body: Seq<char>,
    header: Seq<char>,
    url: Seq<char>,
    headers: Map<Seq<char>, Seq<char>>,
)
    ensures
        ({
            let version = call.profile.version;
            let one = call::next(
                State::RenderBody { call, action },
                Event::Rendered(Ok(body)),
            );
            let two = if call.profile.has_header {
                call::next(one.0, Event::Rendered(Ok(header)))
            } else {
                one
            };
            let three = call::next(two.0, Event::Client(Ok((url, headers))));
            &&& call.profile.has_header ==> one.1 == (Action::Render {
                template: Template::Header,
                arguments: call.escaped,
                tool_name: call.origin.tool_name,
            })
            &&& two.1 == (Action::ResolveClient {
                arguments: call.arguments,
                tool_name: call.origin.tool_name,
            })
            &&& three.1 matches Action::Send { request } && {
                let trace = call.origin.trace_headers;
                &&& request.url == url
                &&& request.body == xml::envelope_of(
                    version,
                    if call.profile.has_header {
                        Some(header)
                    } else {
                        None
                    },
                    body,
                )
                &&& request.max_response_bytes == call.profile.max_response_bytes
                &&& request.headers.len() >= trace.len() + 2
                &&& request.headers[0] == (
                    "Content-Type"@,
                    types::content_type_of(version, action),
                )
                &&& types::action_header_of(version, action) matches Some(value)
                    ==> request.headers[2] == ("SOAPAction"@, value)
                &&& request.headers.skip(request.headers.len() - trace.len()) == trace
                &&& three.0 matches State::Send {
                    call: c,
                    action: a,
                    request_xml,
                    url: u,
                    headers: shown,
                } && {
                    &&& c == call
                    &&& a == action
                    &&& request_xml == request.body
                    &&& u == url
                    &&& shown == outcome::display_headers(
                        headers,
                        types::content_type_of(version, action),
                        types::action_header_of(version, action),
                    )
                }
            }
        }),
{
    let version = call.profile.version;
    request::law_headers_of_a_request(
        types::content_type_of(version, action),
        types::action_header_of(version, action),
        call.origin.trace_headers,
    );
}

/// Why a call in this state failed, where something went wrong before there was a
/// client; `e` says what.
pub open spec fn early_message(state: State, e: Seq<char>) -> Seq<char> {
    match state {
        State::RenderAction { .. } => "evaluating soap_action: "@ + e,
        State::CheckAction { .. } => "soap_action: "@ + e,
        State::RenderBody { .. } => "evaluating body_template: "@ + e,
        State::RenderHeader { .. } => "evaluating header_template: "@ + e,
        _ => e,
    }
}

/// What went wrong before there was a client.
pub open spec fn early_error(event: Event) -> Option<Seq<char>> {
    match event {
        Event::Rendered(Err(e)) => Some(e),
        Event::HeaderValue(Err(e)) => Some(e),
        Event::Client(Err(e)) => Some(e),
        _ => None,
    }
}

/// A call that fails before there was a client says why: in its error, as the
/// reason to audit, and in the value that marks it as failed. It names its
/// binding's endpoint and headers, and has no response.
pub proof fn law_early_failures_say_why(state: State, event: Event)
    requires
        call::awaits(state, event),
        early_error(event) is Some,
    ensures
        ({
            let message = early_message(state, early_error(event)->0);
            let then = call::next(state, event);
            let call = call_in(state)->0;
            &&& then.1 == (Action::EncodeFailure { message })
            &&& then.0 matches State::Encode { draft } && {
                &&& draft.error == Some(message)
                &&& draft.reason == Some(message)
                &&& draft.response is None
                &&& draft.reading.fault is None
                &&& draft.reading.response_json is None
                &&& draft.reading.json_parse_error is None
                &&& draft.origin == call.origin
                &&& draft.version == call.profile.version
                &&& draft.endpoint == call.profile.url
                &&& draft.request_headers == call.profile.headers
                &&& draft.label == (if event is Client {
                    outcome::transport_label(message)
                } else {
                    "invalid_spec"@
                })
                &&& event is Client ==> draft.request_xml == state->Resolve_request_xml
                &&& !(event is Client) ==> draft.request_xml.len() == 0
            }
        }),
{
}

/// What a call tells once its request was sent: the request as it was, and the
/// response as it came, or why there is none.
pub proof fn law_drafts_tell_the_exchange(state: State, event: Event)
    requires
        state is Send,
        event is Response,
    ensures
        ({
            let then = call::next(state, event);
            draft_in(then.0) matches Some(draft) && {
                &&& draft.origin == state->Send_call.origin
                &&& draft.version == state->Send_call.profile.version
                &&& draft.soap_action == state->Send_action
                &&& draft.endpoint == state->Send_url
                &&& draft.request_xml == state->Send_request_xml
                &&& draft.request_headers == state->Send_headers
                &&& event->Response_0 matches Ok(reply) ==> {
                    &&& draft.response == Some(response::summary_of(reply))
                    &&& draft.reading == response::reading_of(response::summary_of(reply).body)
                    &&& draft.error is None
                    &&& draft.reading.fault is None ==> then.1 == (Action::CheckStatus {
                        status_code: reply.status_code,
                        retry_after_ms: response::retry_after(reply.retry_after),
                    }) && then.0->CheckStatus_status_code == reply.status_code
                }
                &&& event->Response_0 matches Err(message) ==> {
                    &&& draft.response is None
                    &&& draft.reading.fault is None
                    &&& draft.error == Some(message)
                    &&& draft.reason == Some(message)
                    &&& draft.label == outcome::transport_label(message)
                    &&& then.1 == (Action::EncodeFailure { message })
                }
            }
        }),
{
}

/// A response without a fault ends the call at once if nothing is wrong with its
/// status, whatever the status is; else the call goes on with what is wrong with
/// it, and nothing else.
pub proof fn law_a_wrong_status_is_an_error(
    draft: DraftView,
    status_code: u16,
    status_error: Option<Downstream>,
)
    requires
        draft.reading.fault is None,
    ensures
        ({
            let then = call::next(
                State::CheckStatus { draft, status_code },
                Event::StatusError(status_error),
            );
            &&& status_error matches Some(error) ==> {
                &&& then.1 == (Action::EncodeError { error })
                &&& then.0 matches State::Encode { draft: d } && d == (DraftView {
                    label: outcome::status_label(status_code),
                    reason: Some(error.message),
                    ..draft
                })
            }
            &&& status_error is None ==> {
                &&& then.0 is Done
                &&& then.1 matches Action::Finish {
                    report: ReportView::Answered { result, label, .. },
                } && label == "ok"@ && result == call::result_of(draft, None)
            }
        }),
{
    response::law_without_a_fault_the_status_counts(None, status_code, status_error);
}

/// A call that went wrong ends with the value that was made of its error, its
/// label, its reason, and the status of its response where there is one.
pub proof fn law_failed_calls_end_with_their_error(draft: DraftView, value: Json)
    ensures
        ({
            let then = call::next(State::Encode { draft }, Event::Encoded(value));
            &&& then.0 is Done
            &&& then.1 matches Action::Finish {
                report: ReportView::Answered { result, label, status_code, reason },
            } && {
                &&& result == call::result_of(draft, Some(value))
                &&& label == draft.label
                &&& reason == draft.reason
                &&& draft.response matches Some(r) ==> status_code == Some(r.status_code)
                &&& draft.response is None ==> status_code is None
            }
        }),
{
}

/// The result that a report is answered with.
pub open spec fn answer_of(action: Action) -> Option<Json> {
    match action {
        Action::Finish { report: ReportView::Answered { result, .. } } => Some(result),
        _ => None,
    }
}

/// From its response on, a call is marked as failed if and only if there is a
/// fault or something is wrong with the status. `value` is what its error is
/// encoded as.
pub proof fn law_a_call_fails_iff_something_is_wrong(
    state: State,
    reply: ReplyView,
    status_error: Option<Downstream>,
    value: Json,
)
    requires
        state is Send,
        value != Json::Null,
    ensures
        ({
            let fault = response::reading_of(response::summary_of(reply).body).fault;
            let one = call::next(state, Event::Response(Ok(reply)));
            let two = if fault is Some {
                one
            } else {
                call::next(one.0, Event::StatusError(status_error))
            };
            let last = if two.0 is Done {
                two
            } else {
                call::next(two.0, Event::Encoded(value))
            };
            answer_of(last.1) matches Some(result) && {
                &&& fault is None && status_error is None ==> json::member(
                    result,
                    "downstreamError"@,
                ) == Some(Json::Null) && json::member(result, "downstreamErrors"@) == Some(
                    Json::Array(Seq::empty()),
                )
                &&& fault is Some || status_error is Some ==> json::member(
                    result,
                    "downstreamError"@,
                ) == Some(value) && json::member(result, "downstreamErrors"@) == Some(
                    Json::Array(seq![value]),
                )
            }
        }),
{
    let fault = response::reading_of(response::summary_of(reply).body).fault;
    let one = call::next(state, Event::Response(Ok(reply)));
    law_drafts_tell_the_exchange(state, Event::Response(Ok(reply)));
    if fault is Some {
        law_fault_responses_are_faults(state, Event::Response(Ok(reply)));
        law_result_tells_its_error(one.0->Encode_draft, Some(value));
    } else {
        let draft = one.0->CheckStatus_draft;
        law_a_wrong_status_is_an_error(draft, reply.status_code, status_error);
        law_result_tells_its_error(draft, None);
        let two = call::next(one.0, Event::StatusError(status_error));
        if two.0 is Encode {
            law_result_tells_its_error(two.0->Encode_draft, Some(value));
        }
    }
}

/// The result of a call tells the call and the exchange as they were.
pub proof fn law_result_tells_the_exchange(draft: DraftView, error: Option<Json>)
    ensures
        ({
            let result = call::result_of(draft, error);
            &&& json::member(result, "toolName"@) == Some(Json::Text(draft.origin.tool_name))
            &&& json::member(result, "profile"@) == Some(Json::Text(draft.origin.backend_name))
            &&& json::member(result, "soapVersion"@) == Some(
                Json::Text(types::label_of(draft.version)),
            )
            &&& json::member(result, "soapAction"@) == Some(
                json::optional_text_model(draft.soap_action),
            )
            &&& json::member(result, "request"@) == Some(
                envelope::request_json(draft.endpoint, draft.request_xml, draft.request_headers),
            )
            &&& draft.response matches Some(r) ==> json::member(result, "response"@) == Some(
                envelope::response_json(
                    r,
                    draft.reading.response_json,
                    draft.reading.json_parse_error,
                ),
            )
            &&& draft.response is None ==> json::member(result, "response"@) == Some(Json::Null)
        }),
{
    envelope::law_what_a_result_tells(
        Outcome {
            tool_name: draft.origin.tool_name,
            profile_name: draft.origin.backend_name,
            version: draft.version,
            soap_action: draft.soap_action,
            endpoint: draft.endpoint,
            request_xml: draft.request_xml,
            request_headers: draft.request_headers,
            response: draft.response,
            response_json: draft.reading.response_json,
            response_json_parse_error: draft.reading.json_parse_error,
            fault: draft.reading.fault,
            downstream_error: error,
            downstream_errors: match error {
                Some(value) => seq![value],
                None => Seq::empty(),
            },
            error: draft.error,
        },
    );
}

/// A call for a binding that is not there is refused by its name, and one whose
/// payload is not JSON with what is wrong with it.
pub proof fn law_refusals_say_why(
    origin: OriginView,
    profile: ProfileView,
    payload: Seq<u8>,
    e: Seq<char>,
)
    ensures
        call::next(State::Lookup { origin, payload }, Event::Profile(None)).1 == (Action::Finish {
            report: ReportView::Refused {
                error: Refusal::ProfileNotFound(origin.backend_name),
                label: "profile_not_found"@,
            },
        }),
        call::next(State::Decode { origin, profile }, Event::Arguments(Err(e))).1
            == (Action::Finish {
            report: ReportView::Refused {
                error: Refusal::InvalidSpec("SOAP plugin payload is not valid JSON: "@ + e),
                label: "invalid_spec"@,
            },
        }),
{
}

} // verus!
