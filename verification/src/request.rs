//! The HTTP request that carries an envelope.

use crate::text;
use crate::text::{eq_ignore_ascii_case, same_text, to_ascii_lowercase};
use vstd::prelude::*;
use vstd::string::*;

verus! {

/// Header fields in terms of character sequences.
pub type Fields = Seq<(Seq<char>, Seq<char>)>;

/// The value of the first field with this name, whatever the case of the
/// letters.
pub open spec fn first_named(fields: Fields, name: Seq<char>) -> Option<Seq<char>>
    decreases fields.len(),
{
    if fields.len() == 0 {
        None
    } else if text::ascii_lowered(fields[0].0) == text::ascii_lowered(name) {
        Some(fields[0].1)
    } else {
        first_named(fields.drop_first(), name)
    }
}

/// The tool that a request is for: what its headers say, or else the binding.
pub open spec fn tool_of(fields: Fields, backend_name: Seq<char>) -> Seq<char> {
    match first_named(fields, "mcpg-tool-name"@) {
        Some(name) => name,
        None => backend_name,
    }
}

/// `name` is that of a W3C trace header.
pub open spec fn is_trace_header(name: Seq<char>) -> bool {
    text::ascii_lowered(name) == "traceparent"@ || text::ascii_lowered(name) == "tracestate"@
}

/// The trace headers among `fields`, in their order.
pub open spec fn trace_fields(fields: Fields) -> Fields
    decreases fields.len(),
{
    if fields.len() == 0 {
        Seq::empty()
    } else if is_trace_header(fields.last().0) {
        trace_fields(fields.drop_last()).push(fields.last())
    } else {
        trace_fields(fields.drop_last())
    }
}

/// The tool that a request is for: what its `mcpg-tool-name` header says, or
/// else the binding.
pub fn tool_name(headers: &Vec<(String, String)>, backend_name: &str) -> (name: String)
    ensures
        name@ == tool_of(text::pairs(headers@), backend_name@),
{
    let ghost all = text::pairs(headers@);
    let mut i: usize = 0;
    assert(all.skip(0) =~= all);
    while i < headers.len()
        invariant
            i <= headers@.len(),
            all == text::pairs(headers@),
            first_named(all.skip(i as int), "mcpg-tool-name"@) == first_named(
                all,
                "mcpg-tool-name"@,
            ),
        decreases headers@.len() - i,
    {
        assert(all.skip(i as int)[0] == (headers@[i as int].0@, headers@[i as int].1@));
        assert(all.skip(i as int).drop_first() =~= all.skip(i + 1));
        if eq_ignore_ascii_case(&headers[i].0, "mcpg-tool-name") {
            return headers[i].1.clone();
        }
        i += 1;
    }
    backend_name.to_owned()
}

/// The W3C trace headers of a request, which are passed on to the service.
pub fn trace_headers(headers: &Vec<(String, String)>) -> (trace: Vec<(String, String)>)
    ensures
        text::pairs(trace@) == trace_fields(text::pairs(headers@)),
{
    let ghost all = text::pairs(headers@);
    let mut trace: Vec<(String, String)> = Vec::new();
    let mut i: usize = 0;
    assert(text::pairs(trace@) =~= trace_fields(all.take(0)));
    while i < headers.len()
        invariant
            i <= headers@.len(),
            all == text::pairs(headers@),
            text::pairs(trace@) == trace_fields(all.take(i as int)),
        decreases headers@.len() - i,
    {
        let ghost before = trace@;
        assert(all.take(i + 1).drop_last() =~= all.take(i as int));
        assert(all.take(i + 1).last() == (headers@[i as int].0@, headers@[i as int].1@));
        let lower = to_ascii_lowercase(&headers[i].0);
        if same_text(&lower, "traceparent") || same_text(&lower, "tracestate") {
            trace.push((headers[i].0.clone(), headers[i].1.clone()));
            assert(text::pairs(trace@) =~= text::pairs(before).push(
                all.take(i + 1).last(),
            ));
        }
        i += 1;
    }
    assert(all.take(i as int) =~= all);
    trace
}

/// The request to send.
#[derive(Debug, Clone, PartialEq, Eq)]
pub struct HttpRequest {
    /// The URL to post to.
    pub url: String,
    /// The headers that the call adds to those of the client.
    pub headers: Vec<(String, String)>,
    /// The envelope.
    pub body: String,
    /// How many bytes of the response to read at most.
    pub max_response_bytes: usize,
}

/// An [`HttpRequest`] in terms of character sequences.
#[verifier::ext_equal]
pub struct RequestView {
    pub url: Seq<char>,
    pub headers: Fields,
    pub body: Seq<char>,
    pub max_response_bytes: usize,
}

impl View for HttpRequest {
    type V = RequestView;

    open spec fn view(&self) -> RequestView {
        RequestView {
            url: self.url@,
            headers: text::pairs(self.headers@),
            body: self.body@,
            max_response_bytes: self.max_response_bytes,
        }
    }
}

/// The headers that a call adds to those of the client.
pub open spec fn call_headers(
    content_type: Seq<char>,
    soap_action_header: Option<Seq<char>>,
    trace: Fields,
) -> Fields {
    let typed = seq![
        ("Content-Type"@, content_type),
        ("Accept"@, "text/xml, application/soap+xml, application/xml, */*"@),
    ];
    match soap_action_header {
        Some(value) => typed.push(("SOAPAction"@, value)) + trace,
        None => typed + trace,
    }
}

/// The headers that a call adds to those of the client: the content type, what
/// is accepted, the action where it travels as a header, and the trace.
pub fn outbound_headers(
    content_type: &str,
    soap_action_header: Option<&str>,
    trace: &Vec<(String, String)>,
) -> (headers: Vec<(String, String)>)
    ensures
        text::pairs(headers@) == call_headers(
            content_type@,
            text::optional_str(soap_action_header),
            text::pairs(trace@),
        ),
{
    let mut headers: Vec<(String, String)> = Vec::new();
    headers.push(("Content-Type".to_owned(), content_type.to_owned()));
    headers.push(
        (
            "Accept".to_owned(),
            "text/xml, application/soap+xml, application/xml, */*".to_owned(),
        ),
    );
    if let Some(action) = soap_action_header {
        headers.push(("SOAPAction".to_owned(), action.to_owned()));
    }
    let ghost own = headers@;
    assert(text::pairs(own) =~= call_headers(
        content_type@,
        text::optional_str(soap_action_header),
        Seq::empty(),
    ));
    let mut i: usize = 0;
    while i < trace.len()
        invariant
            i <= trace@.len(),
            headers@.len() == own.len() + i,
            forall|k: int| 0 <= k < own.len() ==> headers@[k] == own[k],
            forall|k: int|
                0 <= k < i ==> (#[trigger] trace@[k]).0@ == headers@[own.len() + k].0@
                    && trace@[k].1@ == headers@[own.len() + k].1@,
        decreases trace@.len() - i,
    {
        headers.push((trace[i].0.clone(), trace[i].1.clone()));
        i += 1;
    }
    assert(text::pairs(headers@) =~= text::pairs(own) + text::pairs(trace@));
    assert(text::pairs(headers@) =~= call_headers(
        content_type@,
        text::optional_str(soap_action_header),
        text::pairs(trace@),
    ));
    headers
}

/// Of the headers of a request only those of the trace are passed on.
pub proof fn law_only_the_trace_is_passed_on(fields: Fields, i: int)
    requires
        0 <= i < trace_fields(fields).len(),
    ensures
        is_trace_header(trace_fields(fields)[i].0),
        fields.contains(trace_fields(fields)[i]),
    decreases fields.len(),
{
    let fewer = fields.drop_last();
    if i < trace_fields(fewer).len() {
        law_only_the_trace_is_passed_on(fewer, i);
        let k = choose|k: int| 0 <= k < fewer.len() && fewer[k] == trace_fields(fewer)[i];
        assert(fields[k] == fewer[k]);
    } else {
        assert(fields[fields.len() - 1] == fields.last());
    }
}

/// The whole trace is passed on.
pub proof fn law_the_trace_is_passed_on(fields: Fields, i: int)
    requires
        0 <= i < fields.len(),
        is_trace_header(fields[i].0),
    ensures
        trace_fields(fields).contains(fields[i]),
    decreases fields.len(),
{
    let fewer = fields.drop_last();
    if i < fields.len() - 1 {
        law_the_trace_is_passed_on(fewer, i);
        let k = choose|k: int|
            0 <= k < trace_fields(fewer).len() && trace_fields(fewer)[k] == fewer[i];
        assert(trace_fields(fields)[k] == trace_fields(fewer)[k]);
    } else {
        assert(trace_fields(fields)[trace_fields(fewer).len() as int] == fields[i]);
    }
}

/// The tool of a call is the value of the first `mcpg-tool-name` header, whatever
/// the case of its letters, and the binding where there is none.
pub proof fn law_tool_of_a_call(fields: Fields, backend_name: Seq<char>, at: int)
    requires
        0 <= at <= fields.len(),
        forall|i: int|
            0 <= i < at ==> text::ascii_lowered((#[trigger] fields[i]).0) != "mcpg-tool-name"@,
        at < fields.len() ==> text::ascii_lowered(fields[at].0) == "mcpg-tool-name"@,
    ensures
        tool_of(fields, backend_name) == (if at < fields.len() {
            fields[at].1
        } else {
            backend_name
        }),
{
    reveal_strlit("mcpg-tool-name");
    assert(text::ascii_lowered("mcpg-tool-name"@) =~= "mcpg-tool-name"@);
    lemma_first_named(fields, "mcpg-tool-name"@, at);
}

proof fn lemma_first_named(fields: Fields, name: Seq<char>, at: int)
    requires
        0 <= at <= fields.len(),
        forall|i: int|
            0 <= i < at ==> text::ascii_lowered((#[trigger] fields[i]).0) != text::ascii_lowered(
                name,
            ),
        at < fields.len() ==> text::ascii_lowered(fields[at].0) == text::ascii_lowered(name),
    ensures
        first_named(fields, name) == (if at < fields.len() {
            Some(fields[at].1)
        } else {
            None
        }),
    decreases fields.len(),
{
    if at > 0 {
        let tail = fields.drop_first();
        assert(text::ascii_lowered(fields[0].0) != text::ascii_lowered(name));
        assert forall|i: int| 0 <= i < at - 1 implies text::ascii_lowered((#[trigger] tail[i]).0)
            != text::ascii_lowered(name) by {
            assert(tail[i] == fields[i + 1]);
        }
        assert(at < fields.len() ==> tail[at - 1] == fields[at]);
        lemma_first_named(tail, name, at - 1);
    }
}

/// The trace is passed on in its order and no more than once: that of some
/// fields, and then that of the others.
pub proof fn law_the_trace_keeps_its_order(a: Fields, b: Fields)
    ensures
        trace_fields(a + b) == trace_fields(a) + trace_fields(b),
        b.len() == 1 ==> trace_fields(b) == (if text::ascii_lowered(b[0].0) == "traceparent"@
            || text::ascii_lowered(b[0].0) == "tracestate"@ {
            b
        } else {
            Seq::empty()
        }),
    decreases b.len(),
{
    if b.len() == 0 {
        assert(a + b =~= a);
        assert(trace_fields(a) + trace_fields(b) =~= trace_fields(a));
    } else {
        let fewer = b.drop_last();
        law_the_trace_keeps_its_order(a, fewer);
        assert((a + b).drop_last() =~= a + fewer);
        assert((a + b).last() == b.last());
        assert(trace_fields(a + b) =~= trace_fields(a) + trace_fields(b));
        if b.len() == 1 {
            assert(fewer =~= Seq::empty());
            assert(trace_fields(fewer) =~= Seq::empty());
            assert(Seq::<(Seq<char>, Seq<char>)>::empty().push(b[0]) =~= b);
        }
    }
}

/// A request says what it is and what it accepts, carries the action where that
/// travels as a header, and ends with the trace.
pub proof fn law_headers_of_a_request(
    content_type: Seq<char>,
    action: Option<Seq<char>>,
    trace: Fields,
)
    ensures
        ({
            let headers = call_headers(content_type, action, trace);
            let own = headers.len() - trace.len();
            &&& own == (if action is Some {
                3int
            } else {
                2int
            })
            &&& headers.skip(own) == trace
            &&& headers[0] == ("Content-Type"@, content_type)
            &&& headers[1] == ("Accept"@, "text/xml, application/soap+xml, application/xml, */*"@)
            &&& action is Some ==> headers[2] == ("SOAPAction"@, action->0)
        }),
{
    let headers = call_headers(content_type, action, trace);
    assert(headers.skip(headers.len() - trace.len()) =~= trace);
}

} // verus!
