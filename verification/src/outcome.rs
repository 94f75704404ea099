//! How a finished call is counted and audited.

use crate::json;
use crate::json::{no_members, put, Json, JsonNumber, JsonValue};
use crate::string_map;
use crate::string_map::StringMap;
use crate::text;
use crate::text::{contains, joined, same_text, to_ascii_lowercase, to_decimal};
use vstd::prelude::*;
use vstd::string::*;

verus! {

broadcast use crate::json::lemma_json_model;

/// The label of a response with this status, without a fault.
pub open spec fn status_label(status: u16) -> Seq<char> {
    if 400 <= status <= 499 {
        "http_4xx"@
    } else if 500 <= status <= 599 {
        "http_5xx"@
    } else {
        "ok"@
    }
}

/// The label of a response by its status. The labels are a closed set, so
/// that metrics stay few; 4xx and 5xx are counted by class.
pub fn host_outcome_label_for_status(status: u16) -> (label: &'static str)
    ensures
        label@ == status_label(status),
{
    if 400 <= status && status <= 499 {
        "http_4xx"
    } else if 500 <= status && status <= 599 {
        "http_5xx"
    } else {
        "ok"
    }
}

/// The label of an exchange that brought no response.
pub open spec fn transport_label(message: Seq<char>) -> Seq<char> {
    let lower = text::ascii_lowered(message);
    if text::contains_text(lower, "timed out"@) || text::contains_text(lower, "timeout"@) {
        "timeout"@
    } else {
        "transport"@
    }
}

/// The label of an exchange that brought no response. That it timed out shows
/// in the message alone.
pub fn host_outcome_label_for_transport_error(message: &str) -> (label: &'static str)
    ensures
        label@ == transport_label(message@),
{
    let lower = to_ascii_lowercase(message);
    if contains(&lower, "timed out") || contains(&lower, "timeout") {
        "timeout"
    } else {
        "transport"
    }
}

/// The audit action for a label.
pub open spec fn audit_action(label: Seq<char>) -> Option<Seq<char>> {
    if label == "timeout"@ {
        Some("dev.mcpg.backend.soap.request_timeout"@)
    } else if label == "transport"@ {
        Some("dev.mcpg.backend.soap.request_failed"@)
    } else if label == "http_5xx"@ {
        Some("dev.mcpg.backend.soap.upstream_5xx"@)
    } else if label == "soap_fault"@ {
        Some("dev.mcpg.backend.soap.fault"@)
    } else if label == "invalid_spec"@ {
        Some("dev.mcpg.backend.soap.request_failed"@)
    } else {
        None
    }
}

/// The audit action for a label. Success and 4xx, which is normal traffic,
/// have none; a fault always has one.
pub fn audit_action_for_outcome(label: &str) -> (action: Option<&'static str>)
    ensures
        text::optional_str(action) == audit_action(label@),
{
    if same_text(label, "timeout") {
        Some("dev.mcpg.backend.soap.request_timeout")
    } else if same_text(label, "transport") {
        Some("dev.mcpg.backend.soap.request_failed")
    } else if same_text(label, "http_5xx") {
        Some("dev.mcpg.backend.soap.upstream_5xx")
    } else if same_text(label, "soap_fault") {
        Some("dev.mcpg.backend.soap.fault")
    } else if same_text(label, "invalid_spec") {
        Some("dev.mcpg.backend.soap.request_failed")
    } else {
        None
    }
}

/// The label is one of those that a call can have.
pub open spec fn is_label(label: Seq<char>) -> bool {
    ||| label == "ok"@
    ||| label == "http_4xx"@
    ||| label == "http_5xx"@
    ||| label == "soap_fault"@
    ||| label == "timeout"@
    ||| label == "transport"@
    ||| label == "invalid_spec"@
    ||| label == "profile_not_found"@
}

/// The labels that are found by status or message belong to the closed set.
pub proof fn law_labels_are_closed(status: u16, message: Seq<char>)
    ensures
        is_label(status_label(status)),
        is_label(transport_label(message)),
{
}

/// Of all labels, only success, 4xx and an unknown binding go unaudited.
pub proof fn law_notable_failures_are_audited(label: Seq<char>)
    requires
        is_label(label),
    ensures
        audit_action(label) is None <==> label == "ok"@ || label == "http_4xx"@ || label
            == "profile_not_found"@,
{
    reveal_strlit("ok");
    reveal_strlit("http_4xx");
    reveal_strlit("http_5xx");
    reveal_strlit("soap_fault");
    reveal_strlit("timeout");
    reveal_strlit("transport");
    reveal_strlit("invalid_spec");
    reveal_strlit("profile_not_found");
    assert("ok"@.len() == 2 && "http_4xx"@.len() == 8 && "http_5xx"@.len() == 8);
    assert("soap_fault"@.len() == 10 && "timeout"@.len() == 7 && "transport"@.len() == 9);
    assert("invalid_spec"@.len() == 12 && "profile_not_found"@.len() == 17);
    assert("http_4xx"@[5] == '4' && "http_5xx"@[5] == '5');
}

/// An identity that acts.
#[derive(Debug, Clone, PartialEq, Eq)]
pub struct PluginIdentity {
    pub kind: String,
    pub trust_level: String,
    pub subject_id: Option<String>,
    pub auth_provider: Option<String>,
    pub issuer: Option<String>,
    pub roles: Vec<String>,
    pub groups: Vec<String>,
    pub scopes: Vec<String>,
}

/// A [`PluginIdentity`] in terms of character sequences.
#[verifier::ext_equal]
pub struct Identity {
    pub kind: Seq<char>,
    pub trust_level: Seq<char>,
    pub subject_id: Option<Seq<char>>,
    pub auth_provider: Option<Seq<char>>,
    pub issuer: Option<Seq<char>>,
    pub roles: Seq<Seq<char>>,
    pub groups: Seq<Seq<char>>,
    pub scopes: Seq<Seq<char>>,
}

impl View for PluginIdentity {
    type V = Identity;

    open spec fn view(&self) -> Identity {
        Identity {
            kind: self.kind@,
            trust_level: self.trust_level@,
            subject_id: text::optional(self.subject_id),
            auth_provider: text::optional(self.auth_provider),
            issuer: text::optional(self.issuer),
            roles: text::texts(self.roles@),
            groups: text::texts(self.groups@),
            scopes: text::texts(self.scopes@),
        }
    }
}

/// Who acts in an audit record.
#[derive(Debug, Clone, PartialEq, Eq)]
pub enum Actor {
    /// The caller of the request.
    Caller,
    /// The backend itself, where no caller is known.
    System(PluginIdentity),
}

/// An [`Actor`] in terms of character sequences.
#[verifier::ext_equal]
pub enum ActorView {
    Caller,
    System(Identity),
}

impl View for Actor {
    type V = ActorView;

    open spec fn view(&self) -> ActorView {
        match self {
            Actor::Caller => ActorView::Caller,
            Actor::System(identity) => ActorView::System(identity@),
        }
    }
}

/// The identity of the backend as it acts on its own.
pub open spec fn system_identity() -> Identity {
    Identity {
        kind: "system"@,
        trust_level: "verified"@,
        subject_id: Some("dev.mcpg.backend.soap"@),
        auth_provider: None,
        issuer: None,
        roles: Seq::empty(),
        groups: Seq::empty(),
        scopes: Seq::empty(),
    }
}

/// The identity for requests that carry none.
pub fn synthetic_system_identity() -> (identity: PluginIdentity)
    ensures
        identity@ == system_identity(),
{
    let identity = PluginIdentity {
        kind: "system".to_owned(),
        trust_level: "verified".to_owned(),
        subject_id: Some("dev.mcpg.backend.soap".to_owned()),
        auth_provider: None,
        issuer: None,
        roles: Vec::new(),
        groups: Vec::new(),
        scopes: Vec::new(),
    };
    assert(identity@ =~= system_identity());
    identity
}

/// What is recorded of a call that failed. When it happened is added by who
/// keeps the record.
#[derive(Debug, PartialEq, Eq)]
pub struct AuditRecord {
    pub event_id: String,
    pub actor: Actor,
    pub action: String,
    pub resource: String,
    pub request_id: String,
    pub details: JsonValue,
}

/// An [`AuditRecord`] in terms of what its parts stand for.
pub struct Audit {
    pub event_id: Seq<char>,
    pub actor: ActorView,
    pub action: Seq<char>,
    pub resource: Seq<char>,
    pub request_id: Seq<char>,
    pub details: Json,
}

impl View for AuditRecord {
    type V = Audit;

    open spec fn view(&self) -> Audit {
        Audit {
            event_id: self.event_id@,
            actor: self.actor@,
            action: self.action@,
            resource: self.resource@,
            request_id: self.request_id@,
            details: self.details@,
        }
    }
}

/// A call that has come to its end.
pub struct Finished {
    pub backend_name: Seq<char>,
    pub label: Seq<char>,
    pub status_code: Option<u16>,
    pub reason: Option<Seq<char>>,
    pub has_caller: bool,
    pub alias: Json,
    pub request_id: Seq<char>,
    pub duration_ns: u128,
}

/// A duration in milliseconds, in 64 bits.
pub open spec fn millis(duration_ns: u128) -> u64 {
    ((duration_ns / 1_000_000) % 0x1_0000_0000_0000_0000) as u64
}

/// `members` with the status, where there is one.
pub open spec fn with_status(members: Map<Seq<char>, Json>, status_code: Option<u16>) -> Map<
    Seq<char>,
    Json,
> {
    match status_code {
        Some(status) => members.insert(
            "status_code"@,
            Json::Number(JsonNumber::Unsigned(status as u64)),
        ),
        None => members,
    }
}

/// `members` with the reason, where there is one.
pub open spec fn with_reason(members: Map<Seq<char>, Json>, reason: Option<Seq<char>>) -> Map<
    Seq<char>,
    Json,
> {
    match reason {
        Some(reason) => members.insert("reason"@, Json::Text(reason)),
        None => members,
    }
}

/// What is recorded of a call, if its label asks for a record.
pub open spec fn audit_of(call: Finished) -> Option<Audit> {
    match audit_action(call.label) {
        None => None,
        Some(action) => Some(
            Audit {
                event_id: "soap-"@ + call.request_id + "-"@ + text::decimal(
                    call.duration_ns as nat,
                ),
                actor: if call.has_caller {
                    ActorView::Caller
                } else {
                    ActorView::System(system_identity())
                },
                action,
                resource: "soap-binding://"@ + call.backend_name,
                request_id: call.request_id,
                details: Json::Object(
                    with_reason(
                        with_status(
                            map![
                                "backend"@ => Json::Text(call.backend_name),
                                "duration_ms"@ => Json::Number(
                                    JsonNumber::Unsigned(millis(call.duration_ns)),
                                ),
                                "outcome"@ => Json::Text(call.label),
                                "alias"@ => call.alias,
                            ],
                            call.status_code,
                        ),
                        call.reason,
                    ),
                ),
            },
        ),
    }
}

/// An optional record.
pub open spec fn optional_audit(o: Option<AuditRecord>) -> Option<Audit> {
    match o {
        Some(record) => Some(record@),
        None => None,
    }
}

/// What to record of a finished call: nothing, unless its label is that of a
/// notable failure.
pub fn audit_record(
    backend_name: &str,
    outcome_label: &str,
    status_code: Option<u16>,
    reason: Option<&str>,
    has_caller: bool,
    alias: JsonValue,
    request_id: &str,
    duration_ns: u128,
) -> (record: Option<AuditRecord>)
    ensures
        optional_audit(record) == audit_of(
            Finished {
                backend_name: backend_name@,
                label: outcome_label@,
                status_code,
                reason: text::optional_str(reason),
                has_caller,
                alias: alias@,
                request_id: request_id@,
                duration_ns,
            },
        ),
{
    let action = match audit_action_for_outcome(outcome_label) {
        Some(action) => action,
        None => {
            return None;
        },
    };
    let duration_ms: u64 = ((duration_ns / 1_000_000) % 0x1_0000_0000_0000_0000) as u64;
    let mut details = no_members();
    put(&mut details, "backend", JsonValue::text(backend_name));
    put(&mut details, "duration_ms", JsonValue::Number(JsonNumber::Unsigned(duration_ms)));
    put(&mut details, "outcome", JsonValue::text(outcome_label));
    put(&mut details, "alias", alias);
    if let Some(status) = status_code {
        put(
            &mut details,
            "status_code",
            JsonValue::Number(JsonNumber::Unsigned(status as u64)),
        );
    }
    if let Some(reason) = reason {
        put(&mut details, "reason", JsonValue::text(reason));
    }
    let mut event_id = joined("soap-", request_id);
    event_id.append("-");
    event_id.append(&to_decimal(duration_ns));
    let actor = if has_caller {
        Actor::Caller
    } else {
        Actor::System(synthetic_system_identity())
    };
    Some(
        AuditRecord {
            event_id,
            actor,
            action: action.to_owned(),
            resource: joined("soap-binding://", backend_name),
            request_id: request_id.to_owned(),
            details: JsonValue::Object(details),
        },
    )
}

/// The headers that a result shows.
pub open spec fn display_headers(
    resolved: Map<Seq<char>, Seq<char>>,
    content_type: Seq<char>,
    soap_action_header: Option<Seq<char>>,
) -> Map<Seq<char>, Seq<char>> {
    let typed = resolved.insert("Content-Type"@, content_type);
    match soap_action_header {
        Some(action) => typed.insert("SOAPAction"@, action),
        None => typed,
    }
}

/// The headers that a result shows: those of the client, and the ones that a
/// call adds.
pub fn build_display_headers(
    resolved_headers: &StringMap<String>,
    content_type: &str,
    soap_action_header: Option<&str>,
) -> (out: StringMap<String>)
    ensures
        string_map::texts(out@) == display_headers(
            string_map::texts(resolved_headers@),
            content_type@,
            text::optional_str(soap_action_header),
        ),
{
    let mut out = resolved_headers.clone();
    out.insert("Content-Type".to_owned(), content_type.to_owned());
    if let Some(action) = soap_action_header {
        out.insert("SOAPAction".to_owned(), action.to_owned());
    }
    assert(string_map::texts(out@) =~= display_headers(
        string_map::texts(resolved_headers@),
        content_type@,
        text::optional_str(soap_action_header),
    ));
    out
}

/// What the backend adds to every audit record of the gateway.
pub fn audit_metadata() -> (members: StringMap<JsonValue>)
    ensures
        json::object_model(members@) == map!["soap.transport"@ => Json::Text("plugin"@)],
{
    let mut members = no_members();
    put(&mut members, "soap.transport", JsonValue::text("plugin"));
    members
}

/// The keys of the details of a record are different.
proof fn lemma_detail_keys()
    ensures
        "backend"@.len() == 7,
        "duration_ms"@.len() == 11,
        "outcome"@.len() == 7,
        "alias"@.len() == 5,
        "status_code"@.len() == 11,
        "reason"@.len() == 6,
        "backend"@ != "outcome"@,
        "duration_ms"@ != "status_code"@,
{
    reveal_strlit("backend");
    reveal_strlit("duration_ms");
    reveal_strlit("outcome");
    reveal_strlit("alias");
    reveal_strlit("status_code");
    reveal_strlit("reason");
    assert("backend"@.len() == 7);
    assert("duration_ms"@.len() == 11);
    assert("outcome"@.len() == 7);
    assert("alias"@.len() == 5);
    assert("status_code"@.len() == 11);
    assert("reason"@.len() == 6);
    assert("backend"@[0] == 'b');
    assert("duration_ms"@[0] == 'd');
    assert("outcome"@[0] == 'o');
    assert("status_code"@[0] == 's');
}

/// The labels are different.
proof fn lemma_labels()
    ensures
        "ok"@.len() == 2,
        "http_4xx"@.len() == 8,
        "http_5xx"@.len() == 8,
        "soap_fault"@.len() == 10,
        "timeout"@.len() == 7,
        "transport"@.len() == 9,
        "invalid_spec"@.len() == 12,
        "profile_not_found"@.len() == 17,
        "http_4xx"@ != "http_5xx"@,
{
    reveal_strlit("ok");
    reveal_strlit("http_4xx");
    reveal_strlit("http_5xx");
    reveal_strlit("soap_fault");
    reveal_strlit("timeout");
    reveal_strlit("transport");
    reveal_strlit("invalid_spec");
    reveal_strlit("profile_not_found");
    assert("ok"@.len() == 2);
    assert("http_4xx"@.len() == 8);
    assert("http_5xx"@.len() == 8);
    assert("soap_fault"@.len() == 10);
    assert("timeout"@.len() == 7);
    assert("transport"@.len() == 9);
    assert("invalid_spec"@.len() == 12);
    assert("profile_not_found"@.len() == 17);
    assert("http_4xx"@[5] == '4');
    assert("http_5xx"@[5] == '5');
}

/// The label of a response says the class of its status: 4xx and 5xx each have
/// one, and no other status has either.
pub proof fn law_labels_by_status(status: u16)
    ensures
        status_label(status) == "http_4xx"@ <==> 400 <= status < 500,
        status_label(status) == "http_5xx"@ <==> 500 <= status < 600,
        status_label(status) == "ok"@ <==> status < 400 || status >= 600,
{
    lemma_labels();
}

/// An exchange without a response timed out if and only if its message says so,
/// whatever the case of its letters; else it failed in transport.
pub proof fn law_labels_by_message(message: Seq<char>)
    ensures
        transport_label(message) == "timeout"@ <==> exists|i: int|
            text::occurs_at(text::ascii_lowered(message), "timed out"@, i) || text::occurs_at(
                text::ascii_lowered(message),
                "timeout"@,
                i,
            ),
        transport_label(message) != "timeout"@ ==> transport_label(message) == "transport"@,
        transport_label(text::ascii_lowered(message)) == transport_label(message),
{
    lemma_labels();
    let lower = text::ascii_lowered(message);
    assert(text::ascii_lowered(lower) =~= lower) by {
        assert forall|i: int| 0 <= i < message.len() implies text::ascii_lowered(lower)[i]
            == #[trigger] lower[i] by {
            text::law_lower_case(message, i);
        }
    }
    if text::contains_text(lower, "timed out"@) {
        let i = choose|i: int| text::occurs_at(lower, "timed out"@, i);
        assert(text::occurs_at(lower, "timed out"@, i) || text::occurs_at(lower, "timeout"@, i));
    }
    if text::contains_text(lower, "timeout"@) {
        let i = choose|i: int| text::occurs_at(lower, "timeout"@, i);
        assert(text::occurs_at(lower, "timed out"@, i) || text::occurs_at(lower, "timeout"@, i));
    }
}

/// The action under which each failure is audited.
pub proof fn law_audit_actions(label: Seq<char>)
    requires
        is_label(label),
    ensures
        label == "timeout"@ ==> audit_action(label) == Some(
            "dev.mcpg.backend.soap.request_timeout"@,
        ),
        label == "transport"@ || label == "invalid_spec"@ ==> audit_action(label) == Some(
            "dev.mcpg.backend.soap.request_failed"@,
        ),
        label == "http_5xx"@ ==> audit_action(label) == Some("dev.mcpg.backend.soap.upstream_5xx"@),
        label == "soap_fault"@ ==> audit_action(label) == Some("dev.mcpg.backend.soap.fault"@),
        label == "ok"@ || label == "http_4xx"@ || label == "profile_not_found"@ ==> audit_action(
            label,
        ) is None,
{
    lemma_labels();
}

/// A call is recorded if and only if its label has an action. The record names
/// that action, the binding, the request, and who acted: the caller where there
/// is one.
pub proof fn law_who_and_what_is_recorded(call: Finished)
    ensures
        audit_of(call) is Some <==> audit_action(call.label) is Some,
        audit_of(call) matches Some(audit) ==> {
            &&& Some(audit.action) == audit_action(call.label)
            &&& audit.resource == "soap-binding://"@ + call.backend_name
            &&& audit.request_id == call.request_id
            &&& audit.event_id == "soap-"@ + call.request_id + "-"@ + text::decimal(
                call.duration_ns as nat,
            )
            &&& call.has_caller ==> audit.actor is Caller
            &&& !call.has_caller ==> audit.actor == ActorView::System(system_identity())
        },
{
}

/// The details of a record are the binding, the duration, the label and the
/// alias, the status and the reason where there is one, and nothing else.
pub proof fn law_details_of_a_record(call: Finished, key: Seq<char>)
    requires
        audit_of(call) is Some,
    ensures
        ({
            let details = audit_of(call)->0.details;
            &&& json::member(details, "backend"@) == Some(Json::Text(call.backend_name))
            &&& json::member(details, "duration_ms"@) == Some(
                Json::Number(JsonNumber::Unsigned(millis(call.duration_ns))),
            )
            &&& json::member(details, "outcome"@) == Some(Json::Text(call.label))
            &&& json::member(details, "alias"@) == Some(call.alias)
            &&& json::member(details, "status_code"@) == (match call.status_code {
                Some(status) => Some(Json::Number(JsonNumber::Unsigned(status as u64))),
                None => None,
            })
            &&& json::member(details, "reason"@) == (match call.reason {
                Some(reason) => Some(Json::Text(reason)),
                None => None,
            })
            &&& json::member(details, key) is Some ==> {
                ||| key == "backend"@
                ||| key == "duration_ms"@
                ||| key == "outcome"@
                ||| key == "alias"@
                ||| key == "status_code"@
                ||| key == "reason"@
            }
        }),
{
    lemma_detail_keys();
}

/// The duration of a record is in whole milliseconds, as long as 64 bits hold
/// them.
pub proof fn law_durations_are_in_milliseconds(duration_ns: u128)
    requires
        duration_ns < 1_000_000 * 0x1_0000_0000_0000_0000,
    ensures
        millis(duration_ns) * 1_000_000 <= duration_ns < (millis(duration_ns) + 1) * 1_000_000,
{
    let ms = duration_ns / 1_000_000;
    assert(ms < 0x1_0000_0000_0000_0000);
    assert(ms % 0x1_0000_0000_0000_0000 == ms);
}

/// The headers that a result shows are those of the client, with the content
/// type of the call and, where it travels as a header, the action.
pub proof fn law_headers_on_display(
    resolved: Map<Seq<char>, Seq<char>>,
    content_type: Seq<char>,
    action: Option<Seq<char>>,
    name: Seq<char>,
)
    ensures
        ({
            let shown = display_headers(resolved, content_type, action);
            &&& shown.contains_key("Content-Type"@) && shown["Content-Type"@] == content_type
            &&& action is Some ==> shown.contains_key("SOAPAction"@) && shown["SOAPAction"@]
                == action->0
            &&& name != "Content-Type"@ && !(name == "SOAPAction"@ && action is Some) ==> {
                &&& shown.contains_key(name) == resolved.contains_key(name)
                &&& resolved.contains_key(name) ==> shown[name] == resolved[name]
            }
        }),
{
    reveal_strlit("Content-Type");
    reveal_strlit("SOAPAction");
    assert("Content-Type"@.len() == 12 && "SOAPAction"@.len() == 10);
}

/// Where no caller is known the backend acts as itself: a verified part of the
/// system, under its own name, with no rights of its own.
pub proof fn law_the_backend_acts_as_itself()
    ensures
        ({
            let identity = system_identity();
            &&& identity.kind == "system"@
            &&& identity.trust_level == "verified"@
            &&& identity.subject_id == Some("dev.mcpg.backend.soap"@)
            &&& identity.auth_provider is None && identity.issuer is None
            &&& identity.roles.len() == 0 && identity.groups.len() == 0 && identity.scopes.len()
                == 0
        }),
{
}

} // verus!
