//! How a binding is registered: its spec is checked, its templates are
//! compiled, and its network profile is set up.

use crate::json;
use crate::json::{Json, JsonValue};
use crate::string_map;
use crate::string_map::StringMap;
use crate::text;
use crate::text::{contains, joined, starts_with, to_decimal, trim};
use crate::types::{BackendError, Binding, Refusal, SoapBackendSpec};
use vstd::prelude::*;
use vstd::string::*;

verus! {

broadcast use crate::json::lemma_json_model;

/// `code` is a status code of HTTP.
pub open spec fn is_status_code(code: u16) -> bool {
    100 <= code <= 599
}

/// The first of `codes` that is no status code of HTTP.
pub open spec fn first_bad_code(codes: Seq<u16>) -> Option<u16>
    decreases codes.len(),
{
    if codes.len() == 0 {
        None
    } else if !is_status_code(codes[0]) {
        Some(codes[0])
    } else {
        first_bad_code(codes.drop_first())
    }
}

/// `template` refers to a credential.
pub open spec fn refers_to_credential(template: Option<Seq<char>>) -> bool {
    template is Some && text::contains_text(template->0, "cred://"@)
}

/// The message for a credential where none is resolved.
pub open spec fn credential_message(field: Seq<char>) -> Seq<char> {
    field
        + " must not contain cred:// — put transport credentials in an HTTP header (e.g. Authorization) instead"@
}

/// What is wrong with a spec: the first of its problems, if it has any.
pub open spec fn first_problem(spec: Binding) -> Option<Seq<char>> {
    if text::is_blank(spec.endpoint) {
        Some("endpoint must not be empty"@)
    } else if !text::occurs_at(spec.endpoint, "http://"@, 0) && !text::occurs_at(
        spec.endpoint,
        "https://"@,
        0,
    ) {
        Some(
            "endpoint must start with http:// or https://, got '"@ + spec.endpoint + "'"@,
        )
    } else if text::is_blank(spec.body_template) {
        Some("body_template must not be empty"@)
    } else if spec.timeout_ms == 0 {
        Some("timeout_ms must be greater than 0"@)
    } else if spec.max_response_bytes == 0 {
        Some("max_response_bytes must be greater than 0"@)
    } else if first_bad_code(spec.expected_status_codes) is Some {
        Some(
            "expected_status_codes entries must be valid HTTP status codes (100-599), got "@
                + text::decimal(first_bad_code(spec.expected_status_codes)->0 as nat),
        )
    } else if refers_to_credential(spec.soap_action) {
        Some(credential_message("soap_action"@))
    } else if refers_to_credential(Some(spec.body_template)) {
        Some(credential_message("body_template"@))
    } else if refers_to_credential(spec.header_template) {
        Some(credential_message("header_template"@))
    } else {
        None
    }
}

/// An error for a spec or a request that is not valid.
pub(crate) fn invalid(message: String) -> (error: BackendError)
    ensures
        error@ == Refusal::InvalidSpec(message@),
{
    BackendError::InvalidSpec { message }
}

/// The message for a credential where none is resolved.
fn no_credential(field: &str) -> (message: String)
    ensures
        message@ == credential_message(field@),
{
    joined(
        field,
        " must not contain cred:// — put transport credentials in an HTTP header (e.g. Authorization) instead",
    )
}

/// The first of `codes` that is no status code of HTTP.
fn bad_code(codes: &Vec<u16>) -> (bad: Option<u16>)
    ensures
        bad == first_bad_code(codes@),
{
    let mut i: usize = 0;
    assert(codes@.skip(0) =~= codes@);
    while i < codes.len()
        invariant
            i <= codes@.len(),
            first_bad_code(codes@.skip(i as int)) == first_bad_code(codes@),
        decreases codes@.len() - i,
    {
        let code: u16 = codes[i];
        assert(codes@.skip(i as int)[0] == code);
        if code < 100 || 599 < code {
            return Some(code);
        }
        assert(codes@.skip(i as int).drop_first() =~= codes@.skip(i + 1));
        i += 1;
    }
    None
}

/// What the checks of a spec come to.
pub open spec fn verdict(spec: Binding) -> Result<(), Refusal> {
    match first_problem(spec) {
        Some(message) => Err(Refusal::InvalidSpec(message)),
        None => Ok(()),
    }
}

/// A result in terms of what its error stands for.
pub open spec fn result_view(r: Result<(), BackendError>) -> Result<(), Refusal> {
    match r {
        Ok(()) => Ok(()),
        Err(e) => Err(e@),
    }
}

/// Checks a spec. Credentials are resolved in the endpoint and in the HTTP
/// headers alone, so a reference to one is refused in the action and in the
/// templates rather than sent as it stands.
pub fn validate_spec(spec: &SoapBackendSpec) -> (result: Result<(), BackendError>)
    ensures
        result_view(result) == verdict(spec@),
{
    if trim(&spec.endpoint).as_str().is_empty() {
        return Err(invalid("endpoint must not be empty".to_owned()));
    }
    if !starts_with(&spec.endpoint, "http://") && !starts_with(&spec.endpoint, "https://") {
        let mut message = joined(
            "endpoint must start with http:// or https://, got '",
            &spec.endpoint,
        );
        message.append("'");
        return Err(invalid(message));
    }
    if trim(&spec.body_template).as_str().is_empty() {
        return Err(invalid("body_template must not be empty".to_owned()));
    }
    if spec.timeout_ms == 0 {
        return Err(invalid("timeout_ms must be greater than 0".to_owned()));
    }
    if spec.max_response_bytes == 0 {
        return Err(invalid("max_response_bytes must be greater than 0".to_owned()));
    }
    if let Some(code) = bad_code(&spec.expected_status_codes) {
        return Err(
            invalid(
                joined(
                    "expected_status_codes entries must be valid HTTP status codes (100-599), got ",
                    &to_decimal(code as u128),
                ),
            ),
        );
    }
    if let Some(action) = &spec.soap_action {
        if contains(action, "cred://") {
            return Err(invalid(no_credential("soap_action")));
        }
    }
    if contains(&spec.body_template, "cred://") {
        return Err(invalid(no_credential("body_template")));
    }
    if let Some(header) = &spec.header_template {
        if contains(header, "cred://") {
            return Err(invalid(no_credential("header_template")));
        }
    }
    Ok(())
}

/// A template of a binding.
#[derive(Debug, Clone, Copy, PartialEq, Eq, Structural)]
pub enum Template {
    Action,
    Body,
    Header,
}

/// The field of the spec that holds a template.
pub open spec fn field_of(template: Template) -> Seq<char> {
    match template {
        Template::Action => "soap_action"@,
        Template::Body => "body_template"@,
        Template::Header => "header_template"@,
    }
}

impl Template {
    /// The field of the spec that holds the template.
    pub fn field(self) -> (name: &'static str)
        ensures
            name@ == field_of(self),
    {
        match self {
            Template::Action => "soap_action",
            Template::Body => "body_template",
            Template::Header => "header_template",
        }
    }
}

/// What to do next to register a binding.
#[derive(Debug, PartialEq, Eq)]
pub enum RegisterStep {
    /// Compile this template.
    Compile(Template),
    /// Set up the network profile.
    SetUp,
    /// Give up.
    Reject(BackendError),
}

/// A [`RegisterStep`] in terms of what its parts stand for.
pub enum Step {
    Compile(Template),
    SetUp,
    Reject(Refusal),
}

impl View for RegisterStep {
    type V = Step;

    open spec fn view(&self) -> Step {
        match self {
            RegisterStep::Compile(template) => Step::Compile(*template),
            RegisterStep::SetUp => Step::SetUp,
            RegisterStep::Reject(error) => Step::Reject(error@),
        }
    }
}

/// The first step for a spec.
pub open spec fn first_step(spec: Binding) -> Step {
    match first_problem(spec) {
        Some(message) => Step::Reject(Refusal::InvalidSpec(message)),
        None => if spec.soap_action is Some {
            Step::Compile(Template::Action)
        } else {
            Step::Compile(Template::Body)
        },
    }
}

/// The step after a template was compiled, or was not.
pub open spec fn step_after(
    template: Template,
    spec: Binding,
    compiled: Result<(), Seq<char>>,
) -> Step {
    match compiled {
        Err(e) => Step::Reject(
            Refusal::InvalidSpec(field_of(template) + " expression: "@ + e),
        ),
        Ok(()) => if template == Template::Action {
            Step::Compile(Template::Body)
        } else if template == Template::Body && spec.header_template is Some {
            Step::Compile(Template::Header)
        } else {
            Step::SetUp
        },
    }
}

/// A result in terms of character sequences.
pub open spec fn outcome_text(r: Result<(), String>) -> Result<(), Seq<char>> {
    match r {
        Ok(()) => Ok(()),
        Err(e) => Err(e@),
    }
}

/// Refuses what is not a spec at all; `e` says why.
pub fn unreadable_spec(e: &str) -> (error: BackendError)
    ensures
        error@ == Refusal::InvalidSpec("SOAP binding spec: "@ + e@),
{
    invalid(joined("SOAP binding spec: ", e))
}

/// Begins to register a binding: a spec with a problem is refused before
/// anything of it is compiled.
pub fn begin(spec: &SoapBackendSpec) -> (step: RegisterStep)
    ensures
        step@ == first_step(spec@),
{
    match validate_spec(spec) {
        Err(error) => RegisterStep::Reject(error),
        Ok(()) => {
            if spec.soap_action.is_some() {
                RegisterStep::Compile(Template::Action)
            } else {
                RegisterStep::Compile(Template::Body)
            }
        },
    }
}

/// Goes on once a template was compiled, or was not.
pub fn compiled(template: Template, spec: &SoapBackendSpec, outcome: Result<(), String>) -> (step:
    RegisterStep)
    ensures
        step@ == step_after(template, spec@, outcome_text(outcome)),
{
    match outcome {
        Err(e) => {
            let mut message = joined(template.field(), " expression: ");
            message.append(&e);
            RegisterStep::Reject(invalid(message))
        },
        Ok(()) => match template {
            Template::Action => RegisterStep::Compile(Template::Body),
            Template::Body => {
                if spec.header_template.is_some() {
                    RegisterStep::Compile(Template::Header)
                } else {
                    RegisterStep::SetUp
                }
            },
            Template::Header => RegisterStep::SetUp,
        },
    }
}

/// Ends the registration once the network profile was set up, or was not.
pub fn set_up(outcome: Result<(), String>) -> (result: Result<(), BackendError>)
    ensures
        result_view(result) == (match outcome_text(outcome) {
            Ok(()) => Ok(()),
            Err(e) => Err(Refusal::InvalidSpec("SOAP binding spec: "@ + e)),
        }),
{
    match outcome {
        Ok(()) => Ok(()),
        Err(e) => Err(unreadable_spec(&e)),
    }
}

/// How requests of a binding are made.
#[derive(Debug)]
pub struct NetworkProfile {
    /// The URL that is posted to.
    pub url: String,
    /// Further HTTP headers.
    pub headers: StringMap<String>,
    /// The status codes that are not an error.
    pub expected_status_codes: Vec<u16>,
    /// Whether a response has to be JSON.
    pub require_json_response: bool,
    /// How many bytes of a response are read at most.
    pub max_response_bytes: usize,
    /// The time limit, in milliseconds.
    pub timeout_ms: u64,
    /// Whether private and loopback addresses may be reached.
    pub allow_private_backends: bool,
}

/// How requests of a binding are made.
pub fn network_profile(spec: &SoapBackendSpec) -> (profile: NetworkProfile)
    ensures
        profile.url@ == spec@.endpoint,
        string_map::texts(profile.headers@) == spec@.headers,
        profile.expected_status_codes@ == spec@.expected_status_codes,
        !profile.require_json_response,
        profile.max_response_bytes == spec@.max_response_bytes,
        profile.timeout_ms == spec@.timeout_ms,
        profile.allow_private_backends == spec@.allow_private_backends,
{
    let mut codes: Vec<u16> = Vec::new();
    let mut i: usize = 0;
    while i < spec.expected_status_codes.len()
        invariant
            i <= spec.expected_status_codes@.len(),
            codes@ == spec.expected_status_codes@.take(i as int),
        decreases spec.expected_status_codes@.len() - i,
    {
        codes.push(spec.expected_status_codes[i]);
        i += 1;
        assert(codes@ =~= spec.expected_status_codes@.take(i as int));
    }
    assert(codes@ =~= spec.expected_status_codes@);
    NetworkProfile {
        url: spec.endpoint.clone(),
        headers: spec.headers.clone(),
        expected_status_codes: codes,
        require_json_response: false,
        max_response_bytes: spec.max_response_bytes,
        timeout_ms: spec.timeout_ms,
        allow_private_backends: spec.allow_private_backends,
    }
}

/// The strings among `items`, in their order.
pub open spec fn strings_among(items: Seq<Json>) -> Seq<Seq<char>>
    decreases items.len(),
{
    if items.len() == 0 {
        Seq::empty()
    } else {
        match items.last() {
            Json::Text(s) => strings_among(items.drop_last()).push(s),
            _ => strings_among(items.drop_last()),
        }
    }
}

/// The secrets that a raw spec names.
pub open spec fn secrets_of(spec: Json) -> Seq<Seq<char>> {
    match json::member(spec, "__mcpg_secret_refs"@) {
        Some(Json::Array(items)) => strings_among(items),
        _ => Seq::empty(),
    }
}

/// The secrets whose rotation concerns a binding, as the gateway lists them
/// in the raw spec. What is not a string is passed over.
pub fn secret_refs(spec: &JsonValue) -> (refs: Vec<String>)
    ensures
        text::texts(refs@) == secrets_of(spec@),
{
    let mut refs: Vec<String> = Vec::new();
    if let Some(JsonValue::Array(items)) = spec.get("__mcpg_secret_refs") {
        let ghost all = json::array_model(items@);
        let mut i: usize = 0;
        assert(text::texts(refs@) =~= strings_among(all.take(0)));
        while i < items.len()
            invariant
                i <= items@.len(),
                all == json::array_model(items@),
                text::texts(refs@) == strings_among(all.take(i as int)),
            decreases items@.len() - i,
        {
            let ghost before = refs@;
            assert(all.take(i + 1).drop_last() =~= all.take(i as int));
            assert(all.take(i + 1).last() == items@[i as int]@);
            if let JsonValue::Text(s) = &items[i] {
                refs.push(s.clone());
                assert(text::texts(refs@) =~= text::texts(before).push(s@));
            }
            i += 1;
        }
        assert(all.take(i as int) =~= all);
    }
    assert(refs@.len() == 0 ==> text::texts(refs@) =~= Seq::empty());
    refs
}

/// In a spec that is accepted neither the action nor a template refers to a
/// credential.
pub proof fn law_templates_refer_to_no_credential(spec: Binding)
    requires
        verdict(spec) is Ok,
    ensures
        !refers_to_credential(spec.soap_action),
        !refers_to_credential(Some(spec.body_template)),
        !refers_to_credential(spec.header_template),
{
}

/// Credentials may stand in HTTP headers: they have no part in whether a spec
/// is accepted.
pub proof fn law_headers_may_hold_credentials(
    spec: Binding,
    headers: Map<Seq<char>, Seq<char>>,
)
    ensures
        verdict(Binding { headers, ..spec }) == verdict(spec),
{
}

/// A spec that is accepted can be sent: its endpoint is an HTTP URL, its body
/// is not blank, its limits are not zero, and its status codes are those of
/// HTTP.
pub proof fn law_accepted_specs_are_usable(spec: Binding)
    requires
        verdict(spec) is Ok,
    ensures
        text::occurs_at(spec.endpoint, "http://"@, 0) || text::occurs_at(
            spec.endpoint,
            "https://"@,
            0,
        ),
        !text::is_blank(spec.body_template),
        spec.timeout_ms > 0,
        spec.max_response_bytes > 0,
        forall|i: int|
            0 <= i < spec.expected_status_codes.len() ==> is_status_code(
                #[trigger] spec.expected_status_codes[i],
            ),
{
    lemma_no_bad_code(spec.expected_status_codes);
}

proof fn lemma_no_bad_code(codes: Seq<u16>)
    ensures
        first_bad_code(codes) is None <==> forall|i: int|
            0 <= i < codes.len() ==> is_status_code(#[trigger] codes[i]),
    decreases codes.len(),
{
    if codes.len() > 0 {
        let tail = codes.drop_first();
        lemma_no_bad_code(tail);
        if first_bad_code(codes) is None {
            assert forall|i: int| 0 <= i < codes.len() implies is_status_code(
                #[trigger] codes[i],
            ) by {
                if i > 0 {
                    assert(codes[i] == tail[i - 1]);
                }
            }
        } else if is_status_code(codes[0]) {
            let i = choose|i: int| 0 <= i < tail.len() && !is_status_code(#[trigger] tail[i]);
            assert(tail[i] == codes[i + 1]);
        }
    }
}

/// How many steps there are at most from here on.
pub open spec fn steps_left(step: Step) -> nat {
    match step {
        Step::Compile(Template::Action) => 4,
        Step::Compile(Template::Body) => 3,
        Step::Compile(Template::Header) => 2,
        Step::SetUp => 1,
        Step::Reject(_) => 0,
    }
}

/// How a registration ends that stands at `step`, when compiling a template
/// comes to `compiling` and setting up the network profile to `network`.
pub open spec fn ends_with(
    step: Step,
    spec: Binding,
    compiling: spec_fn(Template) -> Result<(), Seq<char>>,
    network: Result<(), Seq<char>>,
) -> Result<(), Refusal>
    decreases steps_left(step),
{
    match step {
        Step::Reject(refusal) => Err(refusal),
        Step::SetUp => match network {
            Ok(()) => Ok(()),
            Err(e) => Err(Refusal::InvalidSpec("SOAP binding spec: "@ + e)),
        },
        Step::Compile(template) => ends_with(
            step_after(template, spec, compiling(template)),
            spec,
            compiling,
            network,
        ),
    }
}

/// A binding is registered if and only if its spec has no problem, each of
/// the templates that it has compiles, and its network profile is set up. All
/// that can go wrong makes an invalid spec.
pub proof fn law_registered_iff_all_is_well(
    spec: Binding,
    compiling: spec_fn(Template) -> Result<(), Seq<char>>,
    network: Result<(), Seq<char>>,
)
    ensures
        ends_with(first_step(spec), spec, compiling, network) is Ok <==> {
            &&& verdict(spec) is Ok
            &&& spec.soap_action is Some ==> compiling(Template::Action) is Ok
            &&& compiling(Template::Body) is Ok
            &&& spec.header_template is Some ==> compiling(Template::Header) is Ok
            &&& network is Ok
        },
        ends_with(first_step(spec), spec, compiling, network) matches Err(refusal)
            ==> refusal is InvalidSpec,
{
    reveal_with_fuel(ends_with, 5);
}

/// The spec can be sent, and refers to credentials only where they are resolved:
/// its endpoint is an HTTP URL, its body is not blank, its limits are not zero,
/// its status codes are those of HTTP, and neither the action nor a template
/// refers to a credential.
pub open spec fn is_usable(spec: Binding) -> bool {
    &&& text::occurs_at(spec.endpoint, "http://"@, 0) || text::occurs_at(
        spec.endpoint,
        "https://"@,
        0,
    )
    &&& !text::is_blank(spec.body_template)
    &&& spec.timeout_ms > 0
    &&& spec.max_response_bytes > 0
    &&& forall|i: int|
        0 <= i < spec.expected_status_codes.len() ==> 100
            <= #[trigger] spec.expected_status_codes[i] <= 599
    &&& !text::contains_text(spec.body_template, "cred://"@)
    &&& spec.soap_action is Some ==> !text::contains_text(spec.soap_action->0, "cred://"@)
    &&& spec.header_template is Some ==> !text::contains_text(spec.header_template->0, "cred://"@)
}

/// A spec is accepted if and only if it is usable.
pub proof fn law_accepted_iff_usable(spec: Binding)
    ensures
        verdict(spec) is Ok <==> is_usable(spec),
{
    lemma_no_bad_code(spec.expected_status_codes);
    if forall|i: int|
        0 <= i < spec.expected_status_codes.len() ==> 100
            <= #[trigger] spec.expected_status_codes[i] <= 599 {
        assert forall|i: int| 0 <= i < spec.expected_status_codes.len() implies is_status_code(
            #[trigger] spec.expected_status_codes[i],
        ) by {}
    }
    if first_bad_code(spec.expected_status_codes) is None {
        assert forall|i: int| 0 <= i < spec.expected_status_codes.len() implies 100
            <= #[trigger] spec.expected_status_codes[i] <= 599 by {
            assert(is_status_code(spec.expected_status_codes[i]));
        }
    }
    if text::occurs_at(spec.endpoint, "http://"@, 0) {
        lemma_begins_with_ink(spec.endpoint, "http://"@);
    }
    if text::occurs_at(spec.endpoint, "https://"@, 0) {
        lemma_begins_with_ink(spec.endpoint, "https://"@);
    }
}

proof fn lemma_begins_with_ink(endpoint: Seq<char>, scheme: Seq<char>)
    requires
        scheme == "http://"@ || scheme == "https://"@,
        text::occurs_at(endpoint, scheme, 0),
    ensures
        !text::is_blank(endpoint),
{
    reveal_strlit("http://");
    reveal_strlit("https://");
    assert(scheme[0] == 'h');
    assert(endpoint.subrange(0, scheme.len() as int)[0] == endpoint[0]);
    text::lemma_starts_with_ink(endpoint);
}

/// A status code that is none of HTTP is named in the refusal: the first of them,
/// where nothing else is wrong before it.
pub proof fn law_bad_status_codes_are_named(spec: Binding, at: int)
    requires
        text::occurs_at(spec.endpoint, "http://"@, 0) || text::occurs_at(
            spec.endpoint,
            "https://"@,
            0,
        ),
        !text::is_blank(spec.body_template),
        spec.timeout_ms > 0,
        spec.max_response_bytes > 0,
        0 <= at < spec.expected_status_codes.len(),
        !(100 <= spec.expected_status_codes[at] <= 599),
        forall|i: int| 0 <= i < at ==> 100 <= #[trigger] spec.expected_status_codes[i] <= 599,
    ensures
        verdict(spec) == Err::<(), Refusal>(
            Refusal::InvalidSpec(
                "expected_status_codes entries must be valid HTTP status codes (100-599), got "@
                    + text::decimal(spec.expected_status_codes[at] as nat),
            ),
        ),
{
    lemma_first_bad_code(spec.expected_status_codes, at);
    if text::occurs_at(spec.endpoint, "http://"@, 0) {
        lemma_begins_with_ink(spec.endpoint, "http://"@);
    } else {
        lemma_begins_with_ink(spec.endpoint, "https://"@);
    }
}

proof fn lemma_first_bad_code(codes: Seq<u16>, at: int)
    requires
        0 <= at < codes.len(),
        !(100 <= codes[at] <= 599),
        forall|i: int| 0 <= i < at ==> 100 <= #[trigger] codes[i] <= 599,
    ensures
        first_bad_code(codes) == Some(codes[at]),
    decreases codes.len(),
{
    if at > 0 {
        let tail = codes.drop_first();
        assert(100 <= codes[0] <= 599);
        assert forall|i: int| 0 <= i < at - 1 implies 100 <= #[trigger] tail[i] <= 599 by {
            assert(tail[i] == codes[i + 1]);
        }
        assert(tail[at - 1] == codes[at]);
        lemma_first_bad_code(tail, at - 1);
    }
}

/// Of the problems of a spec the first in the order of its fields is told.
pub proof fn law_first_problem_is_told(spec: Binding)
    ensures
        text::is_blank(spec.endpoint) ==> first_problem(spec) == Some(
            "endpoint must not be empty"@,
        ),
        !text::is_blank(spec.endpoint) && !text::occurs_at(spec.endpoint, "http://"@, 0)
            && !text::occurs_at(spec.endpoint, "https://"@, 0) ==> first_problem(spec) == Some(
            "endpoint must start with http:// or https://, got '"@ + spec.endpoint + "'"@,
        ),
        ({
            let reachable = text::occurs_at(spec.endpoint, "http://"@, 0) || text::occurs_at(
                spec.endpoint,
                "https://"@,
                0,
            );
            let bodied = reachable && !text::is_blank(spec.body_template);
            let timed = bodied && spec.timeout_ms > 0;
            &&& reachable && text::is_blank(spec.body_template) ==> first_problem(spec) == Some(
                "body_template must not be empty"@,
            )
            &&& bodied && spec.timeout_ms == 0 ==> first_problem(spec) == Some(
                "timeout_ms must be greater than 0"@,
            )
            &&& timed && spec.max_response_bytes == 0 ==> first_problem(spec) == Some(
                "max_response_bytes must be greater than 0"@,
            )
        }),
{
    if text::occurs_at(spec.endpoint, "http://"@, 0) {
        lemma_begins_with_ink(spec.endpoint, "http://"@);
    }
    if text::occurs_at(spec.endpoint, "https://"@, 0) {
        lemma_begins_with_ink(spec.endpoint, "https://"@);
    }
}

/// In a spec that is usable but for credentials, the first field that refers to
/// one is named.
pub proof fn law_credentials_are_refused_by_field(spec: Binding)
    requires
        text::occurs_at(spec.endpoint, "http://"@, 0) || text::occurs_at(
            spec.endpoint,
            "https://"@,
            0,
        ),
        !text::is_blank(spec.body_template),
        spec.timeout_ms > 0,
        spec.max_response_bytes > 0,
        forall|i: int|
            0 <= i < spec.expected_status_codes.len() ==> 100
                <= #[trigger] spec.expected_status_codes[i] <= 599,
    ensures
        ({
            let in_action = spec.soap_action is Some && text::contains_text(
                spec.soap_action->0,
                "cred://"@,
            );
            let in_body = text::contains_text(spec.body_template, "cred://"@);
            let in_header = spec.header_template is Some && text::contains_text(
                spec.header_template->0,
                "cred://"@,
            );
            first_problem(spec) == (if in_action {
                Some(credential_message("soap_action"@))
            } else if in_body {
                Some(credential_message("body_template"@))
            } else if in_header {
                Some(credential_message("header_template"@))
            } else {
                None
            })
        }),
{
    lemma_no_bad_code(spec.expected_status_codes);
    assert forall|i: int| 0 <= i < spec.expected_status_codes.len() implies is_status_code(
        #[trigger] spec.expected_status_codes[i],
    ) by {}
    if text::occurs_at(spec.endpoint, "http://"@, 0) {
        lemma_begins_with_ink(spec.endpoint, "http://"@);
    } else {
        lemma_begins_with_ink(spec.endpoint, "https://"@);
    }
}

/// The secrets of a spec are the strings of its list, in their order: those of
/// one part of the list, and then those of the other.
pub proof fn law_secrets_are_the_strings(a: Seq<Json>, b: Seq<Json>)
    ensures
        strings_among(a + b) == strings_among(a) + strings_among(b),
        b.len() == 1 ==> strings_among(b) == (match b[0] {
            Json::Text(s) => seq![s],
            _ => Seq::empty(),
        }),
    decreases b.len(),
{
    if b.len() == 0 {
        assert(a + b =~= a);
        assert(strings_among(a) + strings_among(b) =~= strings_among(a));
    } else {
        let fewer = b.drop_last();
        law_secrets_are_the_strings(a, fewer);
        assert((a + b).drop_last() =~= a + fewer);
        assert((a + b).last() == b.last());
        assert(strings_among(a + b) =~= strings_among(a) + strings_among(b));
        if b.len() == 1 {
            assert(fewer =~= Seq::empty());
            assert(strings_among(fewer) =~= Seq::empty());
            assert(strings_among(b) =~= (match b[0] {
                Json::Text(s) => seq![s],
                _ => Seq::empty(),
            }));
        }
    }
}

/// A spec names its secrets in the one list that is for them, and without such a
/// list it names none.
pub proof fn law_where_secrets_are_named(spec: Json, items: Seq<Json>)
    ensures
        json::member(spec, "__mcpg_secret_refs"@) == Some(Json::Array(items)) ==> secrets_of(spec)
            == strings_among(items),
        !(json::member(spec, "__mcpg_secret_refs"@) matches Some(Json::Array(_))) ==> secrets_of(
            spec,
        ).len() == 0,
{
}

/// A template that does not compile is refused by the field that holds it, with
/// what is wrong with it.
pub proof fn law_templates_are_refused_by_field(spec: Binding, e: Seq<char>)
    ensures
        step_after(Template::Action, spec, Err(e)) == Step::Reject(
            Refusal::InvalidSpec("soap_action"@ + " expression: "@ + e),
        ),
        step_after(Template::Body, spec, Err(e)) == Step::Reject(
            Refusal::InvalidSpec("body_template"@ + " expression: "@ + e),
        ),
        step_after(Template::Header, spec, Err(e)) == Step::Reject(
            Refusal::InvalidSpec("header_template"@ + " expression: "@ + e),
        ),
{
}

/// Who is refused for a credential is told the field, and where credentials
/// belong.
pub proof fn law_credential_messages_name_the_field(field: Seq<char>)
    ensures
        credential_message(field).len() > field.len(),
        credential_message(field).take(field.len() as int) == field,
        credential_message(field).skip(field.len() as int)
            == " must not contain cred:// — put transport credentials in an HTTP header (e.g. Authorization) instead"@,
{
    let rest =
        " must not contain cred:// — put transport credentials in an HTTP header (e.g. Authorization) instead"@;
    reveal_strlit(
        " must not contain cred:// — put transport credentials in an HTTP header (e.g. Authorization) instead",
    );
    assert(credential_message(field).take(field.len() as int) =~= field);
    assert(credential_message(field).skip(field.len() as int) =~= rest);
}

} // verus!
