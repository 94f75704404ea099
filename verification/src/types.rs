//! SOAP versions, the binding spec that operators write, and the outcome of
//! one HTTP exchange.

use crate::string_map;
use crate::string_map::StringMap;
use crate::text;
use crate::text::same_text;
use vstd::prelude::*;
use vstd::string::*;

verus! {

/// The SOAP protocol version. It decides the envelope namespace, the request
/// `Content-Type`, and where the action travels: a `SOAPAction` header in
/// 1.1, an `action=` parameter of the `Content-Type` in 1.2.
#[derive(Debug, Clone, Copy, PartialEq, Eq, Structural)]
pub enum SoapVersion {
    /// SOAP 1.1: `text/xml`, a `SOAPAction` header, and the namespace
    /// `http://schemas.xmlsoap.org/soap/envelope/`.
    V11,
    /// SOAP 1.2: `application/soap+xml`, the action as a parameter of the
    /// `Content-Type`, and the namespace
    /// `http://www.w3.org/2003/05/soap-envelope`.
    V12,
}

impl Default for SoapVersion {
    /// SOAP 1.1.
    fn default() -> (version: Self)
        ensures
            version == SoapVersion::V11,
    {
        SoapVersion::V11
    }
}

/// The namespace of a version's envelope.
pub open spec fn namespace_of(version: SoapVersion) -> Seq<char> {
    match version {
        SoapVersion::V11 => "http://schemas.xmlsoap.org/soap/envelope/"@,
        SoapVersion::V12 => "http://www.w3.org/2003/05/soap-envelope"@,
    }
}

/// A version's label.
pub open spec fn label_of(version: SoapVersion) -> Seq<char> {
    match version {
        SoapVersion::V11 => "1.1"@,
        SoapVersion::V12 => "1.2"@,
    }
}

/// `a` between double quotes.
pub open spec fn quoted(a: Seq<char>) -> Seq<char> {
    "\""@ + a + "\""@
}

/// The `Content-Type` of a request.
pub open spec fn content_type_of(version: SoapVersion, action: Option<Seq<char>>) -> Seq<char> {
    match version {
        SoapVersion::V11 => "text/xml; charset=utf-8"@,
        SoapVersion::V12 => if action is Some && action->0.len() > 0 {
            "application/soap+xml; charset=utf-8; action="@ + quoted(action->0)
        } else {
            "application/soap+xml; charset=utf-8"@
        },
    }
}

/// The `SOAPAction` header of a request.
pub open spec fn action_header_of(version: SoapVersion, action: Option<Seq<char>>) -> Option<
    Seq<char>,
> {
    match version {
        SoapVersion::V11 => Some(quoted(text::or_empty(action))),
        SoapVersion::V12 => None,
    }
}

/// `a` between double quotes.
fn quote(a: &str) -> (s: String)
    ensures
        s@ == quoted(a@),
{
    let mut s = "\"".to_owned();
    s.append(a);
    s.append("\"");
    s
}

impl SoapVersion {
    /// The namespace URI of the `soap:Envelope` element.
    pub fn envelope_namespace(self) -> (ns: &'static str)
        ensures
            ns@ == namespace_of(self),
    {
        match self {
            SoapVersion::V11 => "http://schemas.xmlsoap.org/soap/envelope/",
            SoapVersion::V12 => "http://www.w3.org/2003/05/soap-envelope",
        }
    }

    /// The label used in the result envelope and in audit records.
    pub fn as_str(self) -> (label: &'static str)
        ensures
            label@ == label_of(self),
    {
        match self {
            SoapVersion::V11 => "1.1",
            SoapVersion::V12 => "1.2",
        }
    }

    /// The version with this label, which is how bindings spell it.
    pub fn from_label(label: &str) -> (version: Option<SoapVersion>)
        ensures
            forall|v: SoapVersion| version == Some(v) <==> label@ == #[trigger] label_of(v),
    {
        proof {
            reveal_strlit("1.1");
            reveal_strlit("1.2");
            assert("1.1"@[2] == '1' && "1.2"@[2] == '2');
        }
        if same_text(label, "1.1") {
            Some(SoapVersion::V11)
        } else if same_text(label, "1.2") {
            Some(SoapVersion::V12)
        } else {
            None
        }
    }

    /// The request's `Content-Type`. In 1.2 an action that is not empty
    /// rides along as an `action` parameter; in 1.1 it travels in a header
    /// of its own (see [`SoapVersion::soap_action_header`]).
    pub fn content_type(self, action: Option<&str>) -> (value: String)
        ensures
            value@ == content_type_of(self, text::optional_str(action)),
    {
        match self {
            SoapVersion::V11 => "text/xml; charset=utf-8".to_owned(),
            SoapVersion::V12 => match action {
                Some(a) => {
                    if a.is_empty() {
                        "application/soap+xml; charset=utf-8".to_owned()
                    } else {
                        let mut value = "application/soap+xml; charset=utf-8; action=".to_owned();
                        value.append(&quote(a));
                        value
                    }
                },
                None => "application/soap+xml; charset=utf-8".to_owned(),
            },
        }
    }

    /// The `SOAPAction` header. In 1.1 it is always sent, in quotes, and
    /// empty when there is no action; in 1.2 there is none.
    pub fn soap_action_header(self, action: Option<&str>) -> (value: Option<String>)
        ensures
            text::optional(value) == action_header_of(self, text::optional_str(action)),
    {
        match self {
            SoapVersion::V11 => match action {
                Some(a) => Some(quote(a)),
                None => Some(quote(&String::new())),
            },
            SoapVersion::V12 => None,
        }
    }
}

/// What an operator writes to bind one SOAP operation.
#[derive(Debug, Clone)]
pub struct SoapBackendSpec {
    /// The absolute `http(s)://` URL that envelopes are posted to.
    pub endpoint: String,
    /// The SOAP version.
    pub soap_version: SoapVersion,
    /// The action URI of the operation, a template. `None` sends an empty
    /// action.
    pub soap_action: Option<String>,
    /// The contents of `<soap:Body>`, a template.
    pub body_template: String,
    /// The contents of `<soap:Header>`, a template.
    pub header_template: Option<String>,
    /// Further HTTP headers. Transport credentials belong here.
    pub headers: StringMap<String>,
    /// The HTTP status codes of a response that are not an error. A response
    /// that carries a fault is an error whatever its status.
    pub expected_status_codes: Vec<u16>,
    /// How many bytes of a response are read at most.
    pub max_response_bytes: usize,
    /// The time limit of a call, in milliseconds.
    pub timeout_ms: u64,
    /// Whether private and loopback addresses may be reached.
    pub allow_private_backends: bool,
}

/// A [`SoapBackendSpec`] in terms of what its parts stand for.
pub struct Binding {
    pub endpoint: Seq<char>,
    pub soap_version: SoapVersion,
    pub soap_action: Option<Seq<char>>,
    pub body_template: Seq<char>,
    pub header_template: Option<Seq<char>>,
    pub headers: Map<Seq<char>, Seq<char>>,
    pub expected_status_codes: Seq<u16>,
    pub max_response_bytes: usize,
    pub timeout_ms: u64,
    pub allow_private_backends: bool,
}

impl View for SoapBackendSpec {
    type V = Binding;

    open spec fn view(&self) -> Binding {
        Binding {
            endpoint: self.endpoint@,
            soap_version: self.soap_version,
            soap_action: text::optional(self.soap_action),
            body_template: self.body_template@,
            header_template: text::optional(self.header_template),
            headers: string_map::texts(self.headers@),
            expected_status_codes: self.expected_status_codes@,
            max_response_bytes: self.max_response_bytes,
            timeout_ms: self.timeout_ms,
            allow_private_backends: self.allow_private_backends,
        }
    }
}

impl SoapBackendSpec {
    /// A spec that names the endpoint and the body alone: SOAP 1.1, no
    /// action, no header and no HTTP headers, status 200 expected, at most 1
    /// MiB and 30 seconds, and no private addresses.
    pub fn with_defaults(endpoint: String, body_template: String) -> (spec: Self)
        ensures
            spec@ == (Binding {
                endpoint: endpoint@,
                soap_version: SoapVersion::V11,
                soap_action: None,
                body_template: body_template@,
                header_template: None,
                headers: Map::empty(),
                expected_status_codes: seq![200u16],
                max_response_bytes: 1_048_576,
                timeout_ms: 30_000,
                allow_private_backends: false,
            }),
    {
        let spec = SoapBackendSpec {
            endpoint,
            soap_version: SoapVersion::default(),
            soap_action: None,
            body_template,
            header_template: None,
            headers: StringMap::new(),
            expected_status_codes: default_expected_status_codes(),
            max_response_bytes: default_max_response_bytes(),
            timeout_ms: default_timeout_ms(),
            allow_private_backends: false,
        };
        assert(spec@.headers =~= Map::empty());
        spec
    }
}

/// Versions have labels of their own: reading a version's label back gives that
/// version and no other.
pub proof fn law_labels_tell_versions_apart(a: SoapVersion, b: SoapVersion)
    ensures
        label_of(a) == label_of(b) <==> a == b,
{
    reveal_strlit("1.1");
    reveal_strlit("1.2");
    assert("1.1"@[2] == '1' && "1.2"@[2] == '2');
}

/// The action travels in one place. In 1.1 it is a header, and the content
/// type does not depend on it; in 1.2 there is no such header, and an action
/// that is not empty ends the content type.
pub proof fn law_action_travels_in_one_place(version: SoapVersion, action: Seq<char>)
    ensures
        version == SoapVersion::V11 ==> action_header_of(version, Some(action)) == Some(
            quoted(action),
        ) && content_type_of(version, Some(action)) == content_type_of(version, None),
        version == SoapVersion::V12 ==> action_header_of(version, Some(action)) is None,
        version == SoapVersion::V12 && action.len() > 0 ==> content_type_of(version, Some(action))
            == content_type_of(version, None) + "; action="@ + quoted(action),
        version == SoapVersion::V12 && action.len() == 0 ==> content_type_of(version, Some(action))
            == content_type_of(version, None),
{
    reveal_strlit("application/soap+xml; charset=utf-8; action=");
    reveal_strlit("application/soap+xml; charset=utf-8");
    reveal_strlit("; action=");
    assert("application/soap+xml; charset=utf-8; action="@
        =~= "application/soap+xml; charset=utf-8"@ + "; action="@);
}

/// Why a request to the backend is refused.
#[derive(Debug, Clone, PartialEq, Eq)]
pub enum BackendError {
    /// The binding spec or the request is not valid.
    InvalidSpec { message: String },
    /// No binding of this name is registered.
    ProfileNotFound { backend_name: String },
    /// The answer could not be handed over.
    Transport { message: String },
}

/// A [`BackendError`] in terms of character sequences.
pub enum Refusal {
    InvalidSpec(Seq<char>),
    ProfileNotFound(Seq<char>),
    Transport(Seq<char>),
}

impl View for BackendError {
    type V = Refusal;

    open spec fn view(&self) -> Refusal {
        match self {
            BackendError::InvalidSpec { message } => Refusal::InvalidSpec(message@),
            BackendError::ProfileNotFound { backend_name } => Refusal::ProfileNotFound(
                backend_name@,
            ),
            BackendError::Transport { message } => Refusal::Transport(message@),
        }
    }
}

/// What came back over HTTP.
#[derive(Debug, Clone, PartialEq, Eq)]
pub struct HttpResponseSummary {
    /// The status code.
    pub status_code: u16,
    /// The `Content-Type`, where it is text.
    pub content_type: Option<String>,
    /// What `Retry-After` asks for, in milliseconds.
    pub retry_after_ms: Option<u64>,
    /// The body, as far as it was read.
    pub body: String,
    /// Whether the body is longer than was read.
    pub body_truncated: bool,
    /// How long the exchange took, in milliseconds.
    pub duration_ms: u64,
}

/// A [`HttpResponseSummary`] in terms of character sequences.
pub struct Summary {
    pub status_code: u16,
    pub content_type: Option<Seq<char>>,
    pub retry_after_ms: Option<u64>,
    pub body: Seq<char>,
    pub body_truncated: bool,
    pub duration_ms: u64,
}

impl View for HttpResponseSummary {
    type V = Summary;

    open spec fn view(&self) -> Summary {
        Summary {
            status_code: self.status_code,
            content_type: text::optional(self.content_type),
            retry_after_ms: self.retry_after_ms,
            body: self.body@,
            body_truncated: self.body_truncated,
            duration_ms: self.duration_ms,
        }
    }
}

/// The status codes expected where a spec names none: 200 alone.
pub fn default_expected_status_codes() -> (codes: Vec<u16>)
    ensures
        codes@ == seq![200u16],
{
    let codes: Vec<u16> = vec![200];
    assert(codes@ =~= seq![200u16]);
    codes
}

/// The response limit where a spec names none: 1 MiB.
pub fn default_max_response_bytes() -> (limit: usize)
    ensures
        limit == 1024 * 1024,
{
    1_048_576
}

/// The time limit where a spec names none: 30 seconds.
pub fn default_timeout_ms() -> (limit: u64)
    ensures
        limit == 30 * 1000,
{
    30_000
}

/// What the versions are called, and what they have on the wire: the namespace,
/// the content type, and whether the action is a header of its own.
pub proof fn law_versions_on_the_wire(version: SoapVersion, action: Option<Seq<char>>)
    ensures
        version == SoapVersion::V11 ==> namespace_of(version)
            == "http://schemas.xmlsoap.org/soap/envelope/"@ && content_type_of(version, action)
            == "text/xml; charset=utf-8"@,
        version == SoapVersion::V12 ==> namespace_of(version)
            == "http://www.w3.org/2003/05/soap-envelope"@ && content_type_of(version, None)
            == "application/soap+xml; charset=utf-8"@,
        version == SoapVersion::V11 ==> label_of(version) == "1.1"@,
        version == SoapVersion::V12 ==> label_of(version) == "1.2"@,
        action_header_of(version, action) is Some <==> version == SoapVersion::V11,
        action is None ==> action_header_of(version, action) == action_header_of(
            version,
            Some(Seq::empty()),
        ),
{
}

/// A quoted text is the text between two double quotes.
pub proof fn law_quoted(a: Seq<char>)
    ensures
        quoted(a).len() == a.len() + 2,
        quoted(a)[0] == '"',
        quoted(a).last() == '"',
        quoted(a).subrange(1, a.len() as int + 1) == a,
{
    reveal_strlit("\"");
    assert(quoted(a).subrange(1, a.len() as int + 1) =~= a);
}

} // verus!
