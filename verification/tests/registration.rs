use mcpg_plugin_backend_soap::json::{put, JsonNumber, JsonValue};
use mcpg_plugin_backend_soap::registration::{
    begin, compiled, network_profile, secret_refs, set_up, unreadable_spec, validate_spec,
    RegisterStep, Template,
};
use mcpg_plugin_backend_soap::string_map::StringMap;
use mcpg_plugin_backend_soap::types::{BackendError, SoapBackendSpec, SoapVersion};

fn spec(endpoint: &str, body_template: &str) -> SoapBackendSpec {
    SoapBackendSpec::with_defaults(endpoint.to_owned(), body_template.to_owned())
}

fn minimal_spec() -> SoapBackendSpec {
    let mut spec = spec(
        "https://soap.example.com/svc",
        "<tns:GetWeather xmlns:tns=\"urn:w\"><City>${arguments.city}</City></tns:GetWeather>",
    );
    spec.soap_action = Some("urn:GetWeather".to_owned());
    spec
}

fn invalid(message: &str) -> BackendError {
    BackendError::InvalidSpec {
        message: message.to_owned(),
    }
}

fn rejects(spec: &SoapBackendSpec, message: &str) {
    assert_eq!(validate_spec(spec), Err(invalid(message)));
    assert_eq!(begin(spec), RegisterStep::Reject(invalid(message)));
}

#[test]
fn register_accepts_minimal_spec() {
    let spec = minimal_spec();
    assert_eq!(begin(&spec), RegisterStep::Compile(Template::Action));
    assert_eq!(
        compiled(Template::Action, &spec, Ok(())),
        RegisterStep::Compile(Template::Body)
    );
    assert_eq!(
        compiled(Template::Body, &spec, Ok(())),
        RegisterStep::SetUp
    );
    assert_eq!(set_up(Ok(())), Ok(()));
    assert_eq!(spec.soap_version, SoapVersion::V11);
    assert_eq!(network_profile(&spec).url, "https://soap.example.com/svc");
    assert!(spec.soap_action.is_some());
}

#[test]
fn register_detects_cred_refs_in_headers() {
    let mut spec = minimal_spec();
    let mut headers = StringMap::new();
    headers.insert(
        "Authorization".to_owned(),
        "Bearer cred://oauth/api".to_owned(),
    );
    spec.headers = headers;
    assert_eq!(validate_spec(&spec), Ok(()));
    assert_eq!(
        network_profile(&spec).headers.get("Authorization").map(String::as_str),
        Some("Bearer cred://oauth/api")
    );
}

#[test]
fn register_rejects_cred_in_body_template() {
    let mut spec = minimal_spec();
    spec.body_template = "<x>cred://oauth/api</x>".to_owned();
    rejects(
        &spec,
        "body_template must not contain cred:// — put transport credentials in an HTTP header \
         (e.g. Authorization) instead",
    );
}

#[test]
fn register_rejects_empty_endpoint() {
    rejects(&spec("", "<x/>"), "endpoint must not be empty");
    rejects(&spec(" \t", "<x/>"), "endpoint must not be empty");
}

#[test]
fn register_rejects_non_http_endpoint() {
    rejects(
        &spec("ftp://x/", "<x/>"),
        "endpoint must start with http:// or https://, got 'ftp://x/'",
    );
    rejects(
        &spec(" http://x/", "<x/>"),
        "endpoint must start with http:// or https://, got ' http://x/'",
    );
}

#[test]
fn register_rejects_empty_body_template() {
    rejects(&spec("https://x/", "   "), "body_template must not be empty");
}

#[test]
fn omitted_defaults_resolve_to_gateway_values() {
    let spec = spec("https://soap.example.com/svc", "<tns:Ping/>");
    assert_eq!(begin(&spec), RegisterStep::Compile(Template::Body));
    assert_eq!(spec.soap_version, SoapVersion::V11);
    let net = network_profile(&spec);
    assert_eq!(net.expected_status_codes, vec![200]);
    assert_eq!(net.max_response_bytes, 1_048_576);
    assert_eq!(net.timeout_ms, 30_000);
    assert!(!net.require_json_response);
    assert!(!net.allow_private_backends);
    assert!(spec.soap_action.is_none());
    assert!(spec.header_template.is_none());
}

#[test]
fn register_rejects_zero_timeout() {
    let mut spec = minimal_spec();
    spec.timeout_ms = 0;
    rejects(&spec, "timeout_ms must be greater than 0");
}

#[test]
fn register_rejects_zero_max_response_bytes() {
    let mut spec = minimal_spec();
    spec.max_response_bytes = 0;
    rejects(&spec, "max_response_bytes must be greater than 0");
}

#[test]
fn register_rejects_out_of_range_status_code() {
    let mut spec = minimal_spec();
    spec.expected_status_codes = vec![99];
    rejects(
        &spec,
        "expected_status_codes entries must be valid HTTP status codes (100-599), got 99",
    );
    spec.expected_status_codes = vec![100, 599, 600, 0];
    rejects(
        &spec,
        "expected_status_codes entries must be valid HTTP status codes (100-599), got 600",
    );
    spec.expected_status_codes = vec![];
    assert_eq!(validate_spec(&spec), Ok(()));
}

#[test]
fn register_rejects_unknown_soap_version() {
    assert_eq!(SoapVersion::from_label("1.3"), None);
    let err = unreadable_spec("unknown variant `1.3`, expected `1.1` or `1.2`");
    assert!(matches!(err, BackendError::InvalidSpec { .. }));
}

#[test]
fn register_rejects_cred_in_soap_action() {
    let mut spec = minimal_spec();
    spec.soap_action = Some("cred://oauth/api".to_owned());
    rejects(
        &spec,
        "soap_action must not contain cred:// — put transport credentials in an HTTP header \
         (e.g. Authorization) instead",
    );
}

#[test]
fn register_rejects_cred_in_header_template() {
    let mut spec = minimal_spec();
    spec.header_template = Some("<wsa:To>cred://oauth/api</wsa:To>".to_owned());
    rejects(
        &spec,
        "header_template must not contain cred:// — put transport credentials in an HTTP header \
         (e.g. Authorization) instead",
    );
}

#[test]
fn the_first_problem_is_told() {
    let mut spec = spec("", " ");
    spec.timeout_ms = 0;
    rejects(&spec, "endpoint must not be empty");
    spec.endpoint = "http://x".to_owned();
    rejects(&spec, "body_template must not be empty");
    spec.body_template = "cred://".to_owned();
    rejects(&spec, "timeout_ms must be greater than 0");
}

#[test]
fn templates_that_do_not_compile_are_rejected() {
    let mut spec = minimal_spec();
    spec.header_template = Some("<h/>".to_owned());
    for (template, message) in [
        (Template::Action, "soap_action expression: bad"),
        (Template::Body, "body_template expression: bad"),
        (Template::Header, "header_template expression: bad"),
    ] {
        assert_eq!(
            compiled(template, &spec, Err("bad".to_owned())),
            RegisterStep::Reject(invalid(message))
        );
    }
    assert_eq!(
        compiled(Template::Body, &spec, Ok(())),
        RegisterStep::Compile(Template::Header)
    );
    assert_eq!(
        compiled(Template::Header, &spec, Ok(())),
        RegisterStep::SetUp
    );
}

#[test]
fn other_failures_are_invalid_specs() {
    assert_eq!(unreadable_spec("x"), invalid("SOAP binding spec: x"));
    assert_eq!(
        set_up(Err("y".to_owned())),
        Err(invalid("SOAP binding spec: y"))
    );
}

#[test]
fn secrets_are_the_strings_of_the_list() {
    let mut spec = StringMap::new();
    put(
        &mut spec,
        "__mcpg_secret_refs",
        JsonValue::Array(vec![
            JsonValue::text("a"),
            JsonValue::Number(JsonNumber::Unsigned(1)),
            JsonValue::text("b"),
        ]),
    );
    assert_eq!(
        secret_refs(&JsonValue::Object(spec)),
        vec!["a".to_owned(), "b".to_owned()]
    );
    let mut other = StringMap::new();
    put(&mut other, "__mcpg_secret_refs", JsonValue::text("a"));
    assert!(secret_refs(&JsonValue::Object(other)).is_empty());
    assert!(secret_refs(&JsonValue::Null).is_empty());
}
