use mcpg_plugin_backend_soap::string_map::StringMap;
use mcpg_plugin_backend_soap::types::{
    default_expected_status_codes, default_max_response_bytes, default_timeout_ms,
    SoapBackendSpec, SoapVersion,
};

#[test]
fn version_defaults_to_11() {
    assert_eq!(SoapVersion::default(), SoapVersion::V11);
}

#[test]
fn version_deserializes_from_dotted_string() {
    let v = SoapVersion::from_label("1.2").unwrap();
    assert_eq!(v, SoapVersion::V12);
}

#[test]
fn labels_read_back() {
    for v in [SoapVersion::V11, SoapVersion::V12] {
        assert_eq!(SoapVersion::from_label(v.as_str()), Some(v));
    }
    for label in ["", "1", "1.3", " 1.1", "V11"] {
        assert_eq!(SoapVersion::from_label(label), None);
    }
}

#[test]
fn content_type_carries_action_only_for_12() {
    assert_eq!(
        SoapVersion::V11.content_type(Some("urn:Foo")),
        "text/xml; charset=utf-8"
    );
    assert_eq!(
        SoapVersion::V12.content_type(Some("urn:Foo")),
        "application/soap+xml; charset=utf-8; action=\"urn:Foo\""
    );
    assert_eq!(
        SoapVersion::V12.content_type(None),
        "application/soap+xml; charset=utf-8"
    );
}

#[test]
fn soap_action_header_only_for_11() {
    assert_eq!(
        SoapVersion::V11.soap_action_header(Some("urn:Foo")),
        Some("\"urn:Foo\"".to_owned())
    );
    assert_eq!(
        SoapVersion::V11.soap_action_header(None),
        Some("\"\"".to_owned())
    );
    assert_eq!(SoapVersion::V12.soap_action_header(Some("urn:Foo")), None);
}

#[test]
fn empty_action_is_left_out_of_the_content_type() {
    assert_eq!(
        SoapVersion::V12.content_type(Some("")),
        "application/soap+xml; charset=utf-8"
    );
}

#[test]
fn versions_have_labels_and_namespaces() {
    assert_eq!(SoapVersion::V11.as_str(), "1.1");
    assert_eq!(SoapVersion::V12.as_str(), "1.2");
    assert_eq!(
        SoapVersion::V11.envelope_namespace(),
        "http://schemas.xmlsoap.org/soap/envelope/"
    );
    assert_eq!(
        SoapVersion::V12.envelope_namespace(),
        "http://www.w3.org/2003/05/soap-envelope"
    );
}

#[test]
fn spec_applies_soap_defaults() {
    let spec = SoapBackendSpec::with_defaults(
        "https://example.com/svc".to_owned(),
        "<tns:Ping/>".to_owned(),
    );
    assert_eq!(spec.soap_version, SoapVersion::V11);
    assert_eq!(spec.expected_status_codes, vec![200]);
    assert_eq!(spec.max_response_bytes, 1_048_576);
    assert_eq!(spec.timeout_ms, 30_000);
    assert!(!spec.allow_private_backends);
    assert!(spec.soap_action.is_none());
    assert!(spec.header_template.is_none());
    assert_eq!(spec.headers, StringMap::new());
    assert_eq!(spec.endpoint, "https://example.com/svc");
    assert_eq!(spec.body_template, "<tns:Ping/>");
}

#[test]
fn each_default_by_itself() {
    assert_eq!(default_expected_status_codes(), vec![200]);
    assert_eq!(default_max_response_bytes(), 1_048_576);
    assert_eq!(default_timeout_ms(), 30_000);
}
