use mcpg_plugin_backend_soap::fault::{fault_in, parse_fault, SoapFault};
use mcpg_plugin_backend_soap::json::{put, JsonNumber, JsonValue};
use mcpg_plugin_backend_soap::projection::{json_in, xml_to_json};
use mcpg_plugin_backend_soap::references::resolve_reference;
use mcpg_plugin_backend_soap::string_map::StringMap;
use mcpg_plugin_backend_soap::types::SoapVersion;
use mcpg_plugin_backend_soap::xml::{build_envelope, escape_arguments};
use mcpg_plugin_backend_soap::xml_events::{read_events, XmlEvent};

fn text(s: &str) -> JsonValue {
    JsonValue::text(s)
}

fn number(n: u64) -> JsonValue {
    JsonValue::Number(JsonNumber::Unsigned(n))
}

fn object(members: Vec<(&str, JsonValue)>) -> JsonValue {
    let mut map = StringMap::new();
    for (key, value) in members {
        put(&mut map, key, value);
    }
    JsonValue::Object(map)
}

fn member<'a>(value: &'a JsonValue, key: &str) -> &'a JsonValue {
    value.get(key).expect("member")
}

fn item(value: &JsonValue, index: usize) -> &JsonValue {
    match value {
        JsonValue::Array(items) => &items[index],
        _ => panic!("not an array"),
    }
}

#[test]
fn escapes_string_leaves_only() {
    let escaped = escape_arguments(&object(vec![
        ("name", text("a<b>&\"c\"")),
        ("count", number(7)),
        ("nested", object(vec![("x", text("<y>"))])),
        ("list", JsonValue::Array(vec![text("<a>"), number(2)])),
    ]));
    assert_eq!(*member(&escaped, "name"), text("a&lt;b&gt;&amp;&quot;c&quot;"));
    assert_eq!(*member(&escaped, "count"), number(7));
    assert_eq!(*member(member(&escaped, "nested"), "x"), text("&lt;y&gt;"));
    assert_eq!(*item(member(&escaped, "list"), 0), text("&lt;a&gt;"));
    assert_eq!(*item(member(&escaped, "list"), 1), number(2));
}

#[test]
fn escaping_leaves_keys_and_other_values_alone() {
    let value = object(vec![
        ("<k>", JsonValue::Null),
        ("b", JsonValue::Bool(true)),
        ("n", JsonValue::Number(JsonNumber::Negative(-3))),
        ("d", JsonValue::Number(JsonNumber::Double(1.5f64.to_bits()))),
    ]);
    assert_eq!(escape_arguments(&value), value);
    assert_eq!(escape_arguments(&text("it's")), text("it&apos;s"));
    assert_eq!(escape_arguments(&text("plain")), text("plain"));
    assert_eq!(escape_arguments(&text("")), text(""));
}

#[test]
fn builds_11_envelope_with_header() {
    let env = build_envelope(
        SoapVersion::V11,
        Some("<wsa:To>urn:x</wsa:To>"),
        "<tns:Ping/>",
    );
    assert!(env.contains("xmlns:soap=\"http://schemas.xmlsoap.org/soap/envelope/\""));
    assert!(env.contains("<soap:Header><wsa:To>urn:x</wsa:To></soap:Header>"));
    assert!(env.contains("<soap:Body><tns:Ping/></soap:Body>"));
}

#[test]
fn builds_12_envelope_without_empty_header() {
    let env = build_envelope(SoapVersion::V12, Some("   "), "<tns:Ping/>");
    assert!(env.contains("xmlns:soap=\"http://www.w3.org/2003/05/soap-envelope\""));
    assert!(!env.contains("<soap:Header>"));
}

#[test]
fn envelope_is_exactly_this() {
    assert_eq!(
        build_envelope(SoapVersion::V11, Some(" <h/>\n"), "\t<b/> "),
        "<?xml version=\"1.0\" encoding=\"UTF-8\"?><soap:Envelope \
         xmlns:soap=\"http://schemas.xmlsoap.org/soap/envelope/\"><soap:Header><h/></soap:Header>\
         <soap:Body><b/></soap:Body></soap:Envelope>"
    );
}

#[test]
fn blank_header_and_no_header_are_the_same() {
    assert_eq!(
        build_envelope(SoapVersion::V12, Some(" \u{a0}\u{3000}\n"), "<b/>"),
        build_envelope(SoapVersion::V12, None, "<b/>")
    );
    assert_eq!(
        build_envelope(SoapVersion::V12, Some(""), "<b/>"),
        build_envelope(SoapVersion::V12, None, "<b/>")
    );
}

#[test]
fn parses_soap_11_fault() {
    let body = r#"<soap:Envelope xmlns:soap="http://schemas.xmlsoap.org/soap/envelope/">
      <soap:Body>
        <soap:Fault>
          <faultcode>soap:Server</faultcode>
          <faultstring>Backend exploded</faultstring>
          <faultactor>http://svc/actor</faultactor>
          <detail><e:Err xmlns:e="urn:e">boom</e:Err></detail>
        </soap:Fault>
      </soap:Body>
    </soap:Envelope>"#;
    let fault = parse_fault(body, SoapVersion::V11).expect("fault");
    assert_eq!(fault.code, "soap:Server");
    assert_eq!(fault.reason, "Backend exploded");
    assert_eq!(fault.node.as_deref(), Some("http://svc/actor"));
    assert!(fault.detail.as_deref().unwrap().contains("boom"));
    assert!(fault.is_retryable());
}

#[test]
fn parses_soap_12_fault() {
    let body = r#"<env:Envelope xmlns:env="http://www.w3.org/2003/05/soap-envelope">
      <env:Body>
        <env:Fault>
          <env:Code>
            <env:Value>env:Sender</env:Value>
            <env:Subcode><env:Value>rpc:BadArguments</env:Value></env:Subcode>
          </env:Code>
          <env:Reason><env:Text xml:lang="en">Bad arguments</env:Text></env:Reason>
          <env:Node>http://svc/node</env:Node>
          <env:Role>http://svc/role</env:Role>
        </env:Fault>
      </env:Body>
    </env:Envelope>"#;
    let fault = parse_fault(body, SoapVersion::V12).expect("fault");
    assert_eq!(fault.code, "env:Sender");
    assert_eq!(fault.reason, "Bad arguments");
    assert_eq!(fault.node.as_deref(), Some("http://svc/node"));
    assert_eq!(fault.role.as_deref(), Some("http://svc/role"));
    assert_eq!(fault.subcodes, vec!["rpc:BadArguments".to_owned()]);
    assert!(!fault.is_retryable());
}

#[test]
fn no_fault_returns_none() {
    let body = r#"<soap:Envelope xmlns:soap="http://schemas.xmlsoap.org/soap/envelope/">
      <soap:Body><tns:Ok xmlns:tns="urn:t">fine</tns:Ok></soap:Body>
    </soap:Envelope>"#;
    assert!(parse_fault(body, SoapVersion::V11).is_none());
}

#[test]
fn malformed_xml_returns_none() {
    assert!(parse_fault("<not<xml", SoapVersion::V11).is_none());
}

#[test]
fn fault_is_found_whatever_the_prefix() {
    for body in [
        "<Fault><faultcode>c</faultcode></Fault>",
        "<a:Fault><b:faultcode>c</b:faultcode></a:Fault>",
        "<x><a:Fault y=\"1\"><faultcode z='2'>c</faultcode></a:Fault></x>",
    ] {
        let fault = parse_fault(body, SoapVersion::V12).expect("fault");
        assert_eq!(fault.code, "c");
        assert_eq!(fault.reason, "");
        assert_eq!(fault.node, None);
        assert_eq!(fault.role, None);
        assert_eq!(fault.detail, None);
        assert!(fault.subcodes.is_empty());
    }
}

#[test]
fn what_follows_a_fault_does_not_matter() {
    let fault = parse_fault(
        "<e><Fault><faultstring>r</faultstring></Fault><faultstring>s</faultstring><a></b>",
        SoapVersion::V11,
    )
    .expect("fault");
    assert_eq!(fault.reason, "r");
}

#[test]
fn unreadable_inside_a_fault_is_no_fault() {
    assert!(parse_fault("<Fault><faultcode>c</wrong></Fault>", SoapVersion::V11).is_none());
}

#[test]
fn self_closing_fault_is_a_blank_fault() {
    for body in ["<e><Fault/></e>", "<s:Fault a='1'/>", "<e><Fault/><Fault><faultcode>c</faultcode></Fault></e>"] {
        assert_eq!(parse_fault(body, SoapVersion::V11), Some(fault_with_code("")));
    }
}

#[test]
fn self_closing_elements_of_a_fault_hold_nothing() {
    let fault = parse_fault(
        "<Fault><faultcode/><faultstring>r</faultstring><detail/><Fault/></Fault>",
        SoapVersion::V11,
    )
    .expect("fault");
    assert_eq!(fault.code, "");
    assert_eq!(fault.reason, "r");
    assert_eq!(fault.detail, None);
}

#[test]
fn fault_cut_off_by_the_end_is_still_a_fault() {
    let fault = parse_fault(
        "<Fault><faultcode>c</faultcode><faultstring>not yet clo",
        SoapVersion::V11,
    )
    .expect("fault");
    assert_eq!(fault.code, "c");
    assert_eq!(fault.reason, "not yet clo");
    let fault = parse_fault("<Fault><faultcode>soap:Server", SoapVersion::V11).expect("fault");
    assert_eq!(fault.code, "soap:Server");
    assert!(fault.is_retryable());
    let fault = parse_fault(
        "<Fault><Code><Value> s:Rec&#101;iver <Subcode><Value>a",
        SoapVersion::V12,
    )
    .expect("fault");
    assert_eq!(fault.code, "s:Receiver");
    assert!(fault.is_retryable());
    assert_eq!(fault.subcodes, vec!["a".to_owned()]);
    let fault = parse_fault("<Fault><detail>not yet clo", SoapVersion::V11).expect("fault");
    assert_eq!(fault.detail, None);
}

#[test]
fn later_text_replaces_what_came_before() {
    let fault = parse_fault(
        "<Fault><faultstring>x<faultstring>y</faultstring></faultstring></Fault>",
        SoapVersion::V11,
    )
    .expect("fault");
    assert_eq!(fault.reason, "y");
    let fault = parse_fault(
        "<Fault><faultstring>x<faultstring>y</faultstring> \n</faultstring></Fault>",
        SoapVersion::V11,
    )
    .expect("fault");
    assert_eq!(fault.reason, "y");
}

#[test]
fn codes_in_pieces_are_one_code_each() {
    let fault = parse_fault(
        "<Fault><Code><Value>a&amp;b<!-- c -->c</Value><Value>d&amp;</Value>         <Subcode><Value>s&lt;t</Value><Subcode><Value> <![CDATA[u]]>v </Value></Subcode>         </Subcode></Code></Fault>",
        SoapVersion::V12,
    )
    .expect("fault");
    assert_eq!(fault.code, "a&bc");
    assert_eq!(fault.subcodes, vec!["s<t".to_owned(), "uv".to_owned()]);
}

#[test]
fn first_code_value_is_kept_and_subcodes_are_chained() {
    let fault = parse_fault(
        "<Fault><Code><Value>a</Value><Value>b</Value><Subcode><Value>s</Value>\
         <Subcode><Value>t</Value></Subcode></Subcode></Code>\
         <Reason><Text>one</Text><Text>two</Text></Reason></Fault>",
        SoapVersion::V12,
    )
    .expect("fault");
    assert_eq!(fault.code, "a");
    assert_eq!(fault.subcodes, vec!["s".to_owned(), "t".to_owned()]);
    assert_eq!(fault.reason, "two");
}

#[test]
fn detail_is_the_text_inside_without_markup() {
    let fault = parse_fault(
        "<Fault><Detail> <a>x</a>\r\n<b>y</b> </Detail></Fault>",
        SoapVersion::V12,
    )
    .expect("fault");
    assert_eq!(fault.detail.as_deref(), Some("x\ny"));
    let blank = parse_fault("<Fault><detail>  </detail></Fault>", SoapVersion::V11).expect("fault");
    assert_eq!(blank.detail, None);
}

#[test]
fn text_outside_the_known_places_is_passed_over() {
    let fault = parse_fault(
        "<e><faultcode>early</faultcode><Fault>stray<Value>v</Value><other>o</other>\
         <faultcode> c </faultcode></Fault></e>",
        SoapVersion::V11,
    )
    .expect("fault");
    assert_eq!(fault.code, "c");
    assert_eq!(fault.reason, "");
}

fn fault_with_code(code: &str) -> SoapFault {
    SoapFault {
        code: code.to_owned(),
        reason: String::new(),
        node: None,
        role: None,
        detail: None,
        subcodes: Vec::new(),
    }
}

#[test]
fn receiver_codes_are_retryable_in_any_case() {
    for code in ["soap:Server", "env:RECEIVER", "server.busy", "Receiver", "a:b:Server.x.y"] {
        assert!(fault_with_code(code).is_retryable(), "{}", code);
    }
    for code in [
        "soap:Client",
        "env:Sender",
        "VersionMismatch",
        "",
        "app:Observer",
        "serverless",
        "server:Client",
        "soap:Client.Server",
        "x.Server",
    ] {
        assert!(!fault_with_code(code).is_retryable(), "{}", code);
    }
}

#[test]
fn xml_to_json_maps_nested_and_repeated() {
    let body = r#"<tns:Resp xmlns:tns="urn:t" total="2">
      <Item id="1">a</Item>
      <Item id="2">b</Item>
      <Note>hi</Note>
    </tns:Resp>"#;
    let json = xml_to_json(body).expect("json");
    let resp = member(&json, "Resp");
    assert_eq!(*member(resp, "@total"), text("2"));
    assert!(matches!(member(resp, "Item"), JsonValue::Array(_)));
    assert_eq!(*member(item(member(resp, "Item"), 0), "@id"), text("1"));
    assert_eq!(*member(item(member(resp, "Item"), 0), "#text"), text("a"));
    assert_eq!(*member(resp, "Note"), text("hi"));
}

#[test]
fn json_view_is_exactly_this() {
    assert_eq!(
        xml_to_json("<?xml version=\"1.0\"?><!-- c --><a:r><b/><b>1</b><b x='2'/><c> t </c></a:r>"),
        Ok(object(vec![(
            "r",
            object(vec![
                (
                    "b",
                    JsonValue::Array(vec![text(""), text("1"), object(vec![("@x", text("2"))])])
                ),
                ("c", text("t")),
            ])
        )]))
    );
}

#[test]
fn self_closing_root_and_leaf_root() {
    assert_eq!(xml_to_json("<a/>"), Ok(object(vec![("a", text(""))])));
    assert_eq!(
        xml_to_json("<p:a q:k='v'/>"),
        Ok(object(vec![("a", object(vec![("@k", text("v"))]))]))
    );
    assert_eq!(xml_to_json("<a> x </a>"), Ok(object(vec![("a", text("x"))])));
}

#[test]
fn text_beside_children_stands_under_its_own_key() {
    assert_eq!(
        xml_to_json("<a>one<b/>two</a>"),
        Ok(object(vec![(
            "a",
            object(vec![("b", text("")), ("#text", text("onetwo"))])
        )]))
    );
}

#[test]
fn cdata_counts_as_text() {
    assert_eq!(
        xml_to_json("<a>x<![CDATA[<y>&]]></a>"),
        Ok(object(vec![("a", text("x<y>&"))]))
    );
}

#[test]
fn line_ends_are_normalized() {
    assert_eq!(
        xml_to_json("<a>1\r\n2\r3\u{85}4\r\u{85}5\u{2028}6</a>"),
        Ok(object(vec![("a", text("1\n2\n3\n4\n5\n6"))]))
    );
}

#[test]
fn attribute_references_are_resolved() {
    assert_eq!(
        xml_to_json("<a k='&lt;&amp;&#65;'/>"),
        Ok(object(vec![("a", object(vec![("@k", text("<&A"))]))]))
    );
}

#[test]
fn json_view_errors() {
    assert_eq!(xml_to_json(""), Err("no root element in XML".to_owned()));
    assert_eq!(
        xml_to_json("just text"),
        Err("no root element in XML".to_owned())
    );
    assert_eq!(
        xml_to_json("<a><b></b>"),
        Err("unexpected EOF inside XML element".to_owned())
    );
    assert!(xml_to_json("<a></b>").is_err());
    assert!(xml_to_json("<a k='&nope;'/>").is_err());
    assert!(xml_to_json("<a k='1' k='2'/>").is_err());
    assert!(xml_to_json("<a k></a>").is_err());
}

#[test]
fn json_view_ignores_prefixes() {
    assert_eq!(
        xml_to_json("<p:a q:k='1'><r:b>x</r:b></p:a>"),
        xml_to_json("<a k='1'><b>x</b></a>")
    );
}

#[test]
fn events_of_a_document() {
    let events = read_events("<p:a k='v'>t<b/></p:a>");
    assert_eq!(events.len(), 5);
    match &events[0] {
        XmlEvent::Start(name, Ok(attributes)) => {
            assert_eq!(name, "p:a");
            assert_eq!(*attributes, vec![("k".to_owned(), "v".to_owned())]);
        }
        _ => panic!("start tag"),
    }
    assert!(matches!(&events[1], XmlEvent::Text(t) if t == "t"));
    assert!(matches!(&events[2], XmlEvent::Empty(name, Ok(list)) if name == "b" && list.is_empty()));
    assert!(matches!(&events[3], XmlEvent::End(name) if name == "p:a"));
    assert!(matches!(&events[4], XmlEvent::Eof));
}

#[test]
fn unreadable_documents_end_in_an_error() {
    let events = read_events("<a></b>");
    assert!(matches!(events.last(), Some(XmlEvent::Malformed(_))));
    assert!(fault_in(&events).is_none());
    assert!(json_in(&events).is_err());
}

#[test]
fn lists_of_events_without_an_end() {
    let events = vec![
        XmlEvent::Other,
        XmlEvent::Start("x:Fault".to_owned(), Ok(Vec::new())),
        XmlEvent::Start("faultcode".to_owned(), Err("unused".to_owned())),
        XmlEvent::Text(" c ".to_owned()),
        XmlEvent::End("faultcode".to_owned()),
    ];
    assert_eq!(fault_in(&events).expect("fault").code, "c");
    assert_eq!(json_in(&events), Err("unused".to_owned()));
    assert_eq!(
        json_in(&vec![XmlEvent::Start("a".to_owned(), Ok(Vec::new()))]),
        Err("unexpected EOF inside XML element".to_owned())
    );
    assert_eq!(
        json_in(&Vec::new()),
        Err("no root element in XML".to_owned())
    );
}

#[test]
fn references_are_part_of_the_text() {
    for (body, expected) in [
        ("<a>x &amp; y</a>", "x & y"),
        ("<a>&lt;&gt;&amp;&apos;&quot;</a>", "<>&'\""),
        ("<a>&#65;&#x42;&#xe9;&#x1F600;</a>", "AB\u{e9}\u{1f600}"),
        ("<a>x&nbsp;y&AMP;</a>", "xy"),
        ("<a>&foo;</a>", ""),
        ("<a>&#0;&#xD800;&#x110000;&#;&#x;&#+5;&#12a;</a>", ""),
        ("<a>&#99999999999999999999;</a>", ""),
        ("<a>&#xD7FF;&#xE000;&#x10FFFF;</a>", "\u{d7ff}\u{e000}\u{10ffff}"),
    ] {
        assert_eq!(xml_to_json(body), Ok(object(vec![("a", text(expected))])), "{}", body);
    }
}

#[test]
fn references_by_themselves() {
    assert_eq!(resolve_reference("amp"), "&");
    assert_eq!(resolve_reference("#x26"), "&");
    assert_eq!(resolve_reference("#38"), "&");
    assert_eq!(resolve_reference("#X26"), "");
    assert_eq!(resolve_reference(""), "");
}

#[test]
fn comments_do_not_split_text() {
    assert_eq!(
        xml_to_json("<a>x<!-- c -->y<?p i?>z</a>"),
        Ok(object(vec![("a", text("xyz"))]))
    );
    let fault = parse_fault(
        "<Fault><faultstring>one<!-- c --> two</faultstring></Fault>",
        SoapVersion::V11,
    )
    .expect("fault");
    assert_eq!(fault.reason, "one two");
}

#[test]
fn escaped_text_reads_back_and_holds_no_markup() {
    for s in ["", "plain", "a<b>&\"c\"'d'", "&amp;", "&&lt;<", "\u{e9}&\u{1f600}"] {
        let JsonValue::Text(escaped) = escape_arguments(&text(s)) else {
            panic!("text");
        };
        assert!(!escaped.contains(|c| matches!(c, '<' | '>' | '"' | '\'')));
        assert_eq!(quick_xml::escape::unescape(&escaped).expect("references"), s);
    }
}

#[test]
fn escaped_arguments_stay_text_in_an_envelope() {
    let JsonValue::Text(escaped) = escape_arguments(&text("</x><Fault>&")) else {
        panic!("text");
    };
    let envelope = build_envelope(
        SoapVersion::V11,
        None,
        &format!("<x k=\"{}\">{}</x>", escaped, escaped),
    );
    assert!(parse_fault(&envelope, SoapVersion::V11).is_none());
    let json = xml_to_json(&envelope).expect("json");
    let x = member(member(member(&json, "Envelope"), "Body"), "x");
    assert_eq!(*member(x, "@k"), text("</x><Fault>&"));
    assert_eq!(*member(x, "#text"), text("</x><Fault>&"));
}

#[test]
fn fault_texts_are_whole() {
    let fault = parse_fault(
        "<Fault><faultcode>soap:Server</faultcode><faultstring>a &amp; b</faultstring></Fault>",
        SoapVersion::V11,
    )
    .expect("fault");
    assert_eq!(fault.code, "soap:Server");
    assert_eq!(fault.reason, "a & b");
    let fault = parse_fault(
        "<Fault><faultstring>\n x<![CDATA[ <y> ]]>&#33; </faultstring>\
         <detail>c &lt; <![CDATA[d]]></detail></Fault>",
        SoapVersion::V11,
    )
    .expect("fault");
    assert_eq!(fault.reason, "x <y> !");
    assert_eq!(fault.detail.as_deref(), Some("c < d"));
}

#[test]
fn nested_details_are_flattened() {
    let fault = parse_fault(
        "<Fault><detail>x<detail>y</detail>z</detail></Fault>",
        SoapVersion::V11,
    )
    .expect("fault");
    assert_eq!(fault.detail.as_deref(), Some("xyz"));
    let fault = parse_fault(
        "<Fault><Detail>a<Fault><faultcode>b</faultcode></Fault><detail/>c</Detail>\
         <faultcode>d</faultcode></Fault>",
        SoapVersion::V12,
    )
    .expect("fault");
    assert_eq!(fault.detail.as_deref(), Some("abc"));
    assert_eq!(fault.code, "d");
}
