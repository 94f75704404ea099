//! SOAP request envelopes, and the escaping of what is put into them.

use crate::json;
use crate::json::{Json, JsonValue};
use crate::string_map;
use crate::string_map::StringMap;
use crate::text;
use crate::text::trim;
use crate::types;
use crate::types::SoapVersion;
use vstd::prelude::*;
use vstd::string::*;

verus! {

/// The reference that stands for a character with a meaning in markup; other
/// characters stand for themselves.
pub open spec fn escaped_char(c: char) -> Seq<char> {
    if c == '<' {
        "&lt;"@
    } else if c == '>' {
        "&gt;"@
    } else if c == '&' {
        "&amp;"@
    } else if c == '\'' {
        "&apos;"@
    } else if c == '"' {
        "&quot;"@
    } else {
        seq![c]
    }
}

/// `s` with the five characters that have a meaning in markup replaced by
/// references.
pub open spec fn escaped(s: Seq<char>) -> Seq<char>
    decreases s.len(),
{
    if s.len() == 0 {
        s
    } else {
        escaped(s.drop_last()) + escaped_char(s.last())
    }
}

/// `quick_xml::escape::escape` replaces `<`, `>`, `&`, `'` and `"` by
/// `&lt;`, `&gt;`, `&amp;`, `&apos;` and `&quot;`.
#[verifier::external_body]
fn escape(raw: &str) -> (text: String)
    ensures
        text@ == escaped(raw@),
{
    quick_xml::escape::escape(raw).into_owned()
}

/// `value` with each of its strings escaped, at any depth. Keys, numbers and
/// all else stay as they are.
pub open spec fn escaped_json(value: Json) -> Json
    decreases value,
{
    match value {
        Json::Text(s) => Json::Text(escaped(s)),
        Json::Array(items) => Json::Array(
            Seq::new(
                items.len(),
                |i: int|
                    if 0 <= i < items.len() {
                        escaped_json(items[i])
                    } else {
                        Json::Null
                    },
            ),
        ),
        Json::Object(map) => Json::Object(
            Map::new(
                |k: Seq<char>| map.contains_key(k),
                |k: Seq<char>|
                    if map.contains_key(k) {
                        escaped_json(map[k])
                    } else {
                        Json::Null
                    },
            ),
        ),
        other => other,
    }
}

/// Escapes every string of `value`, at any depth, and leaves keys, numbers
/// and all else as they are. The result is what body and header templates
/// are rendered with, so that an argument cannot break out of the text or
/// the attribute it is put into.
pub fn escape_arguments(value: &JsonValue) -> (result: JsonValue)
    ensures
        result@ == escaped_json(value@),
    decreases value,
{
    broadcast use json::lemma_json_model;

    match value {
        JsonValue::Null => JsonValue::Null,
        JsonValue::Bool(b) => JsonValue::Bool(*b),
        JsonValue::Number(n) => JsonValue::Number(*n),
        JsonValue::Text(s) => JsonValue::Text(escape(s)),
        JsonValue::Array(items) => {
            let mut out: Vec<JsonValue> = Vec::new();
            let mut i: usize = 0;
            while i < items.len()
                invariant
                    value matches JsonValue::Array(v) && v == items,
                    i == out@.len() <= items@.len(),
                    forall|k: int|
                        0 <= k < i ==> (#[trigger] out@[k])@ == escaped_json(items@[k]@),
                decreases items@.len() - i,
            {
                let item = escape_arguments(&items[i]);
                out.push(item);
                i += 1;
            }
            assert(json::array_model(out@) =~= escaped_json(value@)->Array_0);
            JsonValue::Array(out)
        },
        JsonValue::Object(map) => {
            proof {
                use_type_invariant(map);
            }
            let mut entries: Vec<(String, JsonValue)> = Vec::new();
            let mut i: usize = 0;
            while i < map.entries.len()
                invariant
                    value matches JsonValue::Object(m) && m == map,
                    i == entries@.len() <= map.entries@.len(),
                    forall|k: int|
                        0 <= k < i ==> (#[trigger] entries@[k]).0@ == map.entries@[k].0@
                            && entries@[k].1@ == escaped_json(map.entries@[k].1@),
                decreases map.entries@.len() - i,
            {
                let e = &map.entries[i];
                let item = escape_arguments(&e.1);
                entries.push((e.0.clone(), item));
                i += 1;
            }
            proof {
                lemma_mapped_entries(map.entries@, entries@);
            }
            let result = StringMap { entries };
            proof {
                string_map::lemma_view_is_entries(result);
                string_map::lemma_view_is_entries(*map);
                assert(json::object_model(result@) =~= escaped_json(value@)->Object_0);
            }
            JsonValue::Object(result)
        },
    }
}

/// Entries with the same keys and escaped values make up the same map, its
/// values escaped.
proof fn lemma_mapped_entries(a: Seq<(String, JsonValue)>, b: Seq<(String, JsonValue)>)
    requires
        string_map::sorted(a),
        a.len() == b.len(),
        forall|k: int|
            0 <= k < a.len() ==> (#[trigger] b[k]).0@ == a[k].0@ && b[k].1@ == escaped_json(
                a[k].1@,
            ),
    ensures
        string_map::sorted(b),
        string_map::as_map(b).dom() == string_map::as_map(a).dom(),
        forall|k: Seq<char>| #[trigger]
            string_map::as_map(b).contains_key(k) ==> string_map::as_map(b)[k]@ == escaped_json(
                string_map::as_map(a)[k]@,
            ),
{
    assert forall|k: Seq<char>| #[trigger] string_map::has_key(a, k) implies string_map::has_key(
        b,
        k,
    ) && b[string_map::position(b, k)].1@ == escaped_json(a[string_map::position(a, k)].1@) by {
        let i = string_map::position(a, k);
        assert(b[i].0@ == k);
        string_map::lemma_position(b, i);
    }
    assert forall|k: Seq<char>| #[trigger] string_map::has_key(b, k) implies string_map::has_key(
        a,
        k,
    ) by {
        assert(a[string_map::position(b, k)].0@ == k);
    }
    assert(string_map::as_map(b).dom() =~= string_map::as_map(a).dom());
    assert forall|k: Seq<char>| #[trigger]
        string_map::as_map(b).contains_key(k) implies string_map::as_map(b)[k]@ == escaped_json(
        string_map::as_map(a)[k]@,
    ) by {
        assert(string_map::has_key(a, k));
    }
}

/// The header element of an envelope; a blank header has none.
pub open spec fn header_part(header: Option<Seq<char>>) -> Seq<char> {
    if text::is_blank(text::or_empty(header)) {
        Seq::empty()
    } else {
        "<soap:Header>"@ + text::trimmed(text::or_empty(header)) + "</soap:Header>"@
    }
}

/// The request envelope around a header and a body.
pub open spec fn envelope_of(
    version: SoapVersion,
    header: Option<Seq<char>>,
    body: Seq<char>,
) -> Seq<char> {
    "<?xml version=\"1.0\" encoding=\"UTF-8\"?>"@ + "<soap:Envelope xmlns:soap=\""@
        + types::namespace_of(version) + "\">"@ + header_part(header) + "<soap:Body>"@
        + text::trimmed(body) + "</soap:Body>"@ + "</soap:Envelope>"@
}

/// Wraps the contents of `<soap:Body>` and, unless it is blank, of
/// `<soap:Header>` in an envelope with the namespace of the version. White
/// space around either is dropped.
pub fn build_envelope(version: SoapVersion, header_xml: Option<&str>, body_xml: &str) -> (out:
    String)
    ensures
        out@ == envelope_of(version, text::optional_str(header_xml), body_xml@),
{
    let mut out = "<?xml version=\"1.0\" encoding=\"UTF-8\"?>".to_owned();
    out.append("<soap:Envelope xmlns:soap=\"");
    out.append(version.envelope_namespace());
    out.append("\">");
    let ghost before = out@;
    proof {
        text::lemma_empty_is_blank();
        assert(before + Seq::<char>::empty() =~= before);
    }
    if let Some(header) = header_xml {
        let trimmed = trim(header);
        if !trimmed.as_str().is_empty() {
            out.append("<soap:Header>");
            out.append(&trimmed);
            out.append("</soap:Header>");
        }
    }
    assert(out@ =~= before + header_part(text::optional_str(header_xml)));
    out.append("<soap:Body>");
    out.append(&trim(body_xml));
    out.append("</soap:Body>");
    out.append("</soap:Envelope>");
    out
}

/// A blank header and no header make the same envelope.
pub proof fn law_blank_header_is_no_header(
    version: SoapVersion,
    header: Seq<char>,
    body: Seq<char>,
)
    requires
        text::is_blank(header),
    ensures
        envelope_of(version, Some(header), body) == envelope_of(version, None, body),
{
    text::lemma_empty_is_blank();
}

/// All of an envelope from its body on.
pub open spec fn body_on(body: Seq<char>) -> Seq<char> {
    "<soap:Body>"@ + text::trimmed(body) + "</soap:Body></soap:Envelope>"@
}

/// An envelope without a header is its start tag, with the namespace of the
/// version, and its body, without the white space around it. A header that is not
/// blank stands directly before the body, whatever the version: apart from that
/// it is the envelope without a header.
pub proof fn law_header_stands_before_the_body(
    version: SoapVersion,
    header: Seq<char>,
    body: Seq<char>,
)
    requires
        !text::is_blank(header),
    ensures
        ({
            let bare = envelope_of(version, None, body);
            let whole = envelope_of(version, Some(header), body);
            let at = bare.len() - body_on(body).len();
            &&& at >= 0
            &&& bare.take(at)
                == "<?xml version=\"1.0\" encoding=\"UTF-8\"?><soap:Envelope xmlns:soap=\""@
                + types::namespace_of(version) + "\">"@
            &&& bare.skip(at) == body_on(body)
            &&& whole == bare.take(at) + "<soap:Header>"@ + text::trimmed(header)
                + "</soap:Header>"@ + bare.skip(at)
        }),
{
    text::lemma_empty_is_blank();
    lemma_end_tags();
    let bare = envelope_of(version, None, body);
    let whole = envelope_of(version, Some(header), body);
    let front = "<?xml version=\"1.0\" encoding=\"UTF-8\"?>"@ + "<soap:Envelope xmlns:soap=\""@
        + types::namespace_of(version) + "\">"@;
    let at = front.len() as int;
    assert(bare =~= front + body_on(body));
    assert(bare.take(at) =~= front);
    assert(bare.skip(at) =~= body_on(body));
    assert(whole =~= front + header_part(Some(header)) + body_on(body));
    assert(whole =~= front + "<soap:Header>"@ + text::trimmed(header) + "</soap:Header>"@
        + body_on(body));
}

proof fn lemma_end_tags()
    ensures
        "</soap:Body></soap:Envelope>"@ == "</soap:Body>"@ + "</soap:Envelope>"@,
        "<?xml version=\"1.0\" encoding=\"UTF-8\"?><soap:Envelope xmlns:soap=\""@
            == "<?xml version=\"1.0\" encoding=\"UTF-8\"?>"@ + "<soap:Envelope xmlns:soap=\""@,
{
    reveal_strlit("</soap:Body></soap:Envelope>");
    reveal_strlit("</soap:Body>");
    reveal_strlit("</soap:Envelope>");
    reveal_strlit("<?xml version=\"1.0\" encoding=\"UTF-8\"?><soap:Envelope xmlns:soap=\"");
    reveal_strlit("<?xml version=\"1.0\" encoding=\"UTF-8\"?>");
    reveal_strlit("<soap:Envelope xmlns:soap=\"");
    assert("</soap:Body></soap:Envelope>"@ =~= "</soap:Body>"@ + "</soap:Envelope>"@);
    assert("<?xml version=\"1.0\" encoding=\"UTF-8\"?><soap:Envelope xmlns:soap=\""@
        =~= "<?xml version=\"1.0\" encoding=\"UTF-8\"?>"@ + "<soap:Envelope xmlns:soap=\""@);
}

/// Envelopes of one header and body differ in the namespace alone: what comes
/// before it and what comes after it is the same in all versions.
pub proof fn law_versions_differ_in_the_namespace_alone(
    a: SoapVersion,
    b: SoapVersion,
    header: Option<Seq<char>>,
    body: Seq<char>,
)
    ensures
        ({
            let front = "<?xml version=\"1.0\" encoding=\"UTF-8\"?><soap:Envelope xmlns:soap=\""@;
            let one = envelope_of(a, header, body);
            let other = envelope_of(b, header, body);
            let from = (front.len() + types::namespace_of(a).len()) as int;
            &&& one.len() >= from + 2
            &&& one[from] == '"' && one[from + 1] == '>'
            &&& one == front + types::namespace_of(a) + one.skip(from)
            &&& other == front + types::namespace_of(b) + one.skip(from)
        }),
{
    lemma_end_tags();
    reveal_strlit("\">");
    let front = "<?xml version=\"1.0\" encoding=\"UTF-8\"?><soap:Envelope xmlns:soap=\""@;
    let one = envelope_of(a, header, body);
    let other = envelope_of(b, header, body);
    let from = (front.len() + types::namespace_of(a).len()) as int;
    let back = "\">"@ + header_part(header) + "<soap:Body>"@ + text::trimmed(body)
        + "</soap:Body>"@ + "</soap:Envelope>"@;
    assert(one =~= front + types::namespace_of(a) + back);
    assert(other =~= front + types::namespace_of(b) + back);
    assert(one.skip(from) =~= back);
    assert(back[0] == "\">"@[0] && back[1] == "\">"@[1]);
}

/// The envelope tells its body: two envelopes of one version and header are the
/// same if and only if their bodies are, but for the white space around them.
pub proof fn law_envelopes_tell_their_body(
    version: SoapVersion,
    header: Option<Seq<char>>,
    one: Seq<char>,
    other: Seq<char>,
)
    ensures
        envelope_of(version, header, one) == envelope_of(version, header, other)
            <==> text::trimmed(one) == text::trimmed(other),
{
    let front = "<?xml version=\"1.0\" encoding=\"UTF-8\"?>"@ + "<soap:Envelope xmlns:soap=\""@
        + types::namespace_of(version) + "\">"@ + header_part(header) + "<soap:Body>"@;
    let back = "</soap:Body>"@ + "</soap:Envelope>"@;
    let m = text::trimmed(one);
    let n = text::trimmed(other);
    assert(envelope_of(version, header, one) =~= front + m + back);
    assert(envelope_of(version, header, other) =~= front + n + back);
    if front + m + back == front + n + back {
        assert(m.len() == n.len());
        let k = front.len() as int;
        assert((front + m + back).subrange(k, k + m.len()) =~= m);
        assert((front + n + back).subrange(k, k + n.len()) =~= n);
    }
}

} // verus!
