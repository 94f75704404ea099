//! The JSON view of an XML document.
//!
//! An element is an object keyed by the local names of its children. Children
//! of one name make an array, attributes stand under `@` and their name, and
//! text is a string, under `#text` where the element has attributes or
//! children.

use crate::json;
use crate::json::{no_members, put, Json, JsonValue};
use crate::references;
use crate::string_map::StringMap;
use crate::text;
use crate::text::{joined, trim};
use crate::xml_events;
use crate::xml_events::{
    qname_local, read_events, text_of, AttributeList, Attrs, XmlEvent, XmlToken,
};
use vstd::prelude::*;
use vstd::string::*;

verus! {

broadcast use crate::json::lemma_json_model;

/// An element's text, its children by local name and value, and what follows
/// its end tag.
pub type Content = (Seq<char>, Seq<(Seq<char>, Json)>, Seq<XmlToken>);

/// The member key of an attribute.
pub open spec fn attribute_key(name: Seq<char>) -> Seq<char> {
    "@"@ + xml_events::local_part(name)
}

/// The members that attributes make. Of two with one key the later counts.
pub open spec fn attribute_members(list: Seq<(Seq<char>, Seq<char>)>) -> Map<Seq<char>, Json>
    decreases list.len(),
{
    if list.len() == 0 {
        Map::empty()
    } else {
        attribute_members(list.drop_last()).insert(
            attribute_key(list.last().0),
            Json::Text(list.last().1),
        )
    }
}

/// `members` with one more child. A child whose key is taken joins the array
/// there, or makes one with the value that is there.
pub open spec fn with_child(members: Map<Seq<char>, Json>, name: Seq<char>, value: Json) -> Map<
    Seq<char>,
    Json,
> {
    if !members.contains_key(name) {
        members.insert(name, value)
    } else if members[name] is Array {
        members.insert(name, Json::Array(members[name]->Array_0.push(value)))
    } else {
        members.insert(name, Json::Array(seq![members[name], value]))
    }
}

/// `members` with `children` added one after the other.
pub open spec fn with_children(
    members: Map<Seq<char>, Json>,
    children: Seq<(Seq<char>, Json)>,
) -> Map<Seq<char>, Json>
    decreases children.len(),
{
    if children.len() == 0 {
        members
    } else {
        with_child(
            with_children(members, children.drop_last()),
            children.last().0,
            children.last().1,
        )
    }
}

/// The value of an element with these attributes, children and text.
pub open spec fn assembled(
    list: Seq<(Seq<char>, Seq<char>)>,
    children: Seq<(Seq<char>, Json)>,
    data: Seq<char>,
) -> Json {
    if children.len() == 0 && list.len() == 0 {
        Json::Text(text::trimmed(data))
    } else {
        let members = with_children(attribute_members(list), children);
        if text::is_blank(data) {
            Json::Object(members)
        } else {
            Json::Object(members.insert("#text"@, Json::Text(text::trimmed(data))))
        }
    }
}

/// The value of a self-closing element.
pub open spec fn empty_value(attributes: Attrs) -> Result<Json, Seq<char>> {
    match attributes {
        Err(message) => Err(message),
        Ok(list) => if list.len() == 0 {
            Ok(Json::Text(Seq::empty()))
        } else {
            Ok(Json::Object(attribute_members(list)))
        },
    }
}

/// The value of the element whose start tag carries `attributes` and comes
/// just before `rest`, and what follows its end tag.
pub open spec fn element_value(attributes: Attrs, rest: Seq<XmlToken>) -> Result<
    (Json, Seq<XmlToken>),
    Seq<char>,
>
    decreases rest.len(), 1nat,
{
    match attributes {
        Err(message) => Err(message),
        Ok(list) => match element_content(rest) {
            Err(message) => Err(message),
            Ok((data, children, after)) => Ok((assembled(list, children, data), after)),
        },
    }
}

/// `content` with a child before it.
pub open spec fn led_by_child(
    name: Seq<char>,
    value: Json,
    content: Result<Content, Seq<char>>,
) -> Result<Content, Seq<char>> {
    match content {
        Err(message) => Err(message),
        Ok((data, children, after)) => Ok(
            (data, seq![(xml_events::local_part(name), value)] + children, after),
        ),
    }
}

/// `content` with text before it.
pub open spec fn led_by_text(lead: Seq<char>, content: Result<Content, Seq<char>>) -> Result<
    Content,
    Seq<char>,
> {
    match content {
        Err(message) => Err(message),
        Ok((data, children, after)) => Ok((lead + data, children, after)),
    }
}

/// What stands between here and the end tag of the element that is open. The
/// first error in document order is the outcome.
pub open spec fn element_content(rest: Seq<XmlToken>) -> Result<Content, Seq<char>>
    decreases rest.len(), 0nat,
{
    if rest.len() == 0 {
        Err("unexpected EOF inside XML element"@)
    } else {
        let tail = rest.drop_first();
        match rest[0] {
            XmlToken::Start(name, attributes) => match element_value(attributes, tail) {
                Err(message) => Err(message),
                Ok((value, after)) => if after.len() < rest.len() {
                    led_by_child(name, value, element_content(after))
                } else {
                    Err("unexpected EOF inside XML element"@)
                },
            },
            XmlToken::Empty(name, attributes) => match empty_value(attributes) {
                Err(message) => Err(message),
                Ok(value) => led_by_child(name, value, element_content(tail)),
            },
            XmlToken::Text(data) => led_by_text(data, element_content(tail)),
            XmlToken::CData(data) => led_by_text(data, element_content(tail)),
            XmlToken::Reference(name) => led_by_text(
                references::referenced(name),
                element_content(tail),
            ),
            XmlToken::End(_) => Ok((Seq::empty(), Seq::empty(), tail)),
            XmlToken::Other => element_content(tail),
            XmlToken::Eof => Err("unexpected EOF inside XML element"@),
            XmlToken::Malformed(message) => Err(message),
        }
    }
}

/// An object with one member.
pub open spec fn single(name: Seq<char>, value: Json) -> Json {
    Json::Object(Map::empty().insert(xml_events::local_part(name), value))
}

/// The JSON view of a document with these events: an object whose one member
/// is the root element, or why there is none.
pub open spec fn json_of(events: Seq<XmlToken>) -> Result<Json, Seq<char>>
    decreases events.len(),
{
    if events.len() == 0 {
        Err("no root element in XML"@)
    } else {
        match events[0] {
            XmlToken::Start(name, attributes) => match element_value(
                attributes,
                events.drop_first(),
            ) {
                Err(message) => Err(message),
                Ok((value, _)) => Ok(single(name, value)),
            },
            XmlToken::Empty(name, attributes) => match empty_value(attributes) {
                Err(message) => Err(message),
                Ok(value) => Ok(single(name, value)),
            },
            XmlToken::Eof => Err("no root element in XML"@),
            XmlToken::Malformed(message) => Err(message),
            _ => json_of(events.drop_first()),
        }
    }
}

/// A result in terms of what it stands for.
pub open spec fn result_model(r: Result<JsonValue, String>) -> Result<Json, Seq<char>> {
    match r {
        Ok(v) => Ok(v@),
        Err(e) => Err(e@),
    }
}

/// The members that attributes make.
fn attribute_object(list: &Vec<(String, String)>) -> (members: StringMap<JsonValue>)
    ensures
        json::object_model(members@) == attribute_members(text::pairs(list@)),
{
    let ghost all = text::pairs(list@);
    let mut members = no_members();
    let mut i: usize = 0;
    while i < list.len()
        invariant
            i <= list@.len(),
            all == text::pairs(list@),
            json::object_model(members@) == attribute_members(all.take(i as int)),
        decreases list@.len() - i,
    {
        let key = joined("@", &qname_local(&list[i].0));
        put(&mut members, &key, JsonValue::text(&list[i].1));
        proof {
            assert(all.take(i + 1).drop_last() =~= all.take(i as int));
        }
        i += 1;
    }
    assert(all.take(all.len() as int) =~= all);
    members
}

/// Adds a child to the members of an object.
fn add_child(members: &mut StringMap<JsonValue>, name: String, value: JsonValue)
    ensures
        json::object_model(final(members)@) == with_child(
            json::object_model(old(members)@),
            name@,
            value@,
        ),
{
    let ghost before = members@;
    match members.remove(&name) {
        None => {
            assert(before.remove(name@) =~= before);
            put(members, &name, value);
        },
        Some(JsonValue::Array(items)) => {
            let mut items = items;
            let ghost old_items = items@;
            items.push(value);
            assert(json::array_model(items@) =~= json::array_model(old_items).push(value@));
            put(members, &name, JsonValue::Array(items));
            assert(json::object_model(members@) =~= with_child(
                json::object_model(before),
                name@,
                value@,
            ));
        },
        Some(first) => {
            let mut items: Vec<JsonValue> = Vec::new();
            items.push(first);
            items.push(value);
            assert(json::array_model(items@) =~= seq![first@, value@]);
            put(members, &name, JsonValue::Array(items));
            assert(json::object_model(members@) =~= with_child(
                json::object_model(before),
                name@,
                value@,
            ));
        },
    }
}

/// The value of a self-closing element.
fn empty_element_value(attributes: &AttributeList) -> (value: Result<JsonValue, String>)
    ensures
        result_model(value) == empty_value(xml_events::attrs(*attributes)),
{
    match attributes {
        Err(message) => Err(message.clone()),
        Ok(list) => {
            if list.len() == 0 {
                let empty = String::new();
                assert(empty@ =~= Seq::empty());
                Ok(JsonValue::Text(empty))
            } else {
                Ok(JsonValue::Object(attribute_object(list)))
            }
        },
    }
}

/// What is already known of an element's content and what is still to come,
/// together.
spec fn completed(
    data: Seq<char>,
    children: Seq<(Seq<char>, Json)>,
    rest: Result<Content, Seq<char>>,
) -> Result<Content, Seq<char>> {
    match rest {
        Err(message) => Err(message),
        Ok((more, further, after)) => Ok((data + more, children + further, after)),
    }
}

/// Reads the element whose start tag carries `attributes` and whose content
/// begins at `at`. The result is its value and where its end tag ends.
fn read_element(events: &Vec<XmlEvent>, at: usize, attributes: &AttributeList) -> (value: Result<
    (JsonValue, usize),
    String,
>)
    requires
        at <= events@.len(),
    ensures
        match value {
            Ok((value, next)) => at < next <= events@.len() && element_value(
                xml_events::attrs(*attributes),
                xml_events::tokens(events@).skip(at as int),
            ) == Ok::<(Json, Seq<XmlToken>), Seq<char>>(
                (value@, xml_events::tokens(events@).skip(next as int)),
            ),
            Err(message) => element_value(
                xml_events::attrs(*attributes),
                xml_events::tokens(events@).skip(at as int),
            ) == Err::<(Json, Seq<XmlToken>), Seq<char>>(message@),
        },
    decreases events@.len() - at,
{
    let list = match attributes {
        Err(message) => {
            return Err(message.clone());
        },
        Ok(list) => list,
    };
    let ghost all = xml_events::tokens(events@);
    let ghost own = attribute_members(text::pairs(list@));
    let ghost mut children: Seq<(Seq<char>, Json)> = Seq::empty();
    let mut members = attribute_object(list);
    let mut has_members = list.len() > 0;
    let mut data = String::new();
    let mut i: usize = at;
    let ghost whole = element_content(all.skip(at as int));
    assert(completed(data@, children, whole) == whole) by {
        if let Ok((more, further, after)) = whole {
            assert(data@ + more =~= more);
            assert(children + further =~= further);
        }
    }
    loop
        invariant
            at <= i <= events@.len(),
            all == xml_events::tokens(events@),
            own == attribute_members(text::pairs(list@)),
            xml_events::attrs(*attributes) == Ok::<_, Seq<char>>(text::pairs(list@)),
            json::object_model(members@) == with_children(own, children),
            has_members == (list@.len() > 0 || children.len() > 0),
            whole == element_content(all.skip(at as int)),
            completed(data@, children, element_content(all.skip(i as int))) == whole,
        decreases events@.len() - i,
    {
        if i >= events.len() {
            return Err("unexpected EOF inside XML element".to_owned());
        }
        let ghost rest = all.skip(i as int);
        let ghost data_before = data@;
        let ghost children_before = children;
        proof {
            assert(rest[0] == events@[i as int]@);
            assert(rest.drop_first() =~= all.skip(i + 1));
        }
        match &events[i] {
            XmlEvent::Start(name, inner) => {
                match read_element(events, i + 1, inner) {
                    Err(message) => {
                        return Err(message);
                    },
                    Ok((value, next)) => {
                        let local = qname_local(name);
                        let ghost child = (local@, value@);
                        add_child(&mut members, local, value);
                        has_members = true;
                        proof {
                            children = children.push(child);
                            assert(children.drop_last() =~= children_before);
                            lemma_led_by_child(
                                data@,
                                children_before,
                                child,
                                element_content(all.skip(next as int)),
                            );
                        }
                        i = next;
                    },
                }
            },
            XmlEvent::Empty(name, inner) => {
                match empty_element_value(inner) {
                    Err(message) => {
                        return Err(message);
                    },
                    Ok(value) => {
                        let local = qname_local(name);
                        let ghost child = (local@, value@);
                        add_child(&mut members, local, value);
                        has_members = true;
                        proof {
                            children = children.push(child);
                            assert(children.drop_last() =~= children_before);
                            lemma_led_by_child(
                                data@,
                                children_before,
                                child,
                                element_content(all.skip(i + 1)),
                            );
                        }
                        i += 1;
                    },
                }
            },
            XmlEvent::End(_) => {
                proof {
                    assert(data@ + Seq::<char>::empty() =~= data@);
                    assert(children + Seq::<(Seq<char>, Json)>::empty() =~= children);
                    assert(whole == Ok::<Content, Seq<char>>((data@, children, all.skip(i + 1))));
                }
                let trimmed = trim(&data);
                if !has_members {
                    return Ok((JsonValue::Text(trimmed), i + 1));
                }
                if !trimmed.as_str().is_empty() {
                    put(&mut members, "#text", JsonValue::Text(trimmed));
                }
                return Ok((JsonValue::Object(members), i + 1));
            },
            XmlEvent::Eof => {
                return Err("unexpected EOF inside XML element".to_owned());
            },
            XmlEvent::Malformed(message) => {
                return Err(message.clone());
            },
            event => {
                if let Some(chunk) = text_of(event) {
                    data.append(&chunk);
                    proof {
                        lemma_led_by_text(
                            data_before,
                            chunk@,
                            children,
                            element_content(all.skip(i + 1)),
                        );
                    }
                }
                i += 1;
            },
        }
    }
}

proof fn lemma_led_by_child(
    data: Seq<char>,
    children: Seq<(Seq<char>, Json)>,
    child: (Seq<char>, Json),
    rest: Result<Content, Seq<char>>,
)
    ensures
        rest matches Ok((more, further, after)) ==> completed(
            data,
            children,
            Ok((more, seq![child] + further, after)),
        ) == completed(data, children.push(child), rest),
{
    if let Ok((more, further, after)) = rest {
        assert(children + (seq![child] + further) =~= children.push(child) + further);
    }
}

proof fn lemma_led_by_text(
    data: Seq<char>,
    lead: Seq<char>,
    children: Seq<(Seq<char>, Json)>,
    rest: Result<Content, Seq<char>>,
)
    ensures
        completed(data, children, led_by_text(lead, rest)) == completed(
            data + lead,
            children,
            rest,
        ),
{
    if let Ok((more, further, after)) = rest {
        assert(data + (lead + more) =~= (data + lead) + more);
    }
}

/// An object with one member.
fn single_member(name: &String, value: JsonValue) -> (object: JsonValue)
    ensures
        object@ == single(name@, value@),
{
    let mut root = no_members();
    put(&mut root, &qname_local(name), value);
    JsonValue::Object(root)
}

/// The JSON view of a document with these events.
pub fn json_in(events: &Vec<XmlEvent>) -> (value: Result<JsonValue, String>)
    ensures
        result_model(value) == json_of(xml_events::tokens(events@)),
{
    let ghost all = xml_events::tokens(events@);
    let mut i: usize = 0;
    assert(all.skip(0) =~= all);
    while i < events.len()
        invariant
            i <= events@.len(),
            all == xml_events::tokens(events@),
            json_of(all.skip(i as int)) == json_of(all),
        decreases events@.len() - i,
    {
        proof {
            assert(all.skip(i as int)[0] == events@[i as int]@);
            assert(all.skip(i as int).drop_first() =~= all.skip(i + 1));
        }
        match &events[i] {
            XmlEvent::Start(name, attributes) => {
                return match read_element(events, i + 1, attributes) {
                    Ok((value, _)) => Ok(single_member(name, value)),
                    Err(message) => Err(message),
                };
            },
            XmlEvent::Empty(name, attributes) => {
                return match empty_element_value(attributes) {
                    Ok(value) => Ok(single_member(name, value)),
                    Err(message) => Err(message),
                };
            },
            XmlEvent::Eof => {
                return Err("no root element in XML".to_owned());
            },
            XmlEvent::Malformed(message) => {
                return Err(message.clone());
            },
            _ => {},
        }
        i += 1;
    }
    Err("no root element in XML".to_owned())
}

/// The JSON view of a response body. It is lossy: mixed content, order and
/// namespaces are not kept. It fails where the body cannot be read as XML up
/// to the end of its root element.
pub fn xml_to_json(body: &str) -> (value: Result<JsonValue, String>)
    ensures
        result_model(value) == json_of(xml_events::document_events(body@)),
{
    json_in(&read_events(body))
}

} // verus!
