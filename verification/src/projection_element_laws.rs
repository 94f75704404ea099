//! What the elements of a document have to do with its JSON view.

use crate::json;
use crate::json::Json;
use crate::projection;
use crate::projection_laws;
use crate::text;
use crate::tree;
use crate::tree::Node;
use crate::xml_events;
use crate::xml_events::{Attrs, XmlToken};
use vstd::prelude::*;
use vstd::string::*;
use vstd::utf8::*;

verus! {

/// The attributes of all elements among `nodes`, at any depth, can be had.
pub open spec fn attributes_known(nodes: Seq<Node>) -> bool
    decreases nodes,
{
    nodes.len() > 0 ==> {
        &&& match nodes[0] {
            Node::Piece(_) => true,
            Node::Element(_, attributes, inside) => attributes is Ok && attributes_known(inside),
            Node::Empty(_, attributes) => attributes is Ok,
        }
        &&& attributes_known(nodes.drop_first())
    }
}

/// The view of an element by itself.
pub open spec fn view_of(node: Node) -> Json {
    match node {
        Node::Piece(_) => Json::Null,
        Node::Element(name, attributes, inside) => projection::element_value(
            attributes,
            tree::events_of(inside) + seq![XmlToken::End(name)],
        )->Ok_0.0,
        Node::Empty(_, attributes) => projection::empty_value(attributes)->Ok_0,
    }
}

/// The elements directly among `nodes`, by local name and view, in document
/// order.
pub open spec fn children_among(nodes: Seq<Node>) -> Seq<(Seq<char>, Json)>
    decreases nodes.len(),
{
    if nodes.len() == 0 {
        Seq::empty()
    } else {
        let more = children_among(nodes.drop_first());
        match nodes[0] {
            Node::Piece(_) => more,
            Node::Element(name, _, _) => seq![(xml_events::local_part(name), view_of(nodes[0]))]
                + more,
            Node::Empty(name, _) => seq![(xml_events::local_part(name), view_of(nodes[0]))] + more,
        }
    }
}

/// What stands among `nodes`, and what comes after.
spec fn followed(nodes: Seq<Node>, rest: Result<projection::Content, Seq<char>>) -> Result<
    projection::Content,
    Seq<char>,
> {
    match rest {
        Err(message) => Err(message),
        Ok((data, children, after)) => Ok(
            (tree::own_text(nodes) + data, children_among(nodes) + children, after),
        ),
    }
}

proof fn lemma_content(nodes: Seq<Node>, rest: Seq<XmlToken>)
    requires
        tree::is_tree(nodes),
        attributes_known(nodes),
    ensures
        projection::element_content(tree::events_of(nodes) + rest) == followed(
            nodes,
            projection::element_content(rest),
        ),
    decreases nodes, 0nat,
{
    let events = tree::events_of(nodes) + rest;
    let content = projection::element_content(rest);
    if nodes.len() == 0 {
        assert(events =~= rest);
        if let Ok((data, children, after)) = content {
            assert(tree::own_text(nodes) + data =~= data);
            assert(children_among(nodes) + children =~= children);
        }
    } else {
        let tail = nodes.drop_first();
        let more = tree::events_of(tail) + rest;
        lemma_content(tail, rest);
        match nodes[0] {
            Node::Piece(token) => {
                assert(events[0] == token);
                assert(events.drop_first() =~= more);
                if let Ok((data, children, after)) = content {
                    let lead = text::or_empty(xml_events::character_data(token));
                    assert(lead + (tree::own_text(tail) + data) =~= tree::own_text(nodes) + data);
                    assert(token is Other ==> lead + tree::own_text(tail) =~= tree::own_text(tail));
                }
            },
            Node::Element(name, attributes, inside) => {
                let end = seq![XmlToken::End(name)];
                assert(events[0] == XmlToken::Start(name, attributes));
                assert(events.drop_first() =~= tree::events_of(inside) + end + more);
                lemma_element(attributes->Ok_0, name, inside, more);
                if let Ok((data, children, after)) = content {
                    let child = (xml_events::local_part(name), view_of(nodes[0]));
                    assert(seq![child] + (children_among(tail) + children) =~= children_among(nodes)
                        + children);
                }
            },
            Node::Empty(name, attributes) => {
                assert(events[0] == XmlToken::Empty(name, attributes));
                assert(events.drop_first() =~= more);
                if let Ok((data, children, after)) = content {
                    let child = (xml_events::local_part(name), view_of(nodes[0]));
                    assert(seq![child] + (children_among(tail) + children) =~= children_among(nodes)
                        + children);
                }
            },
        }
    }
}

proof fn lemma_element(
    list: Seq<(Seq<char>, Seq<char>)>,
    name: Seq<char>,
    inside: Seq<Node>,
    rest: Seq<XmlToken>,
)
    requires
        tree::is_tree(inside),
        attributes_known(inside),
    ensures
        projection::element_value(
            Ok(list),
            tree::events_of(inside) + seq![XmlToken::End(name)] + rest,
        ) == Ok::<(Json, Seq<XmlToken>), Seq<char>>(
            (view_of(Node::Element(name, Ok(list), inside)), rest),
        ),
        view_of(Node::Element(name, Ok(list), inside)) == projection::assembled(
            list,
            children_among(inside),
            tree::own_text(inside),
        ),
    decreases inside, 2nat,
{
    let end = seq![XmlToken::End(name)];
    lemma_content_to_end(inside, name, rest);
    lemma_content_to_end(inside, name, Seq::empty());
    assert(tree::events_of(inside) + end + Seq::<XmlToken>::empty() =~= tree::events_of(inside)
        + end);
}

proof fn lemma_content_to_end(inside: Seq<Node>, name: Seq<char>, rest: Seq<XmlToken>)
    requires
        tree::is_tree(inside),
        attributes_known(inside),
    ensures
        projection::element_content(tree::events_of(inside) + seq![XmlToken::End(name)] + rest)
            == Ok::<projection::Content, Seq<char>>(
            (tree::own_text(inside), children_among(inside), rest),
        ),
    decreases inside, 1nat,
{
    let end = seq![XmlToken::End(name)];
    let after = end + rest;
    lemma_content(inside, after);
    assert(tree::events_of(inside) + after =~= tree::events_of(inside) + end + rest);
    assert(after[0] == XmlToken::End(name));
    assert(after.drop_first() =~= rest);
    assert(tree::own_text(inside) + Seq::<char>::empty() =~= tree::own_text(inside));
    assert(children_among(inside) + Seq::<(Seq<char>, Json)>::empty() =~= children_among(inside));
}

/// `lead` opens no element, and can be read to its end.
pub open spec fn before_the_root(lead: Seq<XmlToken>) -> bool {
    forall|i: int|
        0 <= i < lead.len() ==> !(#[trigger] lead[i] is Start) && !(lead[i] is Empty) && !(lead[i]
            is Eof) && !(lead[i] is Malformed)
}

proof fn lemma_before_the_root(lead: Seq<XmlToken>, rest: Seq<XmlToken>)
    requires
        before_the_root(lead),
    ensures
        projection::json_of(lead + rest) == projection::json_of(rest),
    decreases lead.len(),
{
    if lead.len() == 0 {
        assert(lead + rest =~= rest);
    } else {
        let tail = lead.drop_first();
        assert(!(lead[0] is Start) && !(lead[0] is Empty) && !(lead[0] is Eof) && !(lead[0]
            is Malformed));
        assert forall|i: int| 0 <= i < tail.len() implies !(#[trigger] tail[i] is Start)
            && !(tail[i] is Empty) && !(tail[i] is Eof) && !(tail[i] is Malformed) by {
            assert(tail[i] == lead[i + 1]);
        }
        assert((lead + rest)[0] == lead[0]);
        assert((lead + rest).drop_first() =~= tail + rest);
        lemma_before_the_root(tail, rest);
    }
}

/// The view of a document has one member: the view of its root element, under
/// the root's local name. What comes before the root and after it has no part
/// in it.
pub proof fn law_document_is_its_root(lead: Seq<XmlToken>, root: Node, rest: Seq<XmlToken>)
    requires
        before_the_root(lead),
        !(root is Piece),
        tree::is_tree(seq![root]),
        attributes_known(seq![root]),
    ensures
        ({
            let name = if root is Element {
                root->Element_0
            } else {
                root->Empty_0
            };
            projection::json_of(lead + tree::events_of(seq![root]) + rest) == Ok::<
                Json,
                Seq<char>,
            >(Json::Object(map![xml_events::local_part(name) => view_of(root)]))
        }),
{
    let events = tree::events_of(seq![root]) + rest;
    reveal_with_fuel(tree::events_of, 2);
    reveal_with_fuel(tree::is_tree, 2);
    reveal_with_fuel(attributes_known, 2);
    assert(seq![root].drop_first() =~= Seq::empty());
    lemma_before_the_root(lead, events);
    assert(lead + events =~= lead + tree::events_of(seq![root]) + rest);
    match root {
        Node::Element(name, attributes, inside) => {
            assert(events[0] == XmlToken::Start(name, attributes));
            assert(events.drop_first() =~= tree::events_of(inside) + seq![XmlToken::End(name)]
                + rest);
            lemma_element(attributes->Ok_0, name, inside, rest);
            assert(Map::empty().insert(xml_events::local_part(name), view_of(root)) =~= map![
                xml_events::local_part(name) => view_of(root)]);
        },
        Node::Empty(name, attributes) => {
            assert(events[0] == XmlToken::Empty(name, attributes));
            assert(Map::empty().insert(xml_events::local_part(name), view_of(root)) =~= map![
                xml_events::local_part(name) => view_of(root)]);
        },
        Node::Piece(_) => {},
    }
}

/// The value of the last attribute that stands under this key, if one does.
pub open spec fn attribute_under(list: Seq<(Seq<char>, Seq<char>)>, key: Seq<char>) -> Seq<Json>
    decreases list.len(),
{
    if list.len() == 0 {
        Seq::empty()
    } else if "@"@ + xml_events::local_part(list.last().0) == key {
        seq![Json::Text(list.last().1)]
    } else {
        attribute_under(list.drop_last(), key)
    }
}

proof fn lemma_attribute_under(list: Seq<(Seq<char>, Seq<char>)>, key: Seq<char>)
    ensures
        json::member(Json::Object(projection::attribute_members(list)), key)
            == projection_laws::collapsed(attribute_under(list, key)),
        attribute_under(list, key).len() <= 1,
        attribute_under(list, key).len() == 1 ==> attribute_under(list, key)[0] is Text,
    decreases list.len(),
{
    if list.len() > 0 {
        lemma_attribute_under(list.drop_last(), key);
    }
}

proof fn lemma_collapse(
    members: Map<Seq<char>, Json>,
    children: Seq<(Seq<char>, Json)>,
    key: Seq<char>,
    first: Seq<Json>,
)
    requires
        projection_laws::no_arrays(children),
        first.len() <= 1,
        first.len() == 1 ==> !(first[0] is Array),
        json::member(Json::Object(members), key) == projection_laws::collapsed(first),
    ensures
        json::member(Json::Object(projection::with_children(members, children)), key)
            == projection_laws::collapsed(first + projection_laws::values_of(children, key)),
    decreases children.len(),
{
    let values = projection_laws::values_of(children, key);
    if children.len() == 0 {
        assert(first + values =~= first);
    } else {
        let fewer = children.drop_last();
        let last = children.last();
        assert(!(children[children.len() - 1].1 is Array));
        assert forall|i: int| 0 <= i < fewer.len() implies !((#[trigger] fewer[i]).1 is Array) by {
            assert(fewer[i] == children[i]);
        }
        lemma_collapse(members, fewer, key, first);
        let before = first + projection_laws::values_of(fewer, key);
        if last.0 == key {
            assert(first + values =~= before.push(last.1));
            if before.len() == 1 {
                assert(!(before[0] is Array)) by {
                    projection_laws::lemma_values_of(fewer, key);
                    if first.len() == 0 {
                        assert(before[0] == projection_laws::values_of(fewer, key)[0]);
                    } else {
                        assert(before[0] == first[0]);
                    }
                }
                assert(seq![before[0], last.1] =~= before.push(last.1));
            }
        }
    }
}

proof fn lemma_children_are_no_arrays(nodes: Seq<Node>)
    requires
        tree::is_tree(nodes),
        attributes_known(nodes),
    ensures
        projection_laws::no_arrays(children_among(nodes)),
{
    lemma_content_to_end(nodes, Seq::empty(), Seq::empty());
    projection_laws::law_elements_are_no_arrays(
        tree::events_of(nodes) + seq![XmlToken::End(Seq::empty())] + Seq::<XmlToken>::empty(),
    );
}

/// The view of an element. One with neither attributes nor elements inside is
/// its text, without the white space around it. Any other is an object. Under
/// `#text` stands its own text, without the white space around it, unless that
/// is blank. Under any other key stand the last attribute whose local name, after
/// an `@`, is that key, and the views of the elements inside with that local
/// name, in document order: one value as it is, several as an array, and without
/// any there is no such member.
pub proof fn law_view_of_an_element(
    name: Seq<char>,
    list: Seq<(Seq<char>, Seq<char>)>,
    inside: Seq<Node>,
    key: Seq<char>,
)
    requires
        tree::is_tree(inside),
        attributes_known(inside),
    ensures
        ({
            let view = view_of(Node::Element(name, Ok(list), inside));
            let children = children_among(inside);
            let own = tree::own_text(inside);
            if list.len() == 0 && children.len() == 0 {
                view == Json::Text(text::trimmed(own))
            } else {
                &&& view is Object
                &&& json::member(view, key) == (if key == "#text"@ && !text::is_blank(own) {
                    Some(Json::Text(text::trimmed(own)))
                } else {
                    projection_laws::collapsed(
                        attribute_under(list, key) + projection_laws::values_of(children, key),
                    )
                })
            }
        }),
{
    lemma_element(list, name, inside, Seq::empty());
    lemma_children_are_no_arrays(inside);
    lemma_attribute_under(list, key);
    lemma_collapse(
        projection::attribute_members(list),
        children_among(inside),
        key,
        attribute_under(list, key),
    );
}

/// A self-closing element has the view of an element with nothing inside.
pub proof fn law_self_closing_is_nothing_inside(name: Seq<char>, attributes: Attrs)
    requires
        attributes is Ok,
    ensures
        view_of(Node::Empty(name, attributes)) == view_of(
            Node::Element(name, attributes, Seq::empty()),
        ),
{
    lemma_element(attributes->Ok_0, name, Seq::empty(), Seq::empty());
    text::lemma_empty_is_blank();
    assert(text::trimmed(Seq::empty()) =~= Seq::empty());
}

/// Every attribute that is listed for a tag, unless a later one has the same
/// local name, is a member of the element's view under `@` and that local name,
/// as long as no element inside has such a name: its value is the listed one,
/// its references resolved.
pub proof fn law_listed_attributes_are_members(
    name: Seq<u8>,
    content: Seq<u8>,
    inside: Seq<Node>,
    i: int,
)
    requires
        tree::is_tree(inside),
        attributes_known(inside),
        ({
            let items = xml_events::listed(decode_utf8(content), decode_utf8(name));
            &&& 0 <= i < items.len()
            &&& forall|j: int|
                0 <= j < items.len() ==> projection_laws::resolves(#[trigger] items[j])
            &&& forall|j: int|
                i < j < items.len() ==> xml_events::local_part((#[trigger] items[j])->Pair_0)
                    != xml_events::local_part(items[i]->Pair_0)
            &&& projection_laws::values_of(
                children_among(inside),
                "@"@ + xml_events::local_part(items[i]->Pair_0),
            ).len() == 0
        }),
    ensures
        ({
            let items = xml_events::listed(decode_utf8(content), decode_utf8(name));
            let attributes = xml_events::tag_attributes(name, content);
            let element = Node::Element(decode_utf8(name), attributes, inside);
            attributes is Ok && json::member(
                view_of(element),
                "@"@ + xml_events::local_part(items[i]->Pair_0),
            ) == Some(Json::Text(xml_events::unescaped(items[i]->Pair_1)->Ok_0))
        }),
{
    let items = xml_events::listed(decode_utf8(content), decode_utf8(name));
    projection_laws::law_all_listed_attributes_count(items);
    let list = xml_events::gathered(items)->Ok_0;
    let key = "@"@ + xml_events::local_part(items[i]->Pair_0);
    assert(list[i].0 == items[i]->Pair_0);
    assert forall|j: int| i < j < list.len() implies "@"@ + xml_events::local_part(
        (#[trigger] list[j]).0,
    ) != key by {
        let a = xml_events::local_part(list[j].0);
        let b = xml_events::local_part(items[i]->Pair_0);
        assert(list[j].0 == items[j]->Pair_0);
        assert(("@"@ + a).skip("@"@.len() as int) =~= a);
        assert(key.skip("@"@.len() as int) =~= b);
    }
    lemma_last_under(list, i, key);
    reveal_strlit("@");
    reveal_strlit("#text");
    assert(key[0] == '@' && "#text"@[0] == '#');
    law_view_of_an_element(decode_utf8(name), list, inside, key);
    let one = attribute_under(list, key);
    assert(one + projection_laws::values_of(children_among(inside), key) =~= one);
}

proof fn lemma_last_under(list: Seq<(Seq<char>, Seq<char>)>, i: int, key: Seq<char>)
    requires
        0 <= i < list.len(),
        "@"@ + xml_events::local_part(list[i].0) == key,
        forall|j: int|
            i < j < list.len() ==> "@"@ + xml_events::local_part((#[trigger] list[j]).0) != key,
    ensures
        attribute_under(list, key) == seq![Json::Text(list[i].1)],
    decreases list.len(),
{
    if i < list.len() - 1 {
        let fewer = list.drop_last();
        assert(list[list.len() - 1] == list.last());
        assert forall|j: int| i < j < fewer.len() implies "@"@ + xml_events::local_part(
            (#[trigger] fewer[j]).0,
        ) != key by {
            assert(fewer[j] == list[j]);
        }
        lemma_last_under(fewer, i, key);
    }
}

/// What keeps an element from having a view: the document ends, or cannot be
/// read on, or the attributes of an element cannot be had.
pub open spec fn obstacle(rest: Seq<XmlToken>) -> Option<Seq<char>> {
    if rest.len() == 0 || rest[0] is Eof {
        Some("unexpected EOF inside XML element"@)
    } else {
        match rest[0] {
            XmlToken::Malformed(message) => Some(message),
            XmlToken::Start(_, Err(message)) => Some(message),
            XmlToken::Empty(_, Err(message)) => Some(message),
            _ => None,
        }
    }
}

/// A document has no view if anything keeps its root from having one before the
/// root ends: the first such thing is why.
pub proof fn law_no_view_without_the_whole_root(
    lead: Seq<XmlToken>,
    name: Seq<char>,
    attributes: Attrs,
    inside: Seq<Node>,
    rest: Seq<XmlToken>,
)
    requires
        before_the_root(lead),
        tree::is_tree(inside),
        attributes_known(inside),
        attributes is Ok ==> obstacle(rest) is Some,
    ensures
        projection::json_of(
            lead + (seq![XmlToken::Start(name, attributes)] + (tree::events_of(inside) + rest)),
        ) == Err::<Json, Seq<char>>(
            match attributes {
                Err(message) => message,
                Ok(_) => obstacle(rest)->0,
            },
        ),
{
    let content = tree::events_of(inside) + rest;
    let events = seq![XmlToken::Start(name, attributes)] + content;
    lemma_before_the_root(lead, events);
    assert(events[0] == XmlToken::Start(name, attributes));
    assert(events.drop_first() =~= content);
    lemma_content(inside, rest);
    if rest.len() > 0 {
        if let XmlToken::Start(_, Err(message)) = rest[0] {
            assert(projection::element_value(Err(message), rest.drop_first()) == Err::<
                (Json, Seq<XmlToken>),
                Seq<char>,
            >(message));
        }
    }
    assert(attributes is Ok ==> projection::element_content(rest) == Err::<
        projection::Content,
        Seq<char>,
    >(obstacle(rest)->0));
}

/// A document that ends, or cannot be read on, before any element has no view.
pub proof fn law_no_view_without_a_root(lead: Seq<XmlToken>, rest: Seq<XmlToken>)
    requires
        before_the_root(lead),
        rest.len() == 0 || rest[0] is Eof || rest[0] is Malformed,
    ensures
        projection::json_of(lead + rest) == Err::<Json, Seq<char>>(
            if rest.len() > 0 && rest[0] is Malformed {
                rest[0]->Malformed_0
            } else {
                "no root element in XML"@
            },
        ),
{
    lemma_before_the_root(lead, rest);
}

} // verus!
