//! What holds of the JSON view of an XML document.

use crate::json;
use crate::json::Json;
use crate::projection;
use crate::text;
use crate::xml_events;
use crate::xml_events::{AttributeToken, Attrs, XmlToken};
use vstd::prelude::*;
use vstd::string::*;

verus! {

/// What follows an element is shorter than what its start tag is followed by:
/// its end tag at least is gone.
pub proof fn law_content_ends(rest: Seq<XmlToken>)
    ensures
        projection::element_content(rest) matches Ok((_, _, after)) ==> after.len() < rest.len(),
    decreases rest.len(),
{
    if rest.len() > 0 {
        let tail = rest.drop_first();
        law_content_ends(tail);
        if let XmlToken::Start(name, attributes) = rest[0] {
            if let Ok((value, after)) = projection::element_value(attributes, tail) {
                law_content_ends(after);
            }
        }
    }
}

/// No value is an array.
pub open spec fn no_arrays(children: Seq<(Seq<char>, Json)>) -> bool {
    forall|i: int| 0 <= i < children.len() ==> !((#[trigger] children[i]).1 is Array)
}

/// An element is a string or an object, never an array.
pub proof fn law_elements_are_no_arrays(rest: Seq<XmlToken>)
    ensures
        projection::element_content(rest) matches Ok((_, children, _)) ==> no_arrays(children),
        forall|attributes: Attrs|
            (#[trigger] projection::element_value(attributes, rest)) matches Ok((value, _)) ==> !(
            value is Array),
    decreases rest.len(),
{
    if rest.len() > 0 {
        let tail = rest.drop_first();
        law_elements_are_no_arrays(tail);
        if let XmlToken::Start(name, attributes) = rest[0] {
            if let Ok((value, after)) = projection::element_value(attributes, tail) {
                law_content_ends(tail);
                law_elements_are_no_arrays(after);
            }
        }
    }
}

/// The JSON view of a document, where it has one, is an object with one
/// member, which is a string or an object.
pub proof fn law_one_root(events: Seq<XmlToken>)
    ensures
        projection::json_of(events) matches Ok(v) ==> exists|name: Seq<char>, value: Json|
            v == #[trigger] projection::single(name, value) && !(value is Array),
    decreases events.len(),
{
    if events.len() > 0 {
        match events[0] {
            XmlToken::Start(name, attributes) => {
                law_elements_are_no_arrays(events.drop_first());
                if let Ok((value, _)) = projection::element_value(attributes, events.drop_first()) {
                    assert(projection::json_of(events) == Ok::<Json, Seq<char>>(
                        projection::single(name, value),
                    ));
                }
            },
            XmlToken::Empty(name, attributes) => {
                if let Ok(value) = projection::empty_value(attributes) {
                    assert(projection::json_of(events) == Ok::<Json, Seq<char>>(
                        projection::single(name, value),
                    ));
                }
            },
            XmlToken::Eof => {},
            XmlToken::Malformed(_) => {},
            _ => {
                law_one_root(events.drop_first());
            },
        }
    }
}

/// The values of the children with this local name, in document order.
pub open spec fn values_of(children: Seq<(Seq<char>, Json)>, name: Seq<char>) -> Seq<Json>
    decreases children.len(),
{
    if children.len() == 0 {
        Seq::empty()
    } else if children.last().0 == name {
        values_of(children.drop_last(), name).push(children.last().1)
    } else {
        values_of(children.drop_last(), name)
    }
}

/// One value as it is, more as an array.
pub open spec fn collapsed(values: Seq<Json>) -> Option<Json> {
    if values.len() == 0 {
        None
    } else if values.len() == 1 {
        Some(values[0])
    } else {
        Some(Json::Array(values))
    }
}

/// A name that several children share leads to the array of their values in
/// document order, a name of one child to its value, and a name of none to
/// nothing, as long as no attribute takes that name.
pub proof fn law_repeated_children_collapse(
    members: Map<Seq<char>, Json>,
    children: Seq<(Seq<char>, Json)>,
    name: Seq<char>,
)
    requires
        !members.contains_key(name),
        no_arrays(children),
    ensures
        json::member(Json::Object(projection::with_children(members, children)), name)
            == collapsed(values_of(children, name)),
    decreases children.len(),
{
    if children.len() > 0 {
        let fewer = children.drop_last();
        assert forall|i: int| 0 <= i < fewer.len() implies !((#[trigger] fewer[i]).1 is Array) by {
            assert(fewer[i] == children[i]);
        }
        law_repeated_children_collapse(members, fewer, name);
        lemma_values_of(children, name);
        let before = projection::with_children(members, fewer);
        let values = values_of(fewer, name);
        let last = children.last();
        if last.0 == name {
            if values.len() == 1 {
                lemma_values_of(fewer, name);
                assert(!(values[0] is Array));
                assert(seq![values[0], last.1] =~= values.push(last.1));
            } else if values.len() == 0 {
                assert(values.push(last.1)[0] == last.1);
            }
        }
    }
}

pub(crate) proof fn lemma_values_of(children: Seq<(Seq<char>, Json)>, name: Seq<char>)
    requires
        no_arrays(children),
    ensures
        forall|i: int|
            0 <= i < values_of(children, name).len() ==> !(#[trigger] values_of(children, name)[i]
                is Array),
    decreases children.len(),
{
    if children.len() > 0 {
        let fewer = children.drop_last();
        assert forall|i: int| 0 <= i < fewer.len() implies !((#[trigger] fewer[i]).1 is Array) by {
            assert(fewer[i] == children[i]);
        }
        lemma_values_of(fewer, name);
        assert(!(children[children.len() - 1].1 is Array));
    }
}

/// Children leave alone what stands under other names, such as attributes.
pub proof fn law_other_members_stay(
    members: Map<Seq<char>, Json>,
    children: Seq<(Seq<char>, Json)>,
    name: Seq<char>,
)
    requires
        values_of(children, name).len() == 0,
    ensures
        json::member(Json::Object(projection::with_children(members, children)), name)
            == json::member(Json::Object(members), name),
    decreases children.len(),
{
    if children.len() > 0 {
        law_other_members_stay(members, children.drop_last(), name);
    }
}

/// An attribute stands under `@` and its local name, as a string; of several
/// with one local name the last counts.
pub proof fn law_attributes_are_members(list: Seq<(Seq<char>, Seq<char>)>, i: int)
    requires
        0 <= i < list.len(),
        forall|j: int|
            i < j < list.len() ==> projection::attribute_key((#[trigger] list[j]).0)
                != projection::attribute_key(list[i].0),
    ensures
        json::member(
            Json::Object(projection::attribute_members(list)),
            projection::attribute_key(list[i].0),
        ) == Some(Json::Text(list[i].1)),
    decreases list.len(),
{
    if i < list.len() - 1 {
        let fewer = list.drop_last();
        assert forall|j: int| i < j < fewer.len() implies projection::attribute_key(
            (#[trigger] fewer[j]).0,
        ) != projection::attribute_key(fewer[i].0) by {
            assert(fewer[j] == list[j]);
        }
        law_attributes_are_members(fewer, i);
        assert(list[list.len() - 1] == list.last());
    }
}

proof fn lemma_text_content(pieces: Seq<XmlToken>, end: Seq<char>, rest: Seq<XmlToken>)
    requires
        xml_events::within_one_element(pieces),
    ensures
        projection::element_content(pieces + seq![XmlToken::End(end)] + rest) == Ok::<
            projection::Content,
            Seq<char>,
        >((xml_events::text_among(pieces), Seq::empty(), rest)),
    decreases pieces.len(),
{
    let events = pieces + seq![XmlToken::End(end)] + rest;
    if pieces.len() == 0 {
        assert(events[0] == XmlToken::End(end));
        assert(events.drop_first() =~= rest);
    } else {
        let fewer = pieces.drop_first();
        assert forall|i: int| 0 <= i < fewer.len() implies xml_events::character_data(
            #[trigger] fewer[i],
        ) is Some || fewer[i] is Other by {
            assert(fewer[i] == pieces[i + 1]);
        }
        lemma_text_content(fewer, end, rest);
        assert(events[0] == pieces[0]);
        assert(events.drop_first() =~= fewer + seq![XmlToken::End(end)] + rest);
        assert(Seq::<char>::empty() + xml_events::text_among(fewer) =~= xml_events::text_among(
            fewer,
        ));
    }
}

/// An element with text alone is that text, without the white space around
/// it: all of its character data, CDATA sections and references, joined.
pub proof fn law_leaf_is_text(
    name: Seq<char>,
    pieces: Seq<XmlToken>,
    end: Seq<char>,
    rest: Seq<XmlToken>,
)
    requires
        xml_events::within_one_element(pieces),
    ensures
        projection::json_of(
            seq![XmlToken::Start(name, Ok(Seq::empty()))] + (pieces + seq![XmlToken::End(end)]
                + rest),
        ) == Ok::<Json, Seq<char>>(
            projection::single(name, Json::Text(text::trimmed(xml_events::text_among(pieces)))),
        ),
{
    let inner = pieces + seq![XmlToken::End(end)] + rest;
    let events = seq![XmlToken::Start(name, Ok(Seq::empty()))] + inner;
    lemma_text_content(pieces, end, rest);
    assert(events[0] == XmlToken::Start(name, Ok(Seq::empty())));
    assert(events.drop_first() =~= inner);
}

/// `a` and `b` differ in the prefixes of attribute names at most.
pub open spec fn alike_attributes(a: Attrs, b: Attrs) -> bool {
    match (a, b) {
        (Ok(m), Ok(n)) => m.len() == n.len() && forall|i: int|
            0 <= i < m.len() ==> xml_events::local_part((#[trigger] m[i]).0)
                == xml_events::local_part(n[i].0) && m[i].1 == n[i].1,
        _ => a == b,
    }
}

/// `a` and `b` differ in the prefixes of element and attribute names at most.
pub open spec fn alike(a: XmlToken, b: XmlToken) -> bool {
    match (a, b) {
        (XmlToken::Start(m, p), XmlToken::Start(n, q)) => xml_events::local_part(m)
            == xml_events::local_part(n) && alike_attributes(p, q),
        (XmlToken::Empty(m, p), XmlToken::Empty(n, q)) => xml_events::local_part(m)
            == xml_events::local_part(n) && alike_attributes(p, q),
        (XmlToken::End(_), XmlToken::End(_)) => true,
        _ => a == b,
    }
}

/// Two documents that differ in the prefixes of names at most.
pub open spec fn all_alike(a: Seq<XmlToken>, b: Seq<XmlToken>) -> bool {
    a.len() == b.len() && forall|i: int|
        #![trigger a[i]]
        #![trigger b[i]]
        0 <= i < a.len() ==> alike(a[i], b[i])
}

proof fn lemma_alike_tail(a: Seq<XmlToken>, b: Seq<XmlToken>)
    requires
        all_alike(a, b),
        a.len() > 0,
    ensures
        alike(a[0], b[0]),
        all_alike(a.drop_first(), b.drop_first()),
{
    assert forall|i: int|
        #![trigger a.drop_first()[i]]
        #![trigger b.drop_first()[i]]
        0 <= i < a.len() - 1 implies alike(a.drop_first()[i], b.drop_first()[i]) by {
        assert(alike(a[i + 1], b[i + 1]));
    }
}

proof fn lemma_alike_attributes(
    a: Seq<(Seq<char>, Seq<char>)>,
    b: Seq<(Seq<char>, Seq<char>)>,
)
    requires
        alike_attributes(Ok(a), Ok(b)),
    ensures
        projection::attribute_members(a) == projection::attribute_members(b),
    decreases a.len(),
{
    if a.len() > 0 {
        let m = a.drop_last();
        let n = b.drop_last();
        assert forall|i: int| 0 <= i < m.len() implies xml_events::local_part((#[trigger] m[i]).0)
            == xml_events::local_part(n[i].0) && m[i].1 == n[i].1 by {
            assert(m[i] == a[i]);
        }
        lemma_alike_attributes(m, n);
        assert(a[a.len() - 1] == a.last());
    }
}

/// The outcomes for two documents agree, and what is left of them is alike.
spec fn agree<T>(
    a: Result<(T, Seq<XmlToken>), Seq<char>>,
    b: Result<(T, Seq<XmlToken>), Seq<char>>,
) -> bool {
    match (a, b) {
        (Ok(x), Ok(y)) => x.0 == y.0 && all_alike(x.1, y.1),
        (Err(x), Err(y)) => x == y,
        _ => false,
    }
}

/// What an element holds, apart from what follows it.
spec fn regrouped(r: Result<projection::Content, Seq<char>>) -> Result<
    ((Seq<char>, Seq<(Seq<char>, Json)>), Seq<XmlToken>),
    Seq<char>,
> {
    match r {
        Ok((data, children, after)) => Ok(((data, children), after)),
        Err(message) => Err(message),
    }
}

proof fn lemma_alike_content(a: Seq<XmlToken>, b: Seq<XmlToken>)
    requires
        all_alike(a, b),
    ensures
        agree(
            regrouped(projection::element_content(a)),
            regrouped(projection::element_content(b)),
        ),
    decreases a.len(), 0nat,
{
    if a.len() > 0 {
        lemma_alike_tail(a, b);
        let m = a.drop_first();
        let n = b.drop_first();
        match (a[0], b[0]) {
            (XmlToken::Start(_, p), XmlToken::Start(_, q)) => {
                lemma_alike_element(p, q, m, n);
                if let Ok((value, after)) = projection::element_value(p, m) {
                    law_content_ends(m);
                    law_content_ends(n);
                    let other = projection::element_value(q, n)->Ok_0.1;
                    lemma_alike_content(after, other);
                }
            },
            (XmlToken::Empty(_, p), XmlToken::Empty(_, q)) => {
                lemma_alike_empty(p, q);
                lemma_alike_content(m, n);
            },
            _ => {
                if !(a[0] is End) && !(a[0] is Eof) && !(a[0] is Malformed) {
                    lemma_alike_content(m, n);
                }
            },
        }
    }
}

proof fn lemma_alike_empty(p: Attrs, q: Attrs)
    requires
        alike_attributes(p, q),
    ensures
        projection::empty_value(p) == projection::empty_value(q),
{
    if let Ok(m) = p {
        lemma_alike_attributes(m, q->Ok_0);
    }
}

proof fn lemma_alike_element(p: Attrs, q: Attrs, a: Seq<XmlToken>, b: Seq<XmlToken>)
    requires
        alike_attributes(p, q),
        all_alike(a, b),
    ensures
        agree(projection::element_value(p, a), projection::element_value(q, b)),
    decreases a.len(), 1nat,
{
    lemma_alike_content(a, b);
    if let Ok(m) = p {
        lemma_alike_attributes(m, q->Ok_0);
    }
}

/// The prefixes of element and attribute names have no part in the JSON view.
pub proof fn law_prefixes_do_not_matter(a: Seq<XmlToken>, b: Seq<XmlToken>)
    requires
        all_alike(a, b),
    ensures
        projection::json_of(a) == projection::json_of(b),
    decreases a.len(),
{
    if a.len() > 0 {
        lemma_alike_tail(a, b);
        let m = a.drop_first();
        let n = b.drop_first();
        match (a[0], b[0]) {
            (XmlToken::Start(_, p), XmlToken::Start(_, q)) => {
                lemma_alike_element(p, q, m, n);
            },
            (XmlToken::Empty(_, p), XmlToken::Empty(_, q)) => {
                lemma_alike_empty(p, q);
            },
            _ => {
                law_prefixes_do_not_matter(m, n);
            },
        }
    }
}

/// The listed attribute is well formed, and its value can be resolved.
pub open spec fn resolves(item: AttributeToken) -> bool {
    item matches AttributeToken::Pair(_, raw) && xml_events::unescaped(raw) is Ok
}

/// Why a listed attribute that does not resolve is refused.
pub open spec fn attribute_error(item: AttributeToken) -> Seq<char> {
    match item {
        AttributeToken::Malformed(message) => message,
        AttributeToken::Pair(_, raw) => xml_events::unescaped(raw)->Err_0,
    }
}

/// Where all listed attributes resolve, an element has as many attributes as
/// are listed, in their order, each with its name and its resolved value.
pub proof fn law_all_listed_attributes_count(items: Seq<AttributeToken>)
    requires
        forall|i: int| 0 <= i < items.len() ==> resolves(#[trigger] items[i]),
    ensures
        xml_events::gathered(items) matches Ok(list) && list.len() == items.len() && forall|i: int|
            0 <= i < items.len() ==> (#[trigger] list[i]).0 == items[i]->Pair_0
                && xml_events::unescaped(items[i]->Pair_1) == Ok::<Seq<char>, Seq<char>>(list[i].1),
    decreases items.len(),
{
    if items.len() > 0 {
        let tail = items.drop_first();
        assert(resolves(items[0]));
        assert forall|i: int| 0 <= i < tail.len() implies resolves(#[trigger] tail[i]) by {
            assert(tail[i] == items[i + 1]);
        }
        law_all_listed_attributes_count(tail);
        let more = xml_events::gathered(tail)->Ok_0;
        let list = xml_events::gathered(items)->Ok_0;
        assert forall|i: int| 0 <= i < items.len() implies (#[trigger] list[i]).0
            == items[i]->Pair_0 && xml_events::unescaped(items[i]->Pair_1) == Ok::<
            Seq<char>,
            Seq<char>,
        >(list[i].1) by {
            if i > 0 {
                assert(list[i] == more[i - 1]);
                assert(items[i] == tail[i - 1]);
            }
        }
    }
}

/// Of the listed attributes that do not resolve the first is why the
/// attributes cannot be had.
pub proof fn law_first_bad_attribute_is_the_error(items: Seq<AttributeToken>, at: int)
    requires
        0 <= at < items.len(),
        !resolves(items[at]),
        forall|i: int| 0 <= i < at ==> resolves(#[trigger] items[i]),
    ensures
        xml_events::gathered(items) == Err::<Seq<(Seq<char>, Seq<char>)>, Seq<char>>(
            attribute_error(items[at]),
        ),
    decreases items.len(),
{
    if at > 0 {
        let tail = items.drop_first();
        assert(resolves(items[0]));
        assert forall|i: int| 0 <= i < at - 1 implies resolves(#[trigger] tail[i]) by {
            assert(tail[i] == items[i + 1]);
        }
        assert(tail[at - 1] == items[at]);
        law_first_bad_attribute_is_the_error(tail, at - 1);
    }
}

} // verus!
