//! A document as a tree of elements, and the events that it is read as.

use crate::text;
use crate::xml_events;
use crate::xml_events::{Attrs, XmlToken};
use vstd::prelude::*;

verus! {

/// What stands inside an element.
#[verifier::ext_equal]
pub enum Node {
    /// Text, a reference, a comment or the like.
    Piece(XmlToken),
    /// An element: its name, its attributes, and what stands inside it.
    Element(Seq<char>, Attrs, Seq<Node>),
    /// A self-closing element: its name and its attributes.
    Empty(Seq<char>, Attrs),
}

/// The events that `nodes` are read as, one after the other.
pub open spec fn events_of(nodes: Seq<Node>) -> Seq<XmlToken>
    decreases nodes,
{
    if nodes.len() == 0 {
        Seq::empty()
    } else {
        let more = events_of(nodes.drop_first());
        match nodes[0] {
            Node::Piece(token) => seq![token] + more,
            Node::Element(name, attributes, inside) => seq![XmlToken::Start(name, attributes)]
                + events_of(inside) + seq![XmlToken::End(name)] + more,
            Node::Empty(name, attributes) => seq![XmlToken::Empty(name, attributes)] + more,
        }
    }
}

/// The pieces among `nodes`, at any depth, neither open nor close an element,
/// nor end the document.
pub open spec fn is_tree(nodes: Seq<Node>) -> bool
    decreases nodes,
{
    nodes.len() > 0 ==> {
        &&& match nodes[0] {
            Node::Piece(token) => xml_events::character_data(token) is Some || token is Other,
            Node::Element(_, _, inside) => is_tree(inside),
            Node::Empty(_, _) => true,
        }
        &&& is_tree(nodes.drop_first())
    }
}

/// The text that stands directly among `nodes`, its pieces joined.
pub open spec fn own_text(nodes: Seq<Node>) -> Seq<char>
    decreases nodes.len(),
{
    if nodes.len() == 0 {
        Seq::empty()
    } else {
        let more = own_text(nodes.drop_first());
        match nodes[0] {
            Node::Piece(token) => text::or_empty(xml_events::character_data(token)) + more,
            _ => more,
        }
    }
}

/// All text among `nodes`, at any depth, its pieces joined.
pub open spec fn all_text(nodes: Seq<Node>) -> Seq<char>
    decreases nodes,
{
    if nodes.len() == 0 {
        Seq::empty()
    } else {
        let more = all_text(nodes.drop_first());
        match nodes[0] {
            Node::Piece(token) => text::or_empty(xml_events::character_data(token)) + more,
            Node::Element(_, _, inside) => all_text(inside) + more,
            Node::Empty(_, _) => more,
        }
    }
}

/// The text among events is that of one part and then of the other.
pub proof fn lemma_text_among(a: Seq<XmlToken>, b: Seq<XmlToken>)
    ensures
        xml_events::text_among(a + b) == xml_events::text_among(a) + xml_events::text_among(b),
    decreases a.len(),
{
    if a.len() == 0 {
        assert(a + b =~= b);
        assert(xml_events::text_among(a) + xml_events::text_among(b) =~= xml_events::text_among(b));
    } else {
        assert((a + b)[0] == a[0]);
        assert((a + b).drop_first() =~= a.drop_first() + b);
        lemma_text_among(a.drop_first(), b);
        assert(xml_events::text_among(a + b) =~= xml_events::text_among(a)
            + xml_events::text_among(b));
    }
}

/// Character data and CDATA sections are text as they stand, references are
/// what they stand for, and nothing else is text.
pub proof fn law_what_counts_as_text(token: XmlToken)
    ensures
        xml_events::text_among(seq![token]) == (match token {
            XmlToken::Text(data) => data,
            XmlToken::CData(data) => data,
            XmlToken::Reference(name) => crate::references::referenced(name),
            _ => Seq::empty(),
        }),
{
    reveal_with_fuel(xml_events::text_among, 2);
    assert(seq![token].drop_first() =~= Seq::empty());
    let data = text::or_empty(xml_events::character_data(token));
    assert(data + Seq::<char>::empty() =~= data);
}

/// All text of a tree is the text among its events.
pub proof fn law_all_text_is_among_the_events(nodes: Seq<Node>)
    ensures
        xml_events::text_among(events_of(nodes)) == all_text(nodes),
    decreases nodes,
{
    if nodes.len() > 0 {
        let more = events_of(nodes.drop_first());
        law_all_text_is_among_the_events(nodes.drop_first());
        match nodes[0] {
            Node::Piece(token) => {
                lemma_text_among(seq![token], more);
                law_what_counts_as_text(token);
            },
            Node::Element(name, attributes, inside) => {
                law_all_text_is_among_the_events(inside);
                let start = seq![XmlToken::Start(name, attributes)];
                let end = seq![XmlToken::End(name)];
                lemma_text_among(start + events_of(inside) + end, more);
                lemma_text_among(start + events_of(inside), end);
                lemma_text_among(start, events_of(inside));
                law_what_counts_as_text(start[0]);
                law_what_counts_as_text(end[0]);
                assert(Seq::<char>::empty() + all_text(inside) + Seq::<char>::empty()
                    + all_text(nodes.drop_first()) =~= all_text(nodes));
            },
            Node::Empty(name, attributes) => {
                lemma_text_among(seq![XmlToken::Empty(name, attributes)], more);
                law_what_counts_as_text(XmlToken::Empty(name, attributes));
                assert(Seq::<char>::empty() + all_text(nodes.drop_first()) =~= all_text(nodes));
            },
        }
    }
}

} // verus!
