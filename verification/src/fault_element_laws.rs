//! What the elements of a fault have to do with the fault that is found.

use crate::fault;
use crate::fault::{Scan, Slot};
use crate::fault_laws;
use crate::fault_laws::Details;
use crate::text;
use crate::tree;
use crate::tree::Node;
use crate::xml_events;
use crate::xml_events::{Attrs, XmlToken};
use vstd::prelude::*;
use vstd::string::*;

verus! {

/// A part of a fault that an element gives by its text.
#[verifier::ext_equal]
pub enum Part {
    /// `faultcode`.
    FaultCode,
    /// The `Value` of a `Code`.
    CodeValue,
    /// The `Value` of a `Subcode`.
    SubcodeValue,
    /// `faultstring`, or the `Text` of a `Reason`.
    Reason,
    /// `faultactor`, or `Node`.
    Node,
    /// `Role`.
    Role,
}

/// The part that an element gives, by its local name and that of the element
/// around it.
pub open spec fn part_of(name: Seq<char>, parent: Seq<char>) -> Option<Part> {
    if name == "faultcode"@ {
        Some(Part::FaultCode)
    } else if name == "Value"@ && parent == "Code"@ {
        Some(Part::CodeValue)
    } else if name == "Value"@ && parent == "Subcode"@ {
        Some(Part::SubcodeValue)
    } else if name == "faultstring"@ || (name == "Text"@ && parent == "Reason"@) {
        Some(Part::Reason)
    } else if name == "faultactor"@ || name == "Node"@ {
        Some(Part::Node)
    } else if name == "Role"@ {
        Some(Part::Role)
    } else {
        None
    }
}

/// `name` is that of the element with the details.
pub open spec fn names_details(name: Seq<char>) -> bool {
    name == "detail"@ || name == "Detail"@
}

/// A text without the white space around it, unless it is blank.
pub open spec fn unless_blank(s: Seq<char>) -> Seq<Seq<char>> {
    if text::is_blank(s) {
        Seq::empty()
    } else {
        seq![text::trimmed(s)]
    }
}

/// The parts that the elements among `nodes` give, at any depth but in the
/// details, in document order. `parent` is the local name of the element around
/// them.
pub open spec fn told(nodes: Seq<Node>, parent: Seq<char>) -> Seq<(Part, Seq<char>)>
    decreases nodes,
{
    if nodes.len() == 0 {
        Seq::empty()
    } else {
        let more = told(nodes.drop_first(), parent);
        match nodes[0] {
            Node::Element(name, _, inside) => {
                let local = xml_events::local_part(name);
                if names_details(local) {
                    more
                } else {
                    match part_of(local, parent) {
                        Some(part) => if text::is_blank(tree::own_text(inside)) {
                            more
                        } else {
                            seq![(part, text::trimmed(tree::own_text(inside)))] + more
                        },
                        None => told(inside, local) + more,
                    }
                }
            },
            _ => more,
        }
    }
}

/// The texts of the details among `nodes`, at any depth, in document order.
pub open spec fn details_told(nodes: Seq<Node>, parent: Seq<char>) -> Seq<Seq<char>>
    decreases nodes,
{
    if nodes.len() == 0 {
        Seq::empty()
    } else {
        let more = details_told(nodes.drop_first(), parent);
        match nodes[0] {
            Node::Element(name, _, inside) => {
                let local = xml_events::local_part(name);
                if names_details(local) {
                    unless_blank(tree::all_text(inside)) + more
                } else if part_of(local, parent) is Some {
                    more
                } else {
                    details_told(inside, local) + more
                }
            },
            _ => more,
        }
    }
}

/// No element among `nodes`, at any depth, is a part of a fault.
pub open spec fn no_parts(nodes: Seq<Node>, parent: Seq<char>) -> bool
    decreases nodes,
{
    nodes.len() > 0 ==> {
        &&& match nodes[0] {
            Node::Piece(_) => true,
            Node::Element(name, _, inside) => {
                let local = xml_events::local_part(name);
                !names_details(local) && part_of(local, parent) is None && no_parts(inside, local)
            },
            Node::Empty(name, _) => !names_details(xml_events::local_part(name)),
        }
        &&& no_parts(nodes.drop_first(), parent)
    }
}

/// No part of a fault among `nodes` stands inside another, at any depth.
pub open spec fn parts_apart(nodes: Seq<Node>, parent: Seq<char>) -> bool
    decreases nodes,
{
    nodes.len() > 0 ==> {
        &&& match nodes[0] {
            Node::Element(name, _, inside) => {
                let local = xml_events::local_part(name);
                if names_details(local) {
                    true
                } else if part_of(local, parent) is Some {
                    no_parts(inside, local)
                } else {
                    parts_apart(inside, local)
                }
            },
            _ => true,
        }
        &&& parts_apart(nodes.drop_first(), parent)
    }
}

/// The texts that are given for this part, in document order.
pub open spec fn texts_for(parts: Seq<(Part, Seq<char>)>, part: Part) -> Seq<Seq<char>>
    decreases parts.len(),
{
    if parts.len() == 0 {
        Seq::empty()
    } else if parts.last().0 == part {
        texts_for(parts.drop_last(), part).push(parts.last().1)
    } else {
        texts_for(parts.drop_last(), part)
    }
}

/// The texts that are given for the code, in document order: each `faultcode`,
/// and the first `Code/Value`.
pub open spec fn codes_in(parts: Seq<(Part, Seq<char>)>) -> Seq<Seq<char>>
    decreases parts.len(),
{
    if parts.len() == 0 {
        Seq::empty()
    } else {
        let before = parts.drop_last();
        let last = parts.last();
        if last.0 == Part::FaultCode || (last.0 == Part::CodeValue && texts_for(
            before,
            Part::CodeValue,
        ).len() == 0) {
            codes_in(before).push(last.1)
        } else {
            codes_in(before)
        }
    }
}

/// The last of `list`, if there is one.
pub open spec fn last_of(list: Seq<Seq<char>>) -> Option<Seq<char>> {
    if list.len() == 0 {
        None
    } else {
        Some(list.last())
    }
}

/// `lead` opens no fault, and can be read to its end.
pub open spec fn leads_up(lead: Seq<XmlToken>) -> bool {
    forall|i: int|
        0 <= i < lead.len() ==> !(#[trigger] lead[i] is Eof) && !(lead[i] is Malformed)
            && !fault_laws::opens_fault(lead[i])
}

/// What a scan knows of the parts of a fault.
#[verifier::ext_equal]
struct Known {
    code: Seq<char>,
    code_taken: bool,
    reason: Seq<char>,
    node: Option<Seq<char>>,
    role: Option<Seq<char>>,
    subcodes: Seq<Seq<char>>,
}

spec fn known(scan: Scan) -> Known {
    Known {
        code: scan.fault.code,
        code_taken: scan.code_taken,
        reason: scan.fault.reason,
        node: scan.fault.node,
        role: scan.fault.role,
        subcodes: scan.fault.subcodes,
    }
}

/// What is known once one more part is told.
spec fn learned(k: Known, part: Part, value: Seq<char>) -> Known {
    match part {
        Part::FaultCode => Known { code: value, ..k },
        Part::CodeValue => if k.code_taken {
            k
        } else {
            Known { code: value, code_taken: true, ..k }
        },
        Part::SubcodeValue => Known { subcodes: k.subcodes.push(value), ..k },
        Part::Reason => Known { reason: value, ..k },
        Part::Node => Known { node: Some(value), ..k },
        Part::Role => Known { role: Some(value), ..k },
    }
}

/// What is known once all of `parts` are told.
spec fn all_learned(k: Known, parts: Seq<(Part, Seq<char>)>) -> Known
    decreases parts.len(),
{
    if parts.len() == 0 {
        k
    } else {
        all_learned(learned(k, parts[0].0, parts[0].1), parts.drop_first())
    }
}

proof fn lemma_all_learned(k: Known, a: Seq<(Part, Seq<char>)>, b: Seq<(Part, Seq<char>)>)
    ensures
        all_learned(k, a + b) == all_learned(all_learned(k, a), b),
    decreases a.len(),
{
    if a.len() == 0 {
        assert(a + b =~= b);
    } else {
        assert((a + b)[0] == a[0]);
        assert((a + b).drop_first() =~= a.drop_first() + b);
        lemma_all_learned(learned(k, a[0].0, a[0].1), a.drop_first(), b);
    }
}

proof fn lemma_one_learned(k: Known, part: Part, value: Seq<char>, b: Seq<(Part, Seq<char>)>)
    ensures
        all_learned(k, seq![(part, value)] + b) == all_learned(learned(k, part, value), b),
{
    let all = seq![(part, value)] + b;
    assert(all[0] == (part, value));
    assert(all.drop_first() =~= b);
}

/// The last of `list`, or what there was before.
spec fn last_or(list: Seq<Seq<char>>, before: Option<Seq<char>>) -> Option<Seq<char>> {
    if list.len() == 0 {
        before
    } else {
        Some(list.last())
    }
}

/// A scan inside a fault, in an element whose own text is none of its parts.
spec fn is_inside(scan: Scan, parent: Seq<char>) -> bool {
    &&& scan.fault_depth is Some
    &&& scan.fault_depth->0 <= scan.path.len()
    &&& scan.path.len() > 0
    &&& scan.path.last() == parent
    &&& scan.texts.len() == scan.path.len()
    &&& scan.taken.len() == scan.path.len()
    &&& scan.detail_depth is None
}

/// The place of an element's text is that of the part that it gives.
proof fn lemma_slot(path: Seq<Seq<char>>, local: Seq<char>)
    requires
        path.len() > 0,
    ensures
        fault::slot_of(path.push(local)) == (match part_of(local, path.last()) {
            Some(Part::FaultCode) => Slot::Code,
            Some(Part::CodeValue) => Slot::FirstCode,
            Some(Part::SubcodeValue) => Slot::Subcode,
            Some(Part::Reason) => Slot::Reason,
            Some(Part::Node) => Slot::Node,
            Some(Part::Role) => Slot::Role,
            None => Slot::Nowhere,
        }),
{
    fault_laws::lemma_names();
    let inner = path.push(local);
    assert(fault::enclosing(inner, 0) == local);
    assert(fault::enclosing(inner, 1) == path.last());
}

/// The scan past an element with these events inside.
proof fn lemma_element(scan: Scan, name: Seq<char>, attributes: Attrs, inside: Seq<XmlToken>)
    requires
        scan.fault_depth is Some,
    ensures
        ({
            let events = seq![XmlToken::Start(name, attributes)] + inside + seq![
                XmlToken::End(name),
            ];
            let opened = fault::past_start(scan, xml_events::local_part(name));
            let before = fault_laws::scan_from(opened, inside);
            &&& fault_laws::scan_from(scan, events) == fault::past_end(before)
            &&& fault_laws::runs_through(opened, inside) && before.fault_depth != Some(
                before.path.len(),
            ) ==> fault_laws::runs_through(scan, events)
        }),
{
    let start = seq![XmlToken::Start(name, attributes)];
    let end = seq![XmlToken::End(name)];
    let opened = fault::past_start(scan, xml_events::local_part(name));
    fault_laws::lemma_one(scan, start[0]);
    fault_laws::lemma_one_after_the_other(scan, start, inside);
    fault_laws::lemma_one_after_the_other(scan, start + inside, end);
    fault_laws::lemma_one(fault_laws::scan_from(opened, inside), end[0]);
}

/// A self-closing element that has no details leaves a scan as it was.
proof fn lemma_empty(scan: Scan, name: Seq<char>, attributes: Attrs)
    requires
        scan.fault_depth is Some,
        scan.fault_depth->0 <= scan.path.len(),
        scan.detail_depth is None,
        !names_details(xml_events::local_part(name)),
    ensures
        fault::past(scan, XmlToken::Empty(name, attributes)) == scan,
        !fault::ends_fault(scan, XmlToken::Empty(name, attributes)),
{
    let after = fault::past(scan, XmlToken::Empty(name, attributes));
    assert(after.path =~= scan.path);
    assert(after.texts =~= scan.texts);
    assert(after.taken =~= scan.taken);
}

/// Of what stands inside a part its own text alone is read, its pieces joined.
proof fn lemma_own_text(scan: Scan, nodes: Seq<Node>)
    requires
        is_inside(scan, scan.path.last()),
        tree::is_tree(nodes),
        no_parts(nodes, scan.path.last()),
    ensures
        fault_laws::runs_through(scan, tree::events_of(nodes)),
        fault_laws::scan_from(scan, tree::events_of(nodes)) == fault::past_text(
            scan,
            tree::own_text(nodes),
        ),
    decreases nodes,
{
    if nodes.len() == 0 {
        fault_laws::law_pieces_are_one_text(scan, Seq::empty());
    } else {
        let tail = nodes.drop_first();
        let more = tree::events_of(tail);
        match nodes[0] {
            Node::Piece(token) => {
                let data = text::or_empty(xml_events::character_data(token));
                fault_laws::lemma_one(scan, token);
                fault_laws::lemma_one_after_the_other(scan, seq![token], more);
                let next = fault::past(scan, token);
                lemma_own_text(next, tail);
                if token is Other {
                    assert(data + tree::own_text(tail) =~= tree::own_text(tail));
                } else {
                    fault_laws::lemma_two_pieces(scan, data, tree::own_text(tail));
                }
            },
            Node::Element(name, attributes, inside) => {
                let local = xml_events::local_part(name);
                let events = seq![XmlToken::Start(name, attributes)] + tree::events_of(inside)
                    + seq![XmlToken::End(name)];
                let opened = fault::past_start(scan, local);
                assert(opened.path.last() == local);
                lemma_slot(scan.path, local);
                lemma_own_text(opened, inside);
                lemma_element(scan, name, attributes, tree::events_of(inside));
                let after = fault_laws::scan_from(scan, events);
                assert(after.path =~= scan.path);
                assert(after.texts =~= scan.texts);
                assert(after.taken =~= scan.taken);
                assert(after == scan);
                fault_laws::lemma_one_after_the_other(scan, events, more);
                lemma_own_text(scan, tail);
            },
            Node::Empty(name, attributes) => {
                lemma_empty(scan, name, attributes);
                fault_laws::lemma_one(scan, XmlToken::Empty(name, attributes));
                fault_laws::lemma_one_after_the_other(
                    scan,
                    seq![XmlToken::Empty(name, attributes)],
                    more,
                );
                lemma_own_text(scan, tail);
            },
        }
    }
}

/// An element that gives a part.
proof fn lemma_part(
    scan: Scan,
    name: Seq<char>,
    attributes: Attrs,
    inside: Seq<Node>,
    part: Part,
)
    requires
        is_inside(scan, scan.path.last()),
        tree::is_tree(inside),
        !names_details(xml_events::local_part(name)),
        part_of(xml_events::local_part(name), scan.path.last()) == Some(part),
        no_parts(inside, xml_events::local_part(name)),
    ensures
        ({
            let events = seq![XmlToken::Start(name, attributes)] + tree::events_of(inside) + seq![
                XmlToken::End(name),
            ];
            let after = fault_laws::scan_from(scan, events);
            let own = tree::own_text(inside);
            &&& fault_laws::runs_through(scan, events)
            &&& after.path == scan.path
            &&& after.texts == scan.texts
            &&& after.taken == scan.taken
            &&& after.fault_depth == scan.fault_depth
            &&& after.detail_depth is None
            &&& after.fault.detail == scan.fault.detail
            &&& known(after) == (if text::is_blank(own) {
                known(scan)
            } else {
                learned(known(scan), part, text::trimmed(own))
            })
        }),
{
    let local = xml_events::local_part(name);
    let own = tree::own_text(inside);
    let opened = fault::past_start(scan, local);
    assert(opened.path.last() == local);
    lemma_slot(scan.path, local);
    lemma_own_text(opened, inside);
    lemma_element(scan, name, attributes, tree::events_of(inside));
    let before = fault::past_text(opened, own);
    assert(opened.texts.last() + own =~= own);
    assert(before.path.drop_last() =~= scan.path);
    assert(before.texts.drop_last() =~= scan.texts);
    assert(before.taken.drop_last() =~= scan.taken);
}

proof fn lemma_closes(nodes: Seq<Node>, rest: Seq<XmlToken>, level: nat)
    requires
        tree::is_tree(nodes),
    ensures
        fault_laws::closes(tree::events_of(nodes) + rest, level) == fault_laws::closes(rest, level),
    decreases nodes,
{
    let events = tree::events_of(nodes);
    if nodes.len() == 0 {
        assert(events + rest =~= rest);
    } else {
        let more = tree::events_of(nodes.drop_first());
        lemma_closes(nodes.drop_first(), rest, level);
        match nodes[0] {
            Node::Piece(token) => {
                assert((events + rest)[0] == token);
                assert((events + rest).drop_first() =~= more + rest);
            },
            Node::Element(name, attributes, inside) => {
                let after = seq![XmlToken::End(name)] + (more + rest);
                assert((events + rest)[0] == XmlToken::Start(name, attributes));
                assert((events + rest).drop_first() =~= tree::events_of(inside) + after);
                lemma_closes(inside, after, level + 1);
                assert(after[0] == XmlToken::End(name));
                assert(after.drop_first() =~= more + rest);
            },
            Node::Empty(name, attributes) => {
                assert((events + rest)[0] == XmlToken::Empty(name, attributes));
                assert((events + rest).drop_first() =~= more + rest);
            },
        }
    }
}

/// What a scan learns from the elements of a fault.
proof fn lemma_nodes(scan: Scan, nodes: Seq<Node>)
    requires
        is_inside(scan, scan.path.last()),
        fault::slot_of(scan.path) is Nowhere,
        tree::is_tree(nodes),
        parts_apart(nodes, scan.path.last()),
    ensures
        fault_laws::runs_through(scan, tree::events_of(nodes)),
        ({
            let after = fault_laws::scan_from(scan, tree::events_of(nodes));
            let parent = scan.path.last();
            &&& is_inside(after, parent)
            &&& after.path == scan.path
            &&& after.fault_depth == scan.fault_depth
            &&& known(after) == all_learned(known(scan), told(nodes, parent))
            &&& after.fault.detail == last_or(details_told(nodes, parent), scan.fault.detail)
        }),
    decreases nodes,
{
    let parent = scan.path.last();
    if nodes.len() > 0 {
        let tail = nodes.drop_first();
        let more = tree::events_of(tail);
        match nodes[0] {
            Node::Piece(token) => {
                fault_laws::lemma_one(scan, token);
                fault_laws::lemma_one_after_the_other(scan, seq![token], more);
                lemma_nodes(fault::past(scan, token), tail);
            },
            Node::Element(name, attributes, inside) => {
                let local = xml_events::local_part(name);
                let events = seq![XmlToken::Start(name, attributes)] + tree::events_of(inside)
                    + seq![XmlToken::End(name)];
                let after = fault_laws::scan_from(scan, events);
                fault_laws::lemma_one_after_the_other(scan, events, more);
                lemma_slot(scan.path, local);
                if names_details(local) {
                    let details = Details { name, attributes, inside: tree::events_of(inside) };
                    lemma_closes(inside, Seq::empty(), 0);
                    assert(tree::events_of(inside) + Seq::<XmlToken>::empty() =~= tree::events_of(
                        inside,
                    ));
                    tree::law_all_text_is_among_the_events(inside);
                    fault_laws::law_detail_is_all_text_inside(scan, details);
                    assert(details.events() == events);
                    lemma_nodes(after, tail);
                } else if part_of(local, parent) is Some {
                    let part = part_of(local, parent)->0;
                    let own = tree::own_text(inside);
                    lemma_part(scan, name, attributes, inside, part);
                    lemma_nodes(after, tail);
                    lemma_one_learned(
                        known(scan),
                        part,
                        text::trimmed(own),
                        told(tail, parent),
                    );
                } else {
                    let opened = fault::past_start(scan, local);
                    assert(opened.path.last() == local);
                    lemma_nodes(opened, inside);
                    lemma_element(scan, name, attributes, tree::events_of(inside));
                    assert(after.path =~= scan.path);
                    lemma_nodes(after, tail);
                    lemma_all_learned(known(scan), told(inside, local), told(tail, parent));
                }
            },
            Node::Empty(name, attributes) => {
                let token = XmlToken::Empty(name, attributes);
                let after = fault::past(scan, token);
                text::lemma_empty_is_blank();
                assert(after.path =~= scan.path);
                fault_laws::lemma_one(scan, token);
                fault_laws::lemma_one_after_the_other(scan, seq![token], more);
                lemma_nodes(after, tail);
            },
        }
    }
}

/// What is known of a fault before any of its parts.
spec fn nothing_known() -> Known {
    Known {
        code: Seq::empty(),
        code_taken: false,
        reason: Seq::empty(),
        node: None,
        role: None,
        subcodes: Seq::empty(),
    }
}

proof fn lemma_learned(parts: Seq<(Part, Seq<char>)>)
    ensures
        ({
            let k = all_learned(nothing_known(), parts);
            &&& k.code == text::or_empty(last_of(codes_in(parts)))
            &&& k.code_taken == (texts_for(parts, Part::CodeValue).len() > 0)
            &&& k.reason == text::or_empty(last_of(texts_for(parts, Part::Reason)))
            &&& k.node == last_of(texts_for(parts, Part::Node))
            &&& k.role == last_of(texts_for(parts, Part::Role))
            &&& k.subcodes == texts_for(parts, Part::SubcodeValue)
        }),
    decreases parts.len(),
{
    if parts.len() > 0 {
        let fewer = parts.drop_last();
        lemma_learned(fewer);
        lemma_all_learned(nothing_known(), fewer, seq![parts.last()]);
        assert(fewer + seq![parts.last()] =~= parts);
        let k = all_learned(nothing_known(), fewer);
        lemma_one_learned(k, parts.last().0, parts.last().1, Seq::empty());
        assert(seq![(parts.last().0, parts.last().1)] + Seq::<(Part, Seq<char>)>::empty()
            =~= seq![parts.last()]);
    }
}

proof fn lemma_codes(parts: Seq<(Part, Seq<char>)>)
    ensures
        texts_for(parts, Part::CodeValue).len() == 0 ==> codes_in(parts) == texts_for(
            parts,
            Part::FaultCode,
        ),
        texts_for(parts, Part::FaultCode).len() == 0 ==> codes_in(parts) == texts_for(
            parts,
            Part::CodeValue,
        ).take(
            if texts_for(parts, Part::CodeValue).len() > 0 {
                1
            } else {
                0
            },
        ),
    decreases parts.len(),
{
    if parts.len() == 0 {
        assert(Seq::<Seq<char>>::empty().take(0) =~= Seq::empty());
    } else {
        let fewer = parts.drop_last();
        lemma_codes(fewer);
        let values = texts_for(fewer, Part::CodeValue);
        let last = parts.last().1;
        assert(values.len() > 0 ==> values.push(last).take(1) =~= values.take(1));
        assert(values.len() == 0 ==> values.push(last).take(1) =~= values.take(0).push(last));
    }
}

proof fn lemma_led_up(scan: Scan, lead: Seq<XmlToken>)
    requires
        scan.fault_depth is None,
        leads_up(lead),
    ensures
        fault_laws::runs_through(scan, lead),
        fault_laws::scan_from(scan, lead).fault_depth is None,
    decreases lead.len(),
{
    if lead.len() > 0 {
        let tail = lead.drop_first();
        assert(!(lead[0] is Eof) && !(lead[0] is Malformed) && !fault_laws::opens_fault(lead[0]));
        assert forall|i: int| 0 <= i < tail.len() implies !(#[trigger] tail[i] is Eof) && !(tail[i]
            is Malformed) && !fault_laws::opens_fault(tail[i]) by {
            assert(tail[i] == lead[i + 1]);
        }
        lemma_led_up(fault::past(scan, lead[0]), tail);
    }
}

/// The first fault of a document is what its elements say. The reason is the
/// text of the last `faultstring` or `Reason/Text`; the code is that of the last
/// `faultcode` or of the first `Code/Value`; the node, the role and the detail
/// are those of the last element of theirs, and there is none without one; each
/// `Subcode/Value` gives a subcode. Elements whose text is blank count for
/// nothing, and what is inside the details for no other part. Whichever of the
/// elements there are, and whatever else there is, has no part in it.
pub proof fn law_fault_is_what_its_elements_say(
    lead: Seq<XmlToken>,
    name: Seq<char>,
    attributes: Attrs,
    inside: Seq<Node>,
    rest: Seq<XmlToken>,
)
    requires
        leads_up(lead),
        xml_events::local_part(name) == "Fault"@,
        tree::is_tree(inside),
        parts_apart(inside, "Fault"@),
    ensures
        ({
            let events = lead + seq![XmlToken::Start(name, attributes)] + tree::events_of(inside)
                + seq![XmlToken::End(name)] + rest;
            let parts = told(inside, "Fault"@);
            fault::fault_of(events) matches Some(fault) && {
                &&& fault.reason == text::or_empty(last_of(texts_for(parts, Part::Reason)))
                &&& fault.code == text::or_empty(last_of(codes_in(parts)))
                &&& fault.node == last_of(texts_for(parts, Part::Node))
                &&& fault.role == last_of(texts_for(parts, Part::Role))
                &&& fault.subcodes == texts_for(parts, Part::SubcodeValue)
                &&& fault.detail == last_of(details_told(inside, "Fault"@))
            }
        }),
{
    let open = seq![XmlToken::Start(name, attributes)];
    let content = tree::events_of(inside);
    lemma_in_the_fault(lead, name, attributes, inside);
    let whole = lead + open + content;
    fault_laws::law_nothing_after_the_fault_matters(whole, XmlToken::End(name), rest);
    assert(whole.push(XmlToken::End(name)) + rest =~= whole + seq![XmlToken::End(name)] + rest);
    lemma_learned(told(inside, "Fault"@));
}

/// With one kind of code alone, the code is the last `faultcode`, or the first
/// `Code/Value`.
pub proof fn law_one_kind_of_code(parts: Seq<(Part, Seq<char>)>)
    ensures
        texts_for(parts, Part::CodeValue).len() == 0 ==> last_of(codes_in(parts)) == last_of(
            texts_for(parts, Part::FaultCode),
        ),
        texts_for(parts, Part::FaultCode).len() == 0 && texts_for(parts, Part::CodeValue).len() > 0
            ==> last_of(codes_in(parts)) == Some(texts_for(parts, Part::CodeValue)[0]),
{
    lemma_codes(parts);
}

/// `token` opens the details of a fault.
pub open spec fn opens_details(token: XmlToken) -> bool {
    match token {
        XmlToken::Start(name, _) => names_details(xml_events::local_part(name)),
        XmlToken::Empty(name, _) => names_details(xml_events::local_part(name)),
        _ => false,
    }
}

proof fn lemma_one_more_end_tag(scan: Scan, events: Seq<XmlToken>, name: Seq<char>)
    requires
        scan.detail_depth is None,
        forall|i: int|
            0 <= i < events.len() ==> !(#[trigger] events[i] is Eof) && !opens_details(events[i]),
    ensures
        fault::found_in(scan, events.push(XmlToken::End(name))) == fault::found_in(scan, events),
    decreases events.len(),
{
    let longer = events.push(XmlToken::End(name));
    if events.len() == 0 {
        assert(longer[0] == XmlToken::End(name));
        assert(longer.drop_first() =~= events);
        assert(fault::found_in(fault::past_end(scan), events) == fault::found(
            fault::past_end(scan),
        ));
    } else {
        let tail = events.drop_first();
        assert(!(events[0] is Eof) && !opens_details(events[0]));
        assert(longer[0] == events[0]);
        assert(longer.drop_first() =~= tail.push(XmlToken::End(name)));
        assert forall|i: int| 0 <= i < tail.len() implies !(#[trigger] tail[i] is Eof)
            && !opens_details(tail[i]) by {
            assert(tail[i] == events[i + 1]);
        }
        lemma_one_more_end_tag(fault::past(scan, events[0]), tail, name);
    }
}

/// In a document without details, an end tag that is missing at the end does not
/// matter: what was read by then is the fault. So a fault that is cut off within
/// a text has that text as far as it goes.
pub proof fn law_missing_end_tags_do_not_matter(events: Seq<XmlToken>, name: Seq<char>)
    requires
        forall|i: int|
            0 <= i < events.len() ==> !(#[trigger] events[i] is Eof) && !opens_details(events[i]),
    ensures
        fault::fault_of(events.push(XmlToken::End(name))) == fault::fault_of(events),
{
    lemma_one_more_end_tag(fault::scan_start(), events, name);
}

/// Details that are cut off by the end of the document count for nothing: the
/// fault is what it was before them.
pub proof fn law_details_that_are_cut_off_count_for_nothing(
    lead: Seq<XmlToken>,
    name: Seq<char>,
    attributes: Attrs,
    inside: Seq<Node>,
    details: Seq<char>,
    more: Seq<Node>,
)
    requires
        leads_up(lead),
        xml_events::local_part(name) == "Fault"@,
        tree::is_tree(inside),
        parts_apart(inside, "Fault"@),
        names_details(xml_events::local_part(details)),
        tree::is_tree(more),
    ensures
        ({
            let before = lead + seq![XmlToken::Start(name, attributes)] + tree::events_of(inside);
            fault::fault_of(
                before + seq![XmlToken::Start(details, attributes)] + tree::events_of(more),
            ) == fault::fault_of(before)
        }),
{
    let start = fault::scan_start();
    let before = lead + seq![XmlToken::Start(name, attributes)] + tree::events_of(inside);
    let s2 = lemma_in_the_fault(lead, name, attributes, inside);
    let open = seq![XmlToken::Start(details, attributes)];
    fault_laws::lemma_one(s2, open[0]);
    fault_laws::lemma_one_after_the_other(start, before, open);
    let s3 = fault::past_start(s2, xml_events::local_part(details));
    lemma_closes(more, Seq::empty(), 0);
    assert(tree::events_of(more) + Seq::<XmlToken>::empty() =~= tree::events_of(more));
    fault_laws::lemma_inside_details(s3, tree::events_of(more), s3.path.len(), 0);
    fault_laws::lemma_one_after_the_other(start, before + open, tree::events_of(more));
    let all = before + open + tree::events_of(more);
    fault_laws::law_cut_off_fault_is_what_was_read(all, Seq::empty());
    fault_laws::law_cut_off_fault_is_what_was_read(before, Seq::empty());
    assert(all + Seq::<XmlToken>::empty() =~= all);
    assert(before + Seq::<XmlToken>::empty() =~= before);
}

/// The scan past the elements of a fault that is still open.
proof fn lemma_in_the_fault(
    lead: Seq<XmlToken>,
    name: Seq<char>,
    attributes: Attrs,
    inside: Seq<Node>,
) -> (scan: Scan)
    requires
        leads_up(lead),
        xml_events::local_part(name) == "Fault"@,
        tree::is_tree(inside),
        parts_apart(inside, "Fault"@),
    ensures
        ({
            let events = lead + seq![XmlToken::Start(name, attributes)] + tree::events_of(inside);
            &&& scan == fault_laws::scan_of(events)
            &&& fault_laws::runs_through(fault::scan_start(), events)
            &&& is_inside(scan, "Fault"@)
            &&& scan.fault_depth == Some(scan.path.len())
            &&& known(scan) == all_learned(nothing_known(), told(inside, "Fault"@))
            &&& scan.fault.detail == last_of(details_told(inside, "Fault"@))
        }),
{
    fault_laws::lemma_names();
    let start = fault::scan_start();
    let open = seq![XmlToken::Start(name, attributes)];
    let content = tree::events_of(inside);
    let s0 = fault_laws::scan_of(lead);
    lemma_led_up(start, lead);
    fault_laws::lemma_blank_until_met(start, lead);
    fault_laws::lemma_one_text_each(start, lead);
    let s1 = fault::past_start(s0, "Fault"@);
    fault_laws::lemma_one(s0, open[0]);
    fault_laws::lemma_one_after_the_other(start, lead, open);
    assert(s1.path.last() == "Fault"@);
    assert(fault::slot_of(s1.path) is Nowhere) by {
        assert(fault::enclosing(s1.path, 0) == "Fault"@);
    }
    lemma_nodes(s1, inside);
    fault_laws::lemma_one_after_the_other(start, lead + open, content);
    assert(known(s1) == nothing_known());
    fault_laws::scan_of(lead + open + content)
}

/// Nothing after the end of a document has a part in its fault, and the end
/// itself has none.
pub proof fn law_nothing_after_the_end_matters(events: Seq<XmlToken>, rest: Seq<XmlToken>)
    ensures
        fault::fault_of(events.push(XmlToken::Eof) + rest) == fault::fault_of(events),
{
    lemma_nothing_after_the_end(fault::scan_start(), events, rest);
}

proof fn lemma_nothing_after_the_end(scan: Scan, events: Seq<XmlToken>, rest: Seq<XmlToken>)
    ensures
        fault::found_in(scan, events.push(XmlToken::Eof) + rest) == fault::found_in(scan, events),
    decreases events.len(),
{
    let longer = events.push(XmlToken::Eof) + rest;
    if events.len() == 0 {
        assert(longer[0] == XmlToken::Eof);
    } else {
        assert(longer[0] == events[0]);
        assert(longer.drop_first() =~= events.drop_first().push(XmlToken::Eof) + rest);
        lemma_nothing_after_the_end(
            fault::past(scan, events[0]),
            events.drop_first(),
            rest,
        );
    }
}

} // verus!
