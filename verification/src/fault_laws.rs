//! What holds of scanning a response for a fault.

use crate::fault;
use crate::fault::{Fault, Scan};
use crate::text;
use crate::xml_events;
use crate::xml_events::{Attrs, XmlToken};
use vstd::prelude::*;
use vstd::string::*;

verus! {

/// `token` opens an element with the local name `Fault`.
pub open spec fn opens_fault(token: XmlToken) -> bool {
    match token {
        XmlToken::Start(name, _) => xml_events::local_part(name) == "Fault"@,
        XmlToken::Empty(name, _) => xml_events::local_part(name) == "Fault"@,
        _ => false,
    }
}

/// `token` closes an element with the local name `Fault`.
pub open spec fn closes_fault(token: XmlToken) -> bool {
    match token {
        XmlToken::End(name) => xml_events::local_part(name) == "Fault"@,
        XmlToken::Empty(name, _) => xml_events::local_part(name) == "Fault"@,
        _ => false,
    }
}

/// A document that can be read to its end.
pub open spec fn readable(events: Seq<XmlToken>) -> bool {
    forall|i: int| 0 <= i < events.len() ==> !(#[trigger] events[i] is Malformed) && (i
        < events.len() - 1 ==> !(events[i] is Eof))
}

proof fn lemma_readable_tail(events: Seq<XmlToken>)
    requires
        readable(events),
        events.len() > 0,
    ensures
        readable(events.drop_first()),
{
    let tail = events.drop_first();
    assert forall|i: int| 0 <= i < tail.len() implies !(#[trigger] tail[i] is Malformed) && (i
        < tail.len() - 1 ==> !(tail[i] is Eof)) by {
        assert(tail[i] == events[i + 1]);
    }
}

proof fn lemma_found_once_met(scan: Scan, rest: Seq<XmlToken>)
    requires
        readable(rest),
        scan.fault_depth is Some,
    ensures
        fault::found_in(scan, rest) is Some,
    decreases rest.len(),
{
    if rest.len() > 0 && !(rest[0] is Eof) {
        lemma_readable_tail(rest);
        lemma_found_once_met(fault::past(scan, rest[0]), rest.drop_first());
    }
}

proof fn lemma_found_where_opened(scan: Scan, rest: Seq<XmlToken>, at: int)
    requires
        readable(rest),
        scan.fault_depth is None,
        0 <= at < rest.len(),
        opens_fault(rest[at]),
    ensures
        fault::found_in(scan, rest) is Some,
    decreases rest.len(),
{
    lemma_readable_tail(rest);
    let next = fault::past(scan, rest[0]);
    if next.fault_depth is Some {
        lemma_found_once_met(next, rest.drop_first());
    } else {
        assert(rest.drop_first()[at - 1] == rest[at]);
        lemma_found_where_opened(next, rest.drop_first(), at - 1);
    }
}

proof fn lemma_nothing_to_find(scan: Scan, rest: Seq<XmlToken>)
    requires
        scan.fault_depth is None,
        forall|i: int| 0 <= i < rest.len() ==> !opens_fault(#[trigger] rest[i]),
    ensures
        fault::found_in(scan, rest) is None,
    decreases rest.len(),
{
    if rest.len() > 0 {
        assert(!opens_fault(rest[0]));
        let tail = rest.drop_first();
        assert forall|i: int| 0 <= i < tail.len() implies !opens_fault(#[trigger] tail[i]) by {
            assert(tail[i] == rest[i + 1]);
        }
        lemma_nothing_to_find(fault::past(scan, rest[0]), tail);
    }
}

/// A document that can be read to its end has a fault if and only if it has
/// an element with the local name `Fault`, whatever the prefix of its name and
/// wherever it stands.
pub proof fn law_fault_iff_fault_element(events: Seq<XmlToken>)
    requires
        readable(events),
    ensures
        fault::fault_of(events) is Some <==> exists|i: int|
            0 <= i < events.len() && opens_fault(#[trigger] events[i]),
{
    if exists|i: int| 0 <= i < events.len() && opens_fault(#[trigger] events[i]) {
        let at = choose|i: int| 0 <= i < events.len() && opens_fault(#[trigger] events[i]);
        lemma_found_where_opened(fault::scan_start(), events, at);
    } else {
        lemma_nothing_to_find(fault::scan_start(), events);
    }
}

/// A document without an element of the local name `Fault` has no fault,
/// whether it can be read to its end or not.
pub proof fn law_no_fault_element_no_fault(events: Seq<XmlToken>)
    requires
        forall|i: int| 0 <= i < events.len() ==> !opens_fault(#[trigger] events[i]),
    ensures
        fault::fault_of(events) is None,
{
    lemma_nothing_to_find(fault::scan_start(), events);
}

proof fn lemma_unreadable(scan: Scan, rest: Seq<XmlToken>, at: int)
    requires
        0 <= at < rest.len(),
        rest[at] is Malformed,
        forall|i: int|
            0 <= i < at ==> !(#[trigger] rest[i] is Eof) && !closes_fault(rest[i]),
    ensures
        fault::found_in(scan, rest) is None,
    decreases rest.len(),
{
    if at > 0 {
        assert(!(rest[0] is Eof) && !closes_fault(rest[0]));
        let tail = rest.drop_first();
        assert forall|i: int| 0 <= i < at - 1 implies !(#[trigger] tail[i] is Eof) && !closes_fault(
            tail[i],
        ) by {
            assert(tail[i] == rest[i + 1]);
        }
        assert(tail[at - 1] == rest[at]);
        if !(rest[0] is Malformed) {
            lemma_unreadable(fault::past(scan, rest[0]), tail, at - 1);
        }
    }
}

/// A document that cannot be read on before a `Fault` element was closed has
/// no fault.
pub proof fn law_unreadable_no_fault(events: Seq<XmlToken>, at: int)
    requires
        0 <= at < events.len(),
        events[at] is Malformed,
        forall|i: int|
            0 <= i < at ==> !(#[trigger] events[i] is Eof) && !closes_fault(events[i]),
    ensures
        fault::fault_of(events) is None,
{
    lemma_unreadable(fault::scan_start(), events, at);
}

/// `a` and `b` differ in prefixes and attributes at most.
pub open spec fn alike(a: XmlToken, b: XmlToken) -> bool {
    match (a, b) {
        (XmlToken::Start(m, _), XmlToken::Start(n, _)) => xml_events::local_part(m)
            == xml_events::local_part(n),
        (XmlToken::Empty(m, _), XmlToken::Empty(n, _)) => xml_events::local_part(m)
            == xml_events::local_part(n),
        (XmlToken::End(m), XmlToken::End(n)) => xml_events::local_part(m) == xml_events::local_part(
            n,
        ),
        _ => a == b,
    }
}

proof fn lemma_alike(scan: Scan, a: Seq<XmlToken>, b: Seq<XmlToken>)
    requires
        a.len() == b.len(),
        forall|i: int| #![trigger a[i]] #![trigger b[i]] 0 <= i < a.len() ==> alike(a[i], b[i]),
    ensures
        fault::found_in(scan, a) == fault::found_in(scan, b),
    decreases a.len(),
{
    if a.len() > 0 {
        assert(alike(a[0], b[0]));
        assert forall|i: int|
            #![trigger a.drop_first()[i]]
            #![trigger b.drop_first()[i]]
            0 <= i < a.len() - 1 implies alike(a.drop_first()[i], b.drop_first()[i]) by {
            assert(alike(a[i + 1], b[i + 1]));
        }
        lemma_alike(fault::past(scan, a[0]), a.drop_first(), b.drop_first());
    }
}

/// Neither the prefixes of element names nor attributes have a part in the
/// fault that is found.
pub proof fn law_prefixes_do_not_matter(a: Seq<XmlToken>, b: Seq<XmlToken>)
    requires
        a.len() == b.len(),
        forall|i: int| #![trigger a[i]] #![trigger b[i]] 0 <= i < a.len() ==> alike(a[i], b[i]),
    ensures
        fault::fault_of(a) == fault::fault_of(b),
{
    lemma_alike(fault::scan_start(), a, b);
}

/// A self-closing element is one with a start tag and an end tag.
pub proof fn law_self_closing_is_start_and_end(
    scan: Scan,
    name: Seq<char>,
    attributes: Attrs,
    rest: Seq<XmlToken>,
)
    ensures
        fault::found_in(scan, seq![XmlToken::Empty(name, attributes)] + rest) == fault::found_in(
            scan,
            seq![XmlToken::Start(name, attributes), XmlToken::End(name)] + rest,
        ),
{
    let one = seq![XmlToken::Empty(name, attributes)] + rest;
    let two = seq![XmlToken::Start(name, attributes), XmlToken::End(name)] + rest;
    assert(one[0] == XmlToken::Empty(name, attributes));
    assert(one.drop_first() =~= rest);
    assert(two[0] == XmlToken::Start(name, attributes));
    assert(two.drop_first()[0] == XmlToken::End(name));
    assert(two.drop_first().drop_first() =~= rest);
    reveal_with_fuel(fault::found_in, 3);
}

/// What follows the end of the first `Fault` element has no part in the fault
/// that is found.
pub proof fn law_nothing_after_the_fault_matters(
    inside: Seq<XmlToken>,
    end: XmlToken,
    rest: Seq<XmlToken>,
)
    requires
        fault::ends_fault(scan_of(inside), end),
        runs_through(fault::scan_start(), inside),
    ensures
        fault::fault_of(inside.push(end) + rest) == fault::found(fault::past(scan_of(inside), end)),
{
    lemma_runs_through(fault::scan_start(), inside, seq![end] + rest);
    assert(inside.push(end) + rest =~= inside + (seq![end] + rest));
    assert((seq![end] + rest)[0] == end);
}

/// The scan past all of `events`.
pub open spec fn scan_from(scan: Scan, events: Seq<XmlToken>) -> Scan
    decreases events.len(),
{
    if events.len() == 0 {
        scan
    } else {
        scan_from(fault::past(scan, events[0]), events.drop_first())
    }
}

/// The scan past all of `events`.
pub open spec fn scan_of(events: Seq<XmlToken>) -> Scan {
    scan_from(fault::scan_start(), events)
}

/// A scan goes through all of `events` without coming to an end.
pub open spec fn runs_through(scan: Scan, events: Seq<XmlToken>) -> bool
    decreases events.len(),
{
    events.len() > 0 ==> {
        &&& !(events[0] is Eof) && !(events[0] is Malformed) && !fault::ends_fault(scan, events[0])
        &&& runs_through(fault::past(scan, events[0]), events.drop_first())
    }
}

proof fn lemma_runs_through(scan: Scan, events: Seq<XmlToken>, rest: Seq<XmlToken>)
    requires
        runs_through(scan, events),
    ensures
        fault::found_in(scan, events + rest) == fault::found_in(scan_from(scan, events), rest),
    decreases events.len(),
{
    if events.len() == 0 {
        assert(events + rest =~= rest);
    } else {
        assert((events + rest)[0] == events[0]);
        assert((events + rest).drop_first() =~= events.drop_first() + rest);
        lemma_runs_through(fault::past(scan, events[0]), events.drop_first(), rest);
    }
}

/// In a document that ends before its fault does, the fault is what was read
/// of it by then.
pub proof fn law_cut_off_fault_is_what_was_read(events: Seq<XmlToken>, rest: Seq<XmlToken>)
    requires
        runs_through(fault::scan_start(), events),
        rest.len() == 0 || rest[0] is Eof,
    ensures
        fault::fault_of(events + rest) == fault::found(scan_of(events)),
{
    lemma_runs_through(fault::scan_start(), events, rest);
}

pub(crate) proof fn lemma_one_after_the_other(scan: Scan, a: Seq<XmlToken>, b: Seq<XmlToken>)
    ensures
        scan_from(scan, a + b) == scan_from(scan_from(scan, a), b),
        runs_through(scan, a + b) == (runs_through(scan, a) && runs_through(scan_from(scan, a), b)),
    decreases a.len(),
{
    if a.len() == 0 {
        assert(a + b =~= b);
    } else {
        assert((a + b)[0] == a[0]);
        assert((a + b).drop_first() =~= a.drop_first() + b);
        lemma_one_after_the_other(fault::past(scan, a[0]), a.drop_first(), b);
    }
}

pub(crate) proof fn lemma_blank_until_met(scan: Scan, events: Seq<XmlToken>)
    requires
        scan.fault_depth is None,
        scan.detail_depth is None,
        scan_from(scan, events).fault_depth is None,
    ensures
        scan_from(scan, events) == (Scan {
            path: scan_from(scan, events).path,
            texts: scan_from(scan, events).texts,
            taken: scan_from(scan, events).taken,
            ..scan
        }),
    decreases events.len(),
{
    if events.len() > 0 {
        let next = fault::past(scan, events[0]);
        if next.fault_depth is None {
            lemma_blank_until_met(next, events.drop_first());
        } else {
            lemma_once_met(next, events.drop_first());
        }
    }
}

proof fn lemma_once_met(scan: Scan, events: Seq<XmlToken>)
    requires
        scan.fault_depth is Some,
    ensures
        scan_from(scan, events).fault_depth == scan.fault_depth,
    decreases events.len(),
{
    if events.len() > 0 {
        lemma_once_met(fault::past(scan, events[0]), events.drop_first());
    }
}

/// There is a text and a place for each open element.
pub(crate) proof fn lemma_one_text_each(scan: Scan, events: Seq<XmlToken>)
    requires
        scan.texts.len() == scan.path.len(),
        scan.taken.len() == scan.path.len(),
    ensures
        scan_from(scan, events).texts.len() == scan_from(scan, events).path.len(),
        scan_from(scan, events).taken.len() == scan_from(scan, events).path.len(),
    decreases events.len(),
{
    if events.len() > 0 {
        lemma_one_text_each(fault::past(scan, events[0]), events.drop_first());
    }
}

/// A self-closing `Fault` is a fault that tells nothing.
pub proof fn law_self_closing_fault_is_blank(
    lead: Seq<XmlToken>,
    name: Seq<char>,
    attributes: Attrs,
    rest: Seq<XmlToken>,
)
    requires
        runs_through(fault::scan_start(), lead),
        scan_of(lead).fault_depth is None,
        xml_events::local_part(name) == "Fault"@,
    ensures
        fault::fault_of(lead.push(XmlToken::Empty(name, attributes)) + rest) == Some(
            fault::blank_fault(),
        ),
{
    lemma_names();
    lemma_blank_until_met(fault::scan_start(), lead);
    law_nothing_after_the_fault_matters(lead, XmlToken::Empty(name, attributes), rest);
}

/// An element that holds text alone: its name, its attributes, and the pieces
/// of its text.
pub struct Leaf {
    pub name: Seq<char>,
    pub attributes: Attrs,
    pub pieces: Seq<XmlToken>,
}

impl Leaf {
    /// The events of the element.
    pub open spec fn events(self) -> Seq<XmlToken> {
        seq![XmlToken::Start(self.name, self.attributes)] + self.pieces + closing(self.name)
    }

    /// The element has this local name, and text other than white space.
    pub open spec fn named(self, local: Seq<char>) -> bool {
        &&& xml_events::local_part(self.name) == local
        &&& xml_events::within_one_element(self.pieces)
        &&& !text::is_blank(xml_events::text_among(self.pieces))
    }

    /// The text, its pieces joined, without the white space around it.
    pub open spec fn value(self) -> Seq<char> {
        text::trimmed(xml_events::text_among(self.pieces))
    }
}

proof fn lemma_fewer_pieces(pieces: Seq<XmlToken>)
    requires
        xml_events::within_one_element(pieces),
        pieces.len() > 0,
    ensures
        xml_events::within_one_element(pieces.drop_first()),
{
    let fewer = pieces.drop_first();
    assert forall|i: int| 0 <= i < fewer.len() implies xml_events::character_data(
        #[trigger] fewer[i],
    ) is Some || fewer[i] is Other by {
        assert(fewer[i] == pieces[i + 1]);
    }
}

/// A text that is put where another of the same element was replaces it.
proof fn lemma_replaced(scan: Scan, first: Seq<char>, second: Seq<char>)
    requires
        scan.taken.len() > 0,
    ensures
        fault::assigned(fault::assigned(scan, first), second) == fault::assigned(scan, second),
{
    let once = fault::assigned(scan, first);
    let twice = fault::assigned(once, second);
    let direct = fault::assigned(scan, second);
    assert(twice.fault.subcodes =~= direct.fault.subcodes);
    assert(twice.taken =~= direct.taken);
}

/// Two pieces of text are as good as both in one.
pub(crate) proof fn lemma_two_pieces(scan: Scan, first: Seq<char>, second: Seq<char>)
    requires
        scan.texts.len() > 0 ==> scan.taken.len() > 0,
    ensures
        fault::past_text(fault::past_text(scan, first), second) == fault::past_text(
            scan,
            first + second,
        ),
{
    text::lemma_blank_joined(first, second);
    assert((scan.detail_text + first) + second =~= scan.detail_text + (first + second));
    if scan.texts.len() > 0 {
        let last = scan.texts.last();
        let texts = fault::with_data(scan.texts, first);
        assert((last + first) + second =~= last + (first + second));
        assert(texts.drop_last() =~= scan.texts.drop_last());
        assert(fault::with_data(texts, second) == fault::with_data(scan.texts, first + second));
        if text::is_blank(second) {
            text::lemma_trimmed_of_blank_end(last + first, second);
        }
        let joined = Scan { texts: fault::with_data(scan.texts, first + second), ..scan };
        lemma_replaced(
            joined,
            text::trimmed(last + first),
            text::trimmed(last + (first + second)),
        );
    }
}

/// In however many pieces the text of an element comes, it is read as if it
/// came in one.
pub proof fn law_pieces_are_one_text(scan: Scan, pieces: Seq<XmlToken>)
    requires
        scan.texts.len() > 0 ==> scan.taken.len() > 0,
        xml_events::within_one_element(pieces),
    ensures
        runs_through(scan, pieces),
        scan_from(scan, pieces) == fault::past_text(scan, xml_events::text_among(pieces)),
    decreases pieces.len(),
{
    if pieces.len() == 0 {
        text::lemma_empty_is_blank();
        assert(scan.detail_text + Seq::<char>::empty() =~= scan.detail_text);
        if scan.texts.len() > 0 {
            assert(scan.texts.last() + Seq::<char>::empty() =~= scan.texts.last());
            assert(fault::with_data(scan.texts, Seq::empty()) =~= scan.texts);
        }
    } else {
        let piece = pieces[0];
        let data = text::or_empty(xml_events::character_data(piece));
        let more = xml_events::text_among(pieces.drop_first());
        lemma_fewer_pieces(pieces);
        assert(xml_events::character_data(piece) is Some || piece is Other);
        if piece is Other {
            assert(data + more =~= more);
        } else {
            lemma_two_pieces(scan, data, more);
        }
        law_pieces_are_one_text(fault::past(scan, piece), pieces.drop_first());
    }
}

/// An element that holds text alone, anywhere in a fault but in its details,
/// puts that text, its pieces joined, where its own name and that of its
/// parent say. The rest of the scan is as it was.
pub proof fn law_text_goes_to_its_slot(scan: Scan, leaf: Leaf)
    requires
        scan.fault_depth is Some,
        scan.detail_depth is None,
        !fault::is_detail(xml_events::local_part(leaf.name)),
        xml_events::local_part(leaf.name) != "Fault"@,
        leaf.named(xml_events::local_part(leaf.name)),
    ensures
        runs_through(scan, leaf.events()),
        scan_from(scan, leaf.events()) == (Scan {
            path: scan.path,
            taken: scan.taken,
            ..fault::assigned(
                Scan {
                    path: scan.path.push(xml_events::local_part(leaf.name)),
                    taken: scan.taken.push(None),
                    ..scan
                },
                leaf.value(),
            )
        }),
{
    let local = xml_events::local_part(leaf.name);
    let start = seq![XmlToken::Start(leaf.name, leaf.attributes)];
    let data = xml_events::text_among(leaf.pieces);
    let one = fault::past_start(scan, local);
    lemma_one(scan, start[0]);
    law_pieces_are_one_text(one, leaf.pieces);
    lemma_one_after_the_other(scan, start, leaf.pieces);
    let two = scan_from(one, leaf.pieces);
    assert(one.texts.last() + data =~= data);
    assert(two.texts =~= scan.texts.push(data));
    assert(two.taken.drop_last() =~= scan.taken);
    lemma_one(two, XmlToken::End(leaf.name));
    lemma_one_after_the_other(scan, start + leaf.pieces, closing(leaf.name));
    assert(two.path.drop_last() =~= scan.path);
    assert(two.texts.drop_last() =~= scan.texts);
}

/// One event that does not end the scan.
pub(crate) proof fn lemma_one(scan: Scan, token: XmlToken)
    ensures
        scan_from(scan, seq![token]) == fault::past(scan, token),
        runs_through(scan, seq![token]) == (!(token is Eof) && !(token is Malformed)
            && !fault::ends_fault(scan, token)),
{
    reveal_with_fuel(scan_from, 2);
    reveal_with_fuel(runs_through, 2);
}

/// `events` open and close elements in pairs, with `level` more to close.
pub open spec fn closes(events: Seq<XmlToken>, level: nat) -> bool
    decreases events.len(),
{
    if events.len() == 0 {
        level == 0
    } else {
        match events[0] {
            XmlToken::Start(_, _) => closes(events.drop_first(), level + 1),
            XmlToken::End(_) => level > 0 && closes(events.drop_first(), (level - 1) as nat),
            XmlToken::Eof => false,
            XmlToken::Malformed(_) => false,
            _ => closes(events.drop_first(), level),
        }
    }
}

pub(crate) proof fn lemma_inside_details(scan: Scan, events: Seq<XmlToken>, depth: nat, level: nat)
    requires
        closes(events, level),
        scan.detail_depth == Some(depth),
        scan.fault_depth is Some,
        scan.fault_depth->0 < depth,
        scan.path.len() == depth + level,
        scan.texts.len() == depth + level,
        scan.taken.len() == depth + level,
    ensures
        runs_through(scan, events),
        scan_from(scan, events) == (Scan {
            path: scan.path.take(depth as int),
            texts: scan.texts.take(depth as int),
            taken: scan.taken.take(depth as int),
            detail_text: scan.detail_text + xml_events::text_among(events),
            ..scan
        }),
    decreases events.len(),
{
    let d = depth as int;
    if events.len() == 0 {
        assert(scan.path.take(d) =~= scan.path);
        assert(scan.texts.take(d) =~= scan.texts);
        assert(scan.taken.take(d) =~= scan.taken);
        assert(scan.detail_text + Seq::<char>::empty() =~= scan.detail_text);
    } else {
        let next = fault::past(scan, events[0]);
        let tail = events.drop_first();
        let data = text::or_empty(xml_events::character_data(events[0]));
        assert(next.detail_text + xml_events::text_among(tail) =~= scan.detail_text
            + xml_events::text_among(events)) by {
            assert(next.detail_text =~= scan.detail_text + data);
        }
        match events[0] {
            XmlToken::Start(_, _) => {
                lemma_inside_details(next, tail, depth, level + 1);
            },
            XmlToken::End(_) => {
                lemma_inside_details(next, tail, depth, (level - 1) as nat);
            },
            XmlToken::Empty(_, _) => {
                assert(next.path =~= scan.path);
                assert(next.texts =~= scan.texts);
                assert(next.taken =~= scan.taken);
                lemma_inside_details(next, tail, depth, level);
            },
            _ => {
                lemma_inside_details(next, tail, depth, level);
            },
        }
        assert(next.path.take(d) =~= scan.path.take(d));
        assert(next.texts.take(d) =~= scan.texts.take(d));
        assert(next.taken.take(d) =~= scan.taken.take(d));
    }
}

/// The details of a fault: the name, the attributes, and all that stands
/// inside.
pub struct Details {
    pub name: Seq<char>,
    pub attributes: Attrs,
    pub inside: Seq<XmlToken>,
}

impl Details {
    /// The events of the element.
    pub open spec fn events(self) -> Seq<XmlToken> {
        seq![XmlToken::Start(self.name, self.attributes)] + self.inside + closing(self.name)
    }

    /// The element is that of the details, and elements inside it are closed
    /// inside it.
    pub open spec fn is_whole(self) -> bool {
        fault::is_detail(xml_events::local_part(self.name)) && closes(self.inside, 0)
    }

    /// All text inside, without its markup and the white space around it.
    pub open spec fn value(self) -> Seq<char> {
        text::trimmed(xml_events::text_among(self.inside))
    }
}

/// The detail of a fault is all text inside the element of the details, at any
/// depth and whatever the elements there are named. The rest of the scan is as
/// it was.
pub proof fn law_detail_is_all_text_inside(scan: Scan, details: Details)
    requires
        scan.fault_depth is Some,
        scan.fault_depth->0 <= scan.path.len(),
        scan.texts.len() == scan.path.len(),
        scan.taken.len() == scan.path.len(),
        scan.detail_depth is None,
        details.is_whole(),
    ensures
        runs_through(scan, details.events()),
        scan_from(scan, details.events()) == (Scan {
            fault: if text::is_blank(xml_events::text_among(details.inside)) {
                scan.fault
            } else {
                Fault { detail: Some(details.value()), ..scan.fault }
            },
            detail_text: Seq::empty(),
            ..scan
        }),
{
    lemma_names();
    let local = xml_events::local_part(details.name);
    let start = seq![XmlToken::Start(details.name, details.attributes)];
    let data = xml_events::text_among(details.inside);
    let one = fault::past_start(scan, local);
    let depth = one.path.len();
    lemma_one(scan, start[0]);
    lemma_inside_details(one, details.inside, depth, 0);
    lemma_one_after_the_other(scan, start, details.inside);
    let two = scan_from(one, details.inside);
    assert(one.path.take(depth as int) =~= one.path);
    assert(one.texts.take(depth as int) =~= one.texts);
    assert(one.taken.take(depth as int) =~= one.taken);
    assert(Seq::<char>::empty() + data =~= data);
    lemma_one(two, XmlToken::End(details.name));
    lemma_one_after_the_other(scan, start + details.inside, closing(details.name));
    assert(two.path.drop_last() =~= scan.path);
    assert(two.texts.drop_last() =~= scan.texts);
    assert(two.taken.drop_last() =~= scan.taken);
}

/// The names that tell the parts of a fault apart are different names.
pub(crate) proof fn lemma_names()
    ensures
        "faultcode"@.len() == 9,
        "faultstring"@.len() == 11,
        "faultactor"@.len() == 10,
        "detail"@.len() == 6,
        "Detail"@.len() == 6,
        "Reason"@.len() == 6,
        "Subcode"@.len() == 7,
        "Fault"@.len() == 5,
        "Value"@.len() == 5,
        "Code"@.len() == 4,
        "Text"@.len() == 4,
        "Node"@.len() == 4,
        "Role"@.len() == 4,
        "Fault"@ != "Value"@,
        "Reason"@ != "detail"@,
        "Reason"@ != "Detail"@,
        "Code"@ != "Node"@,
        "Code"@ != "Role"@,
        "Text"@ != "Node"@,
        "Text"@ != "Role"@,
        "Node"@ != "Role"@,
{
    reveal_strlit("faultcode");
    reveal_strlit("faultstring");
    reveal_strlit("faultactor");
    reveal_strlit("detail");
    reveal_strlit("Detail");
    reveal_strlit("Reason");
    reveal_strlit("Subcode");
    reveal_strlit("Fault");
    reveal_strlit("Value");
    reveal_strlit("Code");
    reveal_strlit("Text");
    reveal_strlit("Node");
    reveal_strlit("Role");
    assert("Fault"@[0] == 'F' && "Value"@[0] == 'V');
    assert("Reason"@[0] == 'R' && "detail"@[0] == 'd' && "Detail"@[0] == 'D');
    assert("Code"@[0] == 'C' && "Text"@[0] == 'T' && "Node"@[0] == 'N' && "Role"@[0] == 'R');
}

/// One start tag.
pub open spec fn opening(name: Seq<char>) -> Seq<XmlToken> {
    seq![XmlToken::Start(name, Ok(Seq::empty()))]
}

/// One end tag.
pub open spec fn closing(name: Seq<char>) -> Seq<XmlToken> {
    seq![XmlToken::End(name)]
}

/// `lead`, and a SOAP 1.1 fault with `gap` between its parts.
pub open spec fn soap_11_fault(
    lead: Seq<XmlToken>,
    name: Seq<char>,
    code: Leaf,
    reason: Leaf,
    actor: Leaf,
    details: Details,
    gap: Seq<XmlToken>,
) -> Seq<XmlToken> {
    lead + opening(name) + gap + code.events() + gap + reason.events() + gap + actor.events() + gap
        + details.events() + gap + closing(name)
}

/// How far a scan inside a fault has come, apart from what elements that are
/// still open hold.
struct Place {
    path: Seq<Seq<char>>,
    fault_depth: nat,
    fault: Fault,
    code_taken: bool,
}

/// `scan` has come to `place`, and is not inside the details.
spec fn at(scan: Scan, place: Place) -> bool {
    &&& scan.path == place.path
    &&& scan.texts.len() == scan.path.len()
    &&& scan.taken.len() == scan.path.len()
    &&& scan.fault_depth == Some(place.fault_depth)
    &&& scan.fault == place.fault
    &&& scan.code_taken == place.code_taken
    &&& scan.detail_depth is None
    &&& 0 < place.fault_depth <= scan.path.len()
}

/// `done` leads to `place`.
spec fn leads_to(done: Seq<XmlToken>, place: Place) -> bool {
    runs_through(fault::scan_start(), done) && at(scan_of(done), place)
}

/// Text between elements does not change where a scan has come to, where the
/// element that holds them has no text of its own.
proof fn lemma_gap(done: Seq<XmlToken>, more: Seq<XmlToken>, gap: Seq<XmlToken>, place: Place)
    requires
        runs_through(fault::scan_start(), done),
        runs_through(scan_of(done), more),
        at(scan_from(scan_of(done), more), place),
        fault::slot_of(place.path) is Nowhere,
        xml_events::within_one_element(gap),
    ensures
        leads_to(done + more + gap, place),
{
    let start = fault::scan_start();
    lemma_one_after_the_other(start, done, more);
    law_pieces_are_one_text(scan_of(done + more), gap);
    lemma_one_after_the_other(start, done + more, gap);
}

/// The start tag of an element other than the fault and its details.
proof fn lemma_opened(done: Seq<XmlToken>, name: Seq<char>, gap: Seq<XmlToken>, place: Place)
    requires
        leads_to(done, place),
        !fault::is_detail(xml_events::local_part(name)),
        fault::slot_of(place.path.push(xml_events::local_part(name))) is Nowhere,
        xml_events::within_one_element(gap),
    ensures
        leads_to(
            done + opening(name) + gap,
            Place { path: place.path.push(xml_events::local_part(name)), ..place },
        ),
{
    lemma_one(scan_of(done), opening(name)[0]);
    lemma_gap(
        done,
        opening(name),
        gap,
        Place { path: place.path.push(xml_events::local_part(name)), ..place },
    );
}

/// The end tag of an element inside the fault.
proof fn lemma_closed(done: Seq<XmlToken>, name: Seq<char>, gap: Seq<XmlToken>, place: Place)
    requires
        leads_to(done, place),
        place.path.len() > place.fault_depth,
        fault::slot_of(place.path.drop_last()) is Nowhere,
        xml_events::within_one_element(gap),
    ensures
        leads_to(done + closing(name) + gap, Place { path: place.path.drop_last(), ..place }),
{
    lemma_one(scan_of(done), closing(name)[0]);
    lemma_gap(done, closing(name), gap, Place { path: place.path.drop_last(), ..place });
}

/// An element that holds text alone.
proof fn lemma_leaf(done: Seq<XmlToken>, leaf: Leaf, gap: Seq<XmlToken>, place: Place, then: Place)
    requires
        leads_to(done, place),
        !fault::is_detail(xml_events::local_part(leaf.name)),
        xml_events::local_part(leaf.name) != "Fault"@,
        leaf.named(xml_events::local_part(leaf.name)),
        fault::slot_of(place.path) is Nowhere,
        xml_events::within_one_element(gap),
        then.path == place.path,
        then.fault_depth == place.fault_depth,
        ({
            let put = fault::assigned(
                Scan {
                    path: place.path.push(xml_events::local_part(leaf.name)),
                    taken: scan_of(done).taken.push(None),
                    ..scan_of(done)
                },
                leaf.value(),
            );
            then.fault == put.fault && then.code_taken == put.code_taken
        }),
    ensures
        leads_to(done + leaf.events() + gap, then),
{
    law_text_goes_to_its_slot(scan_of(done), leaf);
    lemma_gap(done, leaf.events(), gap, then);
}

/// The details of a fault.
proof fn lemma_details(done: Seq<XmlToken>, details: Details, gap: Seq<XmlToken>, place: Place)
    requires
        leads_to(done, place),
        details.is_whole(),
        !text::is_blank(xml_events::text_among(details.inside)),
        fault::slot_of(place.path) is Nowhere,
        xml_events::within_one_element(gap),
    ensures
        leads_to(
            done + details.events() + gap,
            Place {
                fault: Fault { detail: Some(details.value()), ..place.fault },
                ..place
            },
        ),
{
    law_detail_is_all_text_inside(scan_of(done), details);
    lemma_gap(
        done,
        details.events(),
        gap,
        Place { fault: Fault { detail: Some(details.value()), ..place.fault }, ..place },
    );
}

/// The start tag of a fault.
proof fn lemma_fault_opened(
    lead: Seq<XmlToken>,
    name: Seq<char>,
    gap: Seq<XmlToken>,
) -> (place: Place)
    requires
        runs_through(fault::scan_start(), lead),
        scan_of(lead).fault_depth is None,
        xml_events::local_part(name) == "Fault"@,
        xml_events::within_one_element(gap),
    ensures
        leads_to(lead + opening(name) + gap, place),
        place.path.len() == place.fault_depth,
        place.path.last() == "Fault"@,
        place.fault == fault::blank_fault(),
        !place.code_taken,
{
    lemma_names();
    lemma_blank_until_met(fault::scan_start(), lead);
    lemma_one_text_each(fault::scan_start(), lead);
    let s0 = scan_of(lead);
    let place = Place {
        path: s0.path.push("Fault"@),
        fault_depth: s0.path.len() + 1,
        fault: fault::blank_fault(),
        code_taken: false,
    };
    lemma_one(s0, opening(name)[0]);
    lemma_gap(lead, opening(name), gap, place);
    place
}

/// The end tag of a fault.
proof fn lemma_fault_closed(
    inside: Seq<XmlToken>,
    name: Seq<char>,
    rest: Seq<XmlToken>,
    place: Place,
)
    requires
        leads_to(inside, place),
        place.path.len() == place.fault_depth,
        place.path.last() == "Fault"@,
        xml_events::local_part(name) == "Fault"@,
    ensures
        fault::fault_of(inside + closing(name) + rest) == Some(place.fault),
{
    lemma_names();
    law_nothing_after_the_fault_matters(inside, XmlToken::End(name), rest);
    assert(inside.push(XmlToken::End(name)) =~= inside + closing(name));
}

/// A SOAP 1.1 fault, wherever in a document it comes, gives the fault with
/// its code, reason, actor and detail, each without the white space around
/// it. Text between its parts has no part in it.
pub proof fn law_soap_11_fault_is_read(
    lead: Seq<XmlToken>,
    name: Seq<char>,
    code: Leaf,
    reason: Leaf,
    actor: Leaf,
    details: Details,
    gap: Seq<XmlToken>,
    rest: Seq<XmlToken>,
)
    requires
        runs_through(fault::scan_start(), lead),
        scan_of(lead).fault_depth is None,
        xml_events::local_part(name) == "Fault"@,
        code.named("faultcode"@),
        reason.named("faultstring"@),
        actor.named("faultactor"@),
        details.is_whole(),
        !text::is_blank(xml_events::text_among(details.inside)),
        xml_events::within_one_element(gap),
    ensures
        fault::fault_of(
            soap_11_fault(lead, name, code, reason, actor, details, gap) + rest,
        ) == Some(
            Fault {
                code: code.value(),
                reason: reason.value(),
                node: Some(actor.value()),
                role: None,
                detail: Some(details.value()),
                subcodes: Seq::empty(),
            },
        ),
{
    lemma_names();
    let p1 = lemma_fault_opened(lead, name, gap);
    let e1 = lead + opening(name) + gap;

    let p2 = Place { fault: Fault { code: code.value(), ..p1.fault }, ..p1 };
    lemma_leaf(e1, code, gap, p1, p2);
    let e2 = e1 + code.events() + gap;

    let p3 = Place { fault: Fault { reason: reason.value(), ..p2.fault }, ..p2 };
    lemma_leaf(e2, reason, gap, p2, p3);
    let e3 = e2 + reason.events() + gap;

    let p4 = Place { fault: Fault { node: Some(actor.value()), ..p3.fault }, ..p3 };
    lemma_leaf(e3, actor, gap, p3, p4);
    let e4 = e3 + actor.events() + gap;

    lemma_details(e4, details, gap, p4);
    let p5 = Place { fault: Fault { detail: Some(details.value()), ..p4.fault }, ..p4 };
    lemma_fault_closed(e4 + details.events() + gap, name, rest, p5);
}

/// The names of the elements of a SOAP 1.2 fault that hold others.
pub struct Frames {
    pub fault: Seq<char>,
    pub code: Seq<char>,
    pub subcode: Seq<char>,
    pub reason: Seq<char>,
}

/// `lead`, and a SOAP 1.2 fault with `gap` between its tags and texts.
pub open spec fn soap_12_fault(
    lead: Seq<XmlToken>,
    names: Frames,
    code: Leaf,
    subcode: Leaf,
    reason: Leaf,
    node: Leaf,
    role: Leaf,
    details: Details,
    gap: Seq<XmlToken>,
) -> Seq<XmlToken> {
    lead + opening(names.fault) + gap + opening(names.code) + gap + code.events() + gap + opening(
        names.subcode,
    ) + gap + subcode.events() + gap + closing(names.subcode) + gap + closing(names.code) + gap
        + opening(names.reason) + gap + reason.events() + gap + closing(names.reason) + gap
        + node.events() + gap + role.events() + gap + details.events() + gap + closing(names.fault)
}

/// A SOAP 1.2 fault, wherever in a document it comes, gives the fault with
/// its code, subcode, reason, node, role and detail, each without the white
/// space around it. Text between its parts has no part in it.
pub proof fn law_soap_12_fault_is_read(
    lead: Seq<XmlToken>,
    names: Frames,
    code: Leaf,
    subcode: Leaf,
    reason: Leaf,
    node: Leaf,
    role: Leaf,
    details: Details,
    gap: Seq<XmlToken>,
    rest: Seq<XmlToken>,
)
    requires
        runs_through(fault::scan_start(), lead),
        scan_of(lead).fault_depth is None,
        xml_events::local_part(names.fault) == "Fault"@,
        xml_events::local_part(names.code) == "Code"@,
        xml_events::local_part(names.subcode) == "Subcode"@,
        xml_events::local_part(names.reason) == "Reason"@,
        code.named("Value"@),
        subcode.named("Value"@),
        reason.named("Text"@),
        node.named("Node"@),
        role.named("Role"@),
        details.is_whole(),
        !text::is_blank(xml_events::text_among(details.inside)),
        xml_events::within_one_element(gap),
    ensures
        fault::fault_of(
            soap_12_fault(lead, names, code, subcode, reason, node, role, details, gap) + rest,
        ) == Some(
            Fault {
                code: code.value(),
                reason: reason.value(),
                node: Some(node.value()),
                role: Some(role.value()),
                detail: Some(details.value()),
                subcodes: seq![subcode.value()],
            },
        ),
{
    lemma_names();
    let p1 = lemma_fault_opened(lead, names.fault, gap);
    let e1 = lead + opening(names.fault) + gap;

    lemma_opened(e1, names.code, gap, p1);
    let p2 = Place { path: p1.path.push("Code"@), ..p1 };
    let e2 = e1 + opening(names.code) + gap;

    let p3 = Place { fault: Fault { code: code.value(), ..p2.fault }, code_taken: true, ..p2 };
    lemma_leaf(e2, code, gap, p2, p3);
    let e3 = e2 + code.events() + gap;

    lemma_opened(e3, names.subcode, gap, p3);
    let p4 = Place { path: p3.path.push("Subcode"@), ..p3 };
    let e4 = e3 + opening(names.subcode) + gap;

    assert(p4.fault.subcodes.push(subcode.value()) =~= seq![subcode.value()]);
    let p5 = Place { fault: Fault { subcodes: seq![subcode.value()], ..p4.fault }, ..p4 };
    lemma_leaf(e4, subcode, gap, p4, p5);
    let e5 = e4 + subcode.events() + gap;

    lemma_closed(e5, names.subcode, gap, p5);
    let p6 = Place { path: p2.path, ..p5 };
    assert(p5.path.drop_last() =~= p6.path);
    let e6 = e5 + closing(names.subcode) + gap;

    lemma_closed(e6, names.code, gap, p6);
    let p7 = Place { path: p1.path, ..p6 };
    assert(p6.path.drop_last() =~= p7.path);
    let e7 = e6 + closing(names.code) + gap;

    lemma_opened(e7, names.reason, gap, p7);
    let p8 = Place { path: p7.path.push("Reason"@), ..p7 };
    let e8 = e7 + opening(names.reason) + gap;

    let p9 = Place { fault: Fault { reason: reason.value(), ..p8.fault }, ..p8 };
    lemma_leaf(e8, reason, gap, p8, p9);
    let e9 = e8 + reason.events() + gap;

    lemma_closed(e9, names.reason, gap, p9);
    let p10 = Place { path: p1.path, ..p9 };
    assert(p9.path.drop_last() =~= p10.path);
    let e10 = e9 + closing(names.reason) + gap;

    let p11 = Place { fault: Fault { node: Some(node.value()), ..p10.fault }, ..p10 };
    lemma_leaf(e10, node, gap, p10, p11);
    let e11 = e10 + node.events() + gap;

    let p12 = Place { fault: Fault { role: Some(role.value()), ..p11.fault }, ..p11 };
    lemma_leaf(e11, role, gap, p11, p12);
    let e12 = e11 + role.events() + gap;

    lemma_details(e12, details, gap, p12);
    let p13 = Place { fault: Fault { detail: Some(details.value()), ..p12.fault }, ..p12 };
    lemma_fault_closed(e12 + details.events() + gap, names.fault, rest, p13);
}

} // verus!
