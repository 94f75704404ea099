//! SOAP faults: what a fault is, and how a response is scanned for one.

use crate::text;
use crate::text::{part_after_last, part_before_first, same_text, to_ascii_lowercase, trim};
use crate::types::SoapVersion;
use crate::xml_events;
use crate::xml_events::{qname_local, read_events, text_of, XmlEvent, XmlToken};
use vstd::prelude::*;
use vstd::string::*;

verus! {

/// A SOAP fault. The fields are the same for SOAP 1.1 (`faultcode`,
/// `faultstring`, `faultactor`) and 1.2 (`Code/Value`, `Reason/Text`, `Node`,
/// `Role`, `Subcode`).
#[derive(Debug, Clone, PartialEq, Eq)]
pub struct SoapFault {
    /// `faultcode` in 1.1, the first `Code/Value` in 1.2, with its prefix.
    pub code: String,
    /// `faultstring` in 1.1, `Reason/Text` in 1.2.
    pub reason: String,
    /// `faultactor` in 1.1, `Node` in 1.2.
    pub node: Option<String>,
    /// `Role`, in 1.2 alone.
    pub role: Option<String>,
    /// The text inside `detail` or `Detail`, without its markup.
    pub detail: Option<String>,
    /// The chain of `Subcode/Value`, in 1.2 alone.
    pub subcodes: Vec<String>,
}

/// A [`SoapFault`] in terms of character sequences.
#[verifier::ext_equal]
pub struct Fault {
    pub code: Seq<char>,
    pub reason: Seq<char>,
    pub node: Option<Seq<char>>,
    pub role: Option<Seq<char>>,
    pub detail: Option<Seq<char>>,
    pub subcodes: Seq<Seq<char>>,
}

impl View for SoapFault {
    type V = Fault;

    open spec fn view(&self) -> Fault {
        Fault {
            code: self.code@,
            reason: self.reason@,
            node: text::optional(self.node),
            role: text::optional(self.role),
            detail: text::optional(self.detail),
            subcodes: text::texts(self.subcodes@),
        }
    }
}

/// The class that a code names, in lower case: its local part, without what
/// refines it after a `.`, as in `soap:Server.Busy`.
pub open spec fn code_class(code: Seq<char>) -> Seq<char> {
    text::ascii_lowered(text::before_first(text::after_last(code, ':'), '.'))
}

/// The fault of a code is the receiver's: its class is `Server`, as in 1.1, or
/// `Receiver`, as in 1.2, whatever the case of the letters.
pub open spec fn is_receiver_code(code: Seq<char>) -> bool {
    code_class(code) == "server"@ || code_class(code) == "receiver"@
}

impl SoapFault {
    /// Whether a later attempt may succeed. A fault of the receiver (`Server`
    /// in 1.1, `Receiver` in 1.2) is a passing condition on its side; a fault
    /// of the sender is a breach of contract by the caller. Other codes are
    /// not retried.
    pub fn is_retryable(&self) -> (retryable: bool)
        ensures
            retryable == is_receiver_code(self@.code),
    {
        let local = part_after_last(&self.code, ':');
        let class = to_ascii_lowercase(&part_before_first(&local, '.'));
        same_text(&class, "server") || same_text(&class, "receiver")
    }
}

/// The place in a fault that a text belongs to.
pub enum Slot {
    /// The code, which a later text for this place replaces.
    Code,
    /// The code, which keeps the first text for this place.
    FirstCode,
    Subcode,
    Reason,
    Node,
    Role,
    /// None that the fault has.
    Nowhere,
}

/// The local name of the innermost element but `up` of `path`, empty where
/// there is none.
pub open spec fn enclosing(path: Seq<Seq<char>>, up: int) -> Seq<char> {
    if up < path.len() {
        path[path.len() - 1 - up]
    } else {
        Seq::empty()
    }
}

/// Where the text directly inside the innermost element of `path` belongs.
/// The path names the open elements, outermost first.
pub open spec fn slot_of(path: Seq<Seq<char>>) -> Slot {
    let parent = enclosing(path, 0);
    let grandparent = enclosing(path, 1);
    if parent == "faultcode"@ {
        Slot::Code
    } else if parent == "faultstring"@ {
        Slot::Reason
    } else if parent == "faultactor"@ {
        Slot::Node
    } else if parent == "Value"@ && grandparent == "Code"@ {
        Slot::FirstCode
    } else if parent == "Value"@ && grandparent == "Subcode"@ {
        Slot::Subcode
    } else if parent == "Text"@ && grandparent == "Reason"@ {
        Slot::Reason
    } else if parent == "Node"@ {
        Slot::Node
    } else if parent == "Role"@ {
        Slot::Role
    } else {
        Slot::Nowhere
    }
}

/// `name` is that of the element with the details of a fault.
pub open spec fn is_detail(name: Seq<char>) -> bool {
    name == "detail"@ || name == "Detail"@
}

/// How far a scan has come.
#[verifier::ext_equal]
pub struct Scan {
    /// The local names of the open elements, outermost first.
    pub path: Seq<Seq<char>>,
    /// The text of each open element so far, outermost first.
    pub texts: Seq<Seq<char>>,
    /// For each open element, outermost first, the place that it has taken
    /// with its text: that of the first `Code/Value`, or one among the
    /// subcodes.
    pub taken: Seq<Option<nat>>,
    /// How many elements were open once the `Fault` element was.
    pub fault_depth: Option<nat>,
    /// What was found.
    pub fault: Fault,
    /// The code is that of a `Code/Value`.
    pub code_taken: bool,
    /// How many elements were open once the details were, while the scan is
    /// inside them.
    pub detail_depth: Option<nat>,
    /// The text of the details so far.
    pub detail_text: Seq<char>,
}

/// A fault that nothing is known of.
pub open spec fn blank_fault() -> Fault {
    Fault {
        code: Seq::empty(),
        reason: Seq::empty(),
        node: None,
        role: None,
        detail: None,
        subcodes: Seq::empty(),
    }
}

/// A scan that has yet to begin.
pub open spec fn scan_start() -> Scan {
    Scan {
        path: Seq::empty(),
        texts: Seq::empty(),
        taken: Seq::empty(),
        fault_depth: None,
        fault: blank_fault(),
        code_taken: false,
        detail_depth: None,
        detail_text: Seq::empty(),
    }
}

/// The place that the innermost element has taken.
pub open spec fn own_place(scan: Scan) -> Option<nat> {
    if scan.taken.len() > 0 {
        scan.taken.last()
    } else {
        None
    }
}

/// `taken` with this place for the innermost element.
pub open spec fn with_place(taken: Seq<Option<nat>>, place: nat) -> Seq<Option<nat>> {
    if taken.len() > 0 {
        taken.drop_last().push(Some(place))
    } else {
        taken
    }
}

/// The scan once `value` was put where the innermost element says. Of several
/// `Code/Value` the first gives the code, and each `Subcode/Value` gives one
/// subcode; a further text of such an element replaces its own alone.
pub open spec fn assigned(scan: Scan, value: Seq<char>) -> Scan {
    match slot_of(scan.path) {
        Slot::Code => Scan { fault: Fault { code: value, ..scan.fault }, ..scan },
        Slot::FirstCode => if own_place(scan) is Some || !scan.code_taken {
            Scan {
                fault: Fault { code: value, ..scan.fault },
                code_taken: true,
                taken: with_place(scan.taken, 0),
                ..scan
            }
        } else {
            scan
        },
        Slot::Subcode => {
            let subcodes = scan.fault.subcodes;
            if own_place(scan) is Some && own_place(scan)->0 < subcodes.len() {
                let place = own_place(scan)->0 as int;
                Scan {
                    fault: Fault { subcodes: subcodes.update(place, value), ..scan.fault },
                    ..scan
                }
            } else {
                Scan {
                    fault: Fault { subcodes: subcodes.push(value), ..scan.fault },
                    taken: with_place(scan.taken, subcodes.len()),
                    ..scan
                }
            }
        },
        Slot::Reason => Scan { fault: Fault { reason: value, ..scan.fault }, ..scan },
        Slot::Node => Scan { fault: Fault { node: Some(value), ..scan.fault }, ..scan },
        Slot::Role => Scan { fault: Fault { role: Some(value), ..scan.fault }, ..scan },
        Slot::Nowhere => scan,
    }
}

/// The scan past the start tag of an element with this local name.
pub open spec fn past_start(scan: Scan, local: Seq<char>) -> Scan {
    let path = scan.path.push(local);
    let texts = scan.texts.push(Seq::empty());
    let taken = scan.taken.push(None);
    let fault_depth = if local == "Fault"@ && scan.fault_depth is None {
        Some(path.len())
    } else {
        scan.fault_depth
    };
    if fault_depth is Some && scan.detail_depth is None && is_detail(local) {
        Scan {
            path,
            texts,
            taken,
            fault_depth,
            detail_depth: Some(path.len()),
            detail_text: Seq::empty(),
            ..scan
        }
    } else {
        Scan { path, texts, taken, fault_depth, ..scan }
    }
}

/// `texts` with `data` added to the last.
pub open spec fn with_data(texts: Seq<Seq<char>>, data: Seq<char>) -> Seq<Seq<char>> {
    if texts.len() == 0 {
        texts
    } else {
        texts.drop_last().push(texts.last() + data)
    }
}

/// The scan past a piece of text. Outside a fault it is of no interest, inside
/// the details it is collected for them, and elsewhere it is joined to what the
/// innermost element holds already, which is then put where it belongs, without
/// the white space around it. A piece that is blank waits for the next.
pub open spec fn past_text(scan: Scan, data: Seq<char>) -> Scan {
    let joined = Scan { texts: with_data(scan.texts, data), ..scan };
    if scan.fault_depth is None {
        scan
    } else if scan.detail_depth is Some {
        Scan { detail_text: scan.detail_text + data, ..scan }
    } else if text::is_blank(data) || scan.texts.len() == 0 {
        joined
    } else {
        assigned(joined, text::trimmed(joined.texts.last()))
    }
}

/// The scan at the end of the details, where the innermost element is theirs:
/// their text, without the white space around it, is the detail. What is blank
/// counts for nothing.
pub open spec fn settled(scan: Scan) -> Scan {
    if scan.detail_depth == Some(scan.path.len()) {
        let ended = Scan { detail_depth: None, detail_text: Seq::empty(), ..scan };
        if text::is_blank(scan.detail_text) {
            ended
        } else {
            let detail = Some(text::trimmed(scan.detail_text));
            Scan { fault: Fault { detail, ..scan.fault }, ..ended }
        }
    } else {
        scan
    }
}

/// The scan past the end tag of the innermost element.
pub open spec fn past_end(scan: Scan) -> Scan {
    let settled = settled(scan);
    Scan {
        path: if scan.path.len() > 0 {
            scan.path.drop_last()
        } else {
            scan.path
        },
        texts: if scan.texts.len() > 0 {
            scan.texts.drop_last()
        } else {
            scan.texts
        },
        taken: if scan.taken.len() > 0 {
            scan.taken.drop_last()
        } else {
            scan.taken
        },
        ..settled
    }
}

/// The scan past `token`. A self-closing tag is a start tag and an end tag.
pub open spec fn past(scan: Scan, token: XmlToken) -> Scan {
    match token {
        XmlToken::Start(name, _) => past_start(scan, xml_events::local_part(name)),
        XmlToken::End(_) => past_end(scan),
        XmlToken::Empty(name, _) => past_end(past_start(scan, xml_events::local_part(name))),
        _ => match xml_events::character_data(token) {
            Some(data) => past_text(scan, data),
            None => scan,
        },
    }
}

/// The end tag of an element with this local name ends the fault that `scan`
/// is in.
pub open spec fn is_fault_end(scan: Scan, local: Seq<char>) -> bool {
    scan.fault_depth == Some(scan.path.len()) && local == "Fault"@
}

/// `token` ends the fault that `scan` is in, or is a fault by itself.
pub open spec fn ends_fault(scan: Scan, token: XmlToken) -> bool {
    match token {
        XmlToken::End(name) => is_fault_end(scan, xml_events::local_part(name)),
        XmlToken::Empty(name, _) => is_fault_end(
            past_start(scan, xml_events::local_part(name)),
            xml_events::local_part(name),
        ),
        _ => false,
    }
}

/// The fault that a scan has found, if it has met one.
pub open spec fn found(scan: Scan) -> Option<Fault> {
    if scan.fault_depth is Some {
        Some(scan.fault)
    } else {
        None
    }
}

/// What a scan finds in `rest`. It goes on to the end of the fault or of the
/// document, and finds nothing in a document that cannot be read so far.
pub open spec fn found_in(scan: Scan, rest: Seq<XmlToken>) -> Option<Fault>
    decreases rest.len(),
{
    if rest.len() == 0 || rest[0] is Eof {
        found(scan)
    } else if rest[0] is Malformed {
        None
    } else if ends_fault(scan, rest[0]) {
        found(past(scan, rest[0]))
    } else {
        found_in(past(scan, rest[0]), rest.drop_first())
    }
}

/// The fault in a document with these events.
pub open spec fn fault_of(events: Seq<XmlToken>) -> Option<Fault> {
    found_in(scan_start(), events)
}

/// An optional fault.
pub open spec fn optional_fault(o: Option<SoapFault>) -> Option<Fault> {
    match o {
        Some(fault) => Some(fault@),
        None => None,
    }
}

/// A [`Scan`] at work.
struct FaultScan {
    path: Vec<String>,
    texts: Vec<String>,
    taken: Vec<Option<usize>>,
    fault_depth: Option<usize>,
    fault: SoapFault,
    code_taken: bool,
    detail_depth: Option<usize>,
    detail_text: String,
}

/// An optional depth or place.
spec fn depth(o: Option<usize>) -> Option<nat> {
    match o {
        Some(d) => Some(d as nat),
        None => None,
    }
}

/// The places of a list.
spec fn places(list: Seq<Option<usize>>) -> Seq<Option<nat>> {
    list.map_values(|o: Option<usize>| depth(o))
}

impl View for FaultScan {
    type V = Scan;

    closed spec fn view(&self) -> Scan {
        Scan {
            path: text::texts(self.path@),
            texts: text::texts(self.texts@),
            taken: places(self.taken@),
            fault_depth: depth(self.fault_depth),
            fault: self.fault@,
            code_taken: self.code_taken,
            detail_depth: depth(self.detail_depth),
            detail_text: self.detail_text@,
        }
    }
}

/// Where the text directly inside the innermost element of `path` belongs.
fn slot(path: &Vec<String>) -> (s: Slot)
    ensures
        s == slot_of(text::texts(path@)),
{
    let empty = String::new();
    let n: usize = path.len();
    let parent = if n >= 1 {
        &path[n - 1]
    } else {
        &empty
    };
    let grandparent = if n >= 2 {
        &path[n - 2]
    } else {
        &empty
    };
    if same_text(parent, "faultcode") {
        Slot::Code
    } else if same_text(parent, "faultstring") {
        Slot::Reason
    } else if same_text(parent, "faultactor") {
        Slot::Node
    } else if same_text(parent, "Value") && same_text(grandparent, "Code") {
        Slot::FirstCode
    } else if same_text(parent, "Value") && same_text(grandparent, "Subcode") {
        Slot::Subcode
    } else if same_text(parent, "Text") && same_text(grandparent, "Reason") {
        Slot::Reason
    } else if same_text(parent, "Node") {
        Slot::Node
    } else if same_text(parent, "Role") {
        Slot::Role
    } else {
        Slot::Nowhere
    }
}

impl FaultScan {
    fn start() -> (scan: FaultScan)
        ensures
            scan@ == scan_start(),
    {
        FaultScan {
            path: Vec::new(),
            texts: Vec::new(),
            taken: Vec::new(),
            fault_depth: None,
            fault: SoapFault {
                code: String::new(),
                reason: String::new(),
                node: None,
                role: None,
                detail: None,
                subcodes: Vec::new(),
            },
            code_taken: false,
            detail_depth: None,
            detail_text: String::new(),
        }
    }

    /// The place that the innermost element has taken.
    fn place(&self) -> (place: Option<usize>)
        ensures
            depth(place) == own_place(self@),
    {
        let n: usize = self.taken.len();
        if n > 0 {
            self.taken[n - 1]
        } else {
            None
        }
    }

    /// Notes the place that the innermost element takes.
    fn take_place(&mut self, place: usize)
        ensures
            final(self)@ == (Scan {
                taken: with_place(old(self)@.taken, place as nat),
                ..old(self)@
            }),
    {
        let ghost before = self.taken@;
        if let Some(_) = self.taken.pop() {
            self.taken.push(Some(place));
            assert(places(self.taken@) =~= with_place(places(before), place as nat));
        }
    }

    /// Puts a text where the innermost element says: the children of a SOAP
    /// 1.1 fault, or `Code/Value`, `Reason/Text` and `Subcode/Value` of SOAP
    /// 1.2. Text elsewhere in the fault is passed over.
    fn assign_fault_field(&mut self, value: String)
        ensures
            final(self)@ == assigned(old(self)@, value@),
    {
        match slot(&self.path) {
            Slot::Code => {
                self.fault.code = value;
            },
            Slot::FirstCode => {
                if self.place().is_some() || !self.code_taken {
                    self.fault.code = value;
                    self.code_taken = true;
                    self.take_place(0);
                }
            },
            Slot::Subcode => {
                let ghost before = self.fault.subcodes@;
                let n: usize = self.fault.subcodes.len();
                match self.place() {
                    Some(place) if place < n => {
                        self.fault.subcodes.set(place, value);
                        assert(text::texts(self.fault.subcodes@) =~= text::texts(before).update(
                            place as int,
                            value@,
                        ));
                    },
                    _ => {
                        self.fault.subcodes.push(value);
                        assert(text::texts(self.fault.subcodes@) =~= text::texts(before).push(
                            value@,
                        ));
                        self.take_place(n);
                    },
                }
            },
            Slot::Reason => {
                self.fault.reason = value;
            },
            Slot::Node => {
                self.fault.node = Some(value);
            },
            Slot::Role => {
                self.fault.role = Some(value);
            },
            Slot::Nowhere => {},
        }
    }

    /// Takes the start tag of an element.
    fn enter(&mut self, local: String)
        ensures
            final(self)@ == past_start(old(self)@, local@),
    {
        let is_fault = same_text(&local, "Fault");
        let is_detail = same_text(&local, "detail") || same_text(&local, "Detail");
        let ghost before = *self;
        self.path.push(local);
        self.texts.push(String::new());
        self.taken.push(None);
        proof {
            assert(places(self.taken@) =~= places(before.taken@).push(None));
            assert(text::texts(self.path@) =~= text::texts(before.path@).push(local@));
            assert(text::texts(self.texts@) =~= text::texts(before.texts@).push(Seq::empty()));
        }
        if is_fault && self.fault_depth.is_none() {
            self.fault_depth = Some(self.path.len());
        }
        if self.fault_depth.is_some() && self.detail_depth.is_none() && is_detail {
            self.detail_depth = Some(self.path.len());
            self.detail_text = String::new();
        }
    }

    /// Takes a piece of text.
    fn take_text(&mut self, data: &String)
        ensures
            final(self)@ == past_text(old(self)@, data@),
    {
        if self.fault_depth.is_some() {
            if self.detail_depth.is_some() {
                self.detail_text.append(data);
            } else {
                let ghost before = self.texts@;
                if let Some(last) = self.texts.pop() {
                    let mut last = last;
                    last.append(data);
                    let trimmed = trim(&last);
                    self.texts.push(last);
                    assert(text::texts(self.texts@) =~= with_data(text::texts(before), data@));
                    if !trim(data).as_str().is_empty() {
                        self.assign_fault_field(trimmed);
                    }
                }
            }
        }
    }

    /// Ends the details where the innermost element is theirs.
    fn settle(&mut self)
        ensures
            final(self)@ == settled(old(self)@),
    {
        if let Some(depth) = self.detail_depth {
            if depth == self.path.len() {
                let trimmed = trim(&self.detail_text);
                if !trimmed.as_str().is_empty() {
                    self.fault.detail = Some(trimmed);
                }
                self.detail_depth = None;
                self.detail_text = String::new();
            }
        }
    }

    /// Takes the end tag of an element; the result is whether it ends the
    /// fault.
    fn leave(&mut self, local: &String) -> (ended: bool)
        ensures
            final(self)@ == past_end(old(self)@),
            ended == is_fault_end(old(self)@, local@),
    {
        let ended = match self.fault_depth {
            Some(depth) => self.path.len() == depth && same_text(local, "Fault"),
            None => false,
        };
        let ghost start = self@;
        self.settle();
        let ghost before = *self;
        let _ = self.path.pop();
        let _ = self.texts.pop();
        let _ = self.taken.pop();
        proof {
            assert(before@.path == start.path && before@.texts == start.texts);
            if before.taken@.len() > 0 {
                assert(places(self.taken@) =~= places(before.taken@).drop_last());
            }
            if before.path@.len() > 0 {
                assert(text::texts(self.path@) =~= text::texts(before.path@).drop_last());
            }
            if before.texts@.len() > 0 {
                assert(text::texts(self.texts@) =~= text::texts(before.texts@).drop_last());
            }
        }
        ended
    }
}

/// The fault in a document with these events, if there is one.
pub fn fault_in(events: &Vec<XmlEvent>) -> (fault: Option<SoapFault>)
    ensures
        optional_fault(fault) == fault_of(xml_events::tokens(events@)),
{
    let ghost all = xml_events::tokens(events@);
    let mut scan = FaultScan::start();
    let mut i: usize = 0;
    assert(all.skip(0) =~= all);
    while i < events.len()
        invariant_except_break
            i <= events@.len(),
            all == xml_events::tokens(events@),
            found_in(scan@, all.skip(i as int)) == fault_of(all),
        ensures
            all == xml_events::tokens(events@),
            found(scan@) == fault_of(all),
        decreases events@.len() - i,
    {
        assert(all.skip(i as int)[0] == events@[i as int]@);
        assert(all.skip(i as int).drop_first() =~= all.skip(i + 1));
        match &events[i] {
            XmlEvent::Start(name, _) => {
                scan.enter(qname_local(name));
            },
            XmlEvent::Empty(name, _) => {
                let local = qname_local(name);
                scan.enter(local.clone());
                if scan.leave(&local) {
                    break;
                }
            },
            XmlEvent::End(name) => {
                if scan.leave(&qname_local(name)) {
                    break;
                }
            },
            XmlEvent::Eof => {
                break;
            },
            XmlEvent::Malformed(_) => {
                return None;
            },
            event => {
                if let Some(data) = text_of(event) {
                    scan.take_text(&data);
                }
            },
        }
        i += 1;
    }
    if scan.fault_depth.is_some() {
        Some(scan.fault)
    } else {
        None
    }
}

/// Scans a response body for a `Fault` element, whatever its prefix. There is
/// no fault where there is no such element, or where the body cannot be read
/// as XML up to the fault's end.
///
/// A body that just ends before its fault does, such as one that was cut off
/// at the response limit, is not taken for unreadable: it has the fault, with
/// what was read by then.
pub fn parse_fault(body: &str, _version: SoapVersion) -> (fault: Option<SoapFault>)
    ensures
        optional_fault(fault) == fault_of(xml_events::document_events(body@)),
{
    fault_in(&read_events(body))
}

/// Whether a fault is the receiver's does not depend on the prefix of its code,
/// nor on what refines the code after a `.`. A code without either is the
/// receiver's if and only if it is `server` or `receiver` in lower case.
pub proof fn law_receiver_codes(prefix: Seq<char>, class: Seq<char>, refinement: Seq<char>)
    requires
        !class.contains(':') && !class.contains('.'),
        !refinement.contains(':'),
    ensures
        is_receiver_code(class) <==> text::ascii_lowered(class) == "server"@
            || text::ascii_lowered(class) == "receiver"@,
        is_receiver_code(prefix.push(':') + class) == is_receiver_code(class),
        is_receiver_code(class.push('.') + refinement) == is_receiver_code(class),
        is_receiver_code(prefix.push(':') + (class.push('.') + refinement)) == is_receiver_code(
            class,
        ),
{
    let refined = class.push('.') + refinement;
    text::law_parts_of_a_text(prefix, ':', class);
    text::law_parts_of_a_text(class, '.', refinement);
    assert(!refined.contains(':')) by {
        if refined.contains(':') {
            let k = choose|k: int| 0 <= k < refined.len() && refined[k] == ':';
            if k < class.len() {
                assert(class[k] == ':');
            } else if k > class.len() {
                assert(refinement[k - class.len() - 1] == ':');
            }
        }
    }
    text::law_parts_of_a_text(prefix, ':', refined);
    text::law_parts_of_a_text(class, '.', class);
}

} // verus!
