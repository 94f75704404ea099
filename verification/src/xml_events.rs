//! The XML of a document as a list of events.
//!
//! `quick_xml` reads the document; what it reports is taken over as plain
//! text, so that the SOAP logic works on a list that holds all it needs.

use crate::references;
use crate::references::resolve_reference;
use crate::text;
use crate::text::from_utf8_lossy;
use quick_xml::events::attributes::{Attribute, Attributes};
use quick_xml::events::Event::{
    CData, Comment, Decl, DocType, Empty, End, Eof, GeneralRef, Start, Text, PI,
};
use quick_xml::events::{BytesCData, BytesText};
use quick_xml::name::QName;
use quick_xml::Reader;
use vstd::prelude::*;
use vstd::string::*;
use vstd::utf8::*;

verus! {

/// `quick_xml::Reader`, a document with a place up to which it was read.
#[verifier::external_type_specification]
#[verifier::external_body]
#[verifier::reject_recursive_types(R)]
pub struct ExReader<R>(quick_xml::Reader<R>);

/// `quick_xml::events::attributes::Attributes`, the attributes of a tag
/// that are still to be read.
#[verifier::external_type_specification]
#[verifier::external_body]
pub struct ExAttributes<'a>(quick_xml::events::attributes::Attributes<'a>);

/// `quick_xml::events::attributes::Attribute`, one attribute of a tag: what
/// `Attributes` hands out.
#[verifier::external_type_specification]
#[verifier::external_body]
pub struct ExAttribute<'a>(quick_xml::events::attributes::Attribute<'a>);

/// `quick_xml::events::attributes::AttrError`, why an attribute is refused:
/// what `Attributes` hands out in its place.
#[verifier::external_type_specification]
#[verifier::external_body]
pub struct ExAttrError(quick_xml::events::attributes::AttrError);

/// What the reader reports at one place of a document, as the bytes that stand
/// there.
pub enum RawEvent {
    /// A start tag: the name, and all between `<` and `>`.
    Start(Vec<u8>, Vec<u8>),
    /// A self-closing tag: the name, and all between `<` and `/>`.
    Empty(Vec<u8>, Vec<u8>),
    /// An end tag: the name.
    End(Vec<u8>),
    /// Character data between tags and references.
    Text(Vec<u8>),
    /// The inside of a CDATA section.
    CData(Vec<u8>),
    /// A reference: what stands between `&` and `;`.
    Reference(Vec<u8>),
    /// A comment.
    Comment,
    /// The declaration at the start of a document.
    Declaration,
    /// A processing instruction.
    Instruction,
    /// A document type.
    DocType,
    /// The end of the document.
    Eof,
}

/// What the reader reports, or why the document cannot be read on.
pub type RawReport = Result<RawEvent, String>;

/// A [`RawReport`] in terms of sequences.
pub enum RawToken {
    Start(Seq<u8>, Seq<u8>),
    Empty(Seq<u8>, Seq<u8>),
    End(Seq<u8>),
    Text(Seq<u8>),
    CData(Seq<u8>),
    Reference(Seq<u8>),
    Comment,
    Declaration,
    Instruction,
    DocType,
    Eof,
    Malformed(Seq<char>),
}

/// A report in terms of sequences.
pub open spec fn raw_token(report: RawReport) -> RawToken {
    match report {
        Ok(RawEvent::Start(name, content)) => RawToken::Start(name@, content@),
        Ok(RawEvent::Empty(name, content)) => RawToken::Empty(name@, content@),
        Ok(RawEvent::End(name)) => RawToken::End(name@),
        Ok(RawEvent::Text(text)) => RawToken::Text(text@),
        Ok(RawEvent::CData(text)) => RawToken::CData(text@),
        Ok(RawEvent::Reference(name)) => RawToken::Reference(name@),
        Ok(RawEvent::Comment) => RawToken::Comment,
        Ok(RawEvent::Declaration) => RawToken::Declaration,
        Ok(RawEvent::Instruction) => RawToken::Instruction,
        Ok(RawEvent::DocType) => RawToken::DocType,
        Ok(RawEvent::Eof) => RawToken::Eof,
        Err(message) => RawToken::Malformed(message@),
    }
}

/// Reading ends with this report.
pub open spec fn is_last(token: RawToken) -> bool {
    token is Eof || token is Malformed
}

/// The bytes of a tag are text, and its content begins with its name.
pub open spec fn is_tag(name: Seq<u8>, content: Seq<u8>) -> bool {
    &&& valid_utf8(name)
    &&& valid_utf8(content)
    &&& decode_utf8(name).is_prefix_of(decode_utf8(content))
}

/// The bytes of a report are text.
pub open spec fn is_text(token: RawToken) -> bool {
    match token {
        RawToken::Start(name, content) => is_tag(name, content),
        RawToken::Empty(name, content) => is_tag(name, content),
        RawToken::End(name) => valid_utf8(name),
        RawToken::Text(text) => valid_utf8(text),
        RawToken::CData(text) => valid_utf8(text),
        RawToken::Reference(name) => valid_utf8(name),
        _ => true,
    }
}

/// What reading a document from start to end reports: the end, or that the
/// document cannot be read on, comes last and only there, and all bytes are
/// text.
pub open spec fn complete(tokens: Seq<RawToken>) -> bool {
    &&& tokens.len() > 0
    &&& is_last(tokens.last())
    &&& forall|i: int| 0 <= i < tokens.len() - 1 ==> !is_last(#[trigger] tokens[i])
    &&& forall|i: int| 0 <= i < tokens.len() ==> is_text(#[trigger] tokens[i])
}

/// What `quick_xml` reports of `document`, read from start to end.
pub uninterp spec fn reported(document: Seq<char>) -> Seq<RawToken>;

/// What `reader` has yet to report, up to the end of the document or to the
/// first error.
pub uninterp spec fn pending(reader: Reader<&[u8]>) -> Seq<RawToken>;

/// `quick_xml::Reader::from_str` makes a reader that stands at the start of
/// `document`. It has yet to report all that is reported of `document`: a list
/// that ends with the end of the document or with an error. The bytes are those
/// of the document between ASCII characters, so they are text, and the content
/// of each tag begins with the tag's name.
#[verifier::external_body]
fn open_document(document: &str) -> (reader: Reader<&[u8]>)
    ensures
        pending(reader) == reported(document@),
        complete(pending(reader)),
{
    Reader::from_str(document)
}

/// `quick_xml::Reader::read_event` hands out the next report and, unless it is
/// the last, moves past it. Names, contents and character data are taken over
/// as bytes, an error as its message.
#[verifier::external_body]
fn next_event(reader: &mut Reader<&[u8]>) -> (report: RawReport)
    requires
        pending(*old(reader)).len() > 0,
    ensures
        raw_token(report) == pending(*old(reader))[0],
        !is_last(raw_token(report)) ==> pending(*final(reader)) == pending(
            *old(reader),
        ).drop_first(),
{
    Ok(match reader.read_event().map_err(|e| e.to_string())? {
        Start(e) => RawEvent::Start(e.name().0.to_vec(), e.to_vec()),
        Empty(e) => RawEvent::Empty(e.name().0.to_vec(), e.to_vec()),
        End(e) => RawEvent::End(e.to_vec()),
        Text(e) => RawEvent::Text(e.to_vec()),
        CData(e) => RawEvent::CData(e.to_vec()),
        GeneralRef(e) => RawEvent::Reference(e.to_vec()),
        Comment(_) => RawEvent::Comment,
        Decl(_) => RawEvent::Declaration,
        PI(_) => RawEvent::Instruction,
        DocType(_) => RawEvent::DocType,
        Eof => RawEvent::Eof,
    })
}

/// One attribute as it stands in a tag.
pub enum RawAttribute {
    /// The name, and the value as it stands between the quotes.
    Pair(String, String),
    /// The attribute is refused: the message.
    Malformed(String),
}

/// A [`RawAttribute`] in terms of character sequences.
pub enum AttributeToken {
    Pair(Seq<char>, Seq<char>),
    Malformed(Seq<char>),
}

impl View for RawAttribute {
    type V = AttributeToken;

    open spec fn view(&self) -> AttributeToken {
        match self {
            RawAttribute::Pair(key, value) => AttributeToken::Pair(key@, value@),
            RawAttribute::Malformed(message) => AttributeToken::Malformed(message@),
        }
    }
}

/// What `quick_xml` lists as the attributes of a tag with this content and
/// name.
pub uninterp spec fn listed(content: Seq<char>, name: Seq<char>) -> Seq<AttributeToken>;

/// What `attributes` has yet to list.
pub uninterp spec fn unlisted(attributes: Attributes<'_>) -> Seq<AttributeToken>;

/// `quick_xml::events::attributes::Attributes::new` makes the list of the
/// attributes that follow the name in a tag's content.
#[verifier::external_body]
fn open_attributes<'a>(content: &'a str, name: &str) -> (attributes: Attributes<'a>)
    requires
        name@.is_prefix_of(content@),
    ensures
        unlisted(attributes) == listed(content@, name@),
{
    Attributes::new(content, name.len())
}

/// `quick_xml::events::attributes::Attributes::next` hands out the next
/// attribute and moves past it; at the end of the list there is none.
#[verifier::external_body]
fn next_attribute(attributes: &mut Attributes<'_>) -> (attribute: Option<RawAttribute>)
    ensures
        unlisted(*old(attributes)).len() == 0 ==> attribute is None && unlisted(*final(attributes))
            == unlisted(*old(attributes)),
        unlisted(*old(attributes)).len() > 0 ==> {
            &&& attribute matches Some(a) && a@ == unlisted(*old(attributes))[0]
            &&& unlisted(*final(attributes)) == unlisted(*old(attributes)).drop_first()
        },
{
    match attributes.next()? {
        Ok(a) => Some(
            RawAttribute::Pair(
                String::from_utf8_lossy(a.key.as_ref()).into_owned(),
                String::from_utf8_lossy(&a.value).into_owned(),
            ),
        ),
        Err(e) => Some(RawAttribute::Malformed(e.to_string())),
    }
}

/// Text, or why it cannot be had.
pub type TextResult = Result<String, String>;

/// A result in terms of character sequences.
pub open spec fn result_text(r: TextResult) -> Result<Seq<char>, Seq<char>> {
    match r {
        Ok(s) => Ok(s@),
        Err(e) => Err(e@),
    }
}

/// What `quick_xml` makes of an attribute value by resolving its
/// references: the text, or why that fails.
pub uninterp spec fn unescaped(raw: Seq<char>) -> Result<Seq<char>, Seq<char>>;

/// `quick_xml::events::attributes::Attribute::unescape_value` resolves the
/// references of an attribute value.
#[verifier::external_body]
fn unescape_value(raw: &str) -> (value: TextResult)
    ensures
        result_text(value) == unescaped(raw@),
{
    let attribute = Attribute::from(("".as_bytes(), raw.as_bytes()));
    match attribute.unescape_value() {
        Ok(value) => Ok(value.into_owned()),
        Err(e) => Err(e.to_string()),
    }
}

/// What follows the first `:` of `name`, if it has one.
pub open spec fn after_colon(name: Seq<char>) -> Option<Seq<char>>
    decreases name.len(),
{
    if name.len() == 0 {
        None
    } else if name[0] == ':' {
        Some(name.drop_first())
    } else {
        after_colon(name.drop_first())
    }
}

/// The local part of a qualified name: what follows its first `:`, or all
/// of a name without one.
pub open spec fn local_part(name: Seq<char>) -> Seq<char> {
    match after_colon(name) {
        Some(local) => local,
        None => name,
    }
}

/// `quick_xml::name::QName::local_name` drops all up to and including the
/// first `:` of a name.
#[verifier::external_body]
pub(crate) fn qname_local(name: &str) -> (local: String)
    ensures
        local@ == local_part(name@),
{
    String::from_utf8_lossy(QName(name.as_bytes()).local_name().as_ref()).into_owned()
}

/// `text` with each line end made one line feed. The line ends are carriage
/// return with line feed or next line, either of `\r` and next line alone,
/// and line separator.
pub open spec fn line_ends_normalized(text: Seq<char>) -> Seq<char>
    decreases text.len(),
{
    if text.len() == 0 {
        text
    } else if text[0] == '\r' && text.len() > 1 && (text[1] == '\n' || text[1] == '\u{85}') {
        seq!['\n'] + line_ends_normalized(text.skip(2))
    } else if text[0] == '\r' || text[0] == '\u{85}' || text[0] == '\u{2028}' {
        seq!['\n'] + line_ends_normalized(text.skip(1))
    } else {
        seq![text[0]] + line_ends_normalized(text.skip(1))
    }
}

/// `quick_xml::events::BytesText::xml_content` normalizes the line ends of
/// character data. It fails on bytes that are not UTF-8 alone, which text
/// never is.
#[verifier::external_body]
fn text_content(raw: &str) -> (content: TextResult)
    ensures
        content is Ok && content->Ok_0@ == line_ends_normalized(raw@),
{
    match BytesText::from_escaped(raw).xml_content() {
        Ok(content) => Ok(content.into_owned()),
        Err(e) => Err(e.to_string()),
    }
}

/// `quick_xml::events::BytesCData::decode` takes the inside of a CDATA
/// section as it is. It fails on bytes that are not UTF-8 alone, which text
/// never is.
#[verifier::external_body]
fn cdata_content(raw: &str) -> (content: TextResult)
    ensures
        content is Ok && content->Ok_0@ == raw@,
{
    match BytesCData::new(raw).decode() {
        Ok(content) => Ok(content.into_owned()),
        Err(e) => Err(e.to_string()),
    }
}

/// The attributes of a tag by qualified name and value, or why they cannot
/// be had.
pub type AttributeList = Result<Vec<(String, String)>, String>;

/// An event of a document, with all that the SOAP logic reads of it.
pub enum XmlEvent {
    /// A start tag: the qualified name, and the attributes.
    Start(String, AttributeList),
    /// A self-closing tag: the qualified name, and the attributes.
    Empty(String, AttributeList),
    /// An end tag: the qualified name.
    End(String),
    /// Character data, its line ends normalized.
    Text(String),
    /// The inside of a CDATA section.
    CData(String),
    /// A reference: what stands between `&` and `;`.
    Reference(String),
    /// Anything that carries neither elements nor text.
    Other,
    /// The end of the document.
    Eof,
    /// The document cannot be read on: the message.
    Malformed(String),
}

/// Attributes in terms of character sequences.
pub type Attrs = Result<Seq<(Seq<char>, Seq<char>)>, Seq<char>>;

/// An [`XmlEvent`] in terms of character sequences.
pub enum XmlToken {
    Start(Seq<char>, Attrs),
    Empty(Seq<char>, Attrs),
    End(Seq<char>),
    Text(Seq<char>),
    CData(Seq<char>),
    Reference(Seq<char>),
    Other,
    Eof,
    Malformed(Seq<char>),
}

/// `list` in terms of character sequences.
pub open spec fn attrs(list: AttributeList) -> Attrs {
    match list {
        Ok(list) => Ok(text::pairs(list@)),
        Err(message) => Err(message@),
    }
}

impl View for XmlEvent {
    type V = XmlToken;

    open spec fn view(&self) -> XmlToken {
        match *self {
            XmlEvent::Start(name, list) => XmlToken::Start(name@, attrs(list)),
            XmlEvent::Empty(name, list) => XmlToken::Empty(name@, attrs(list)),
            XmlEvent::End(name) => XmlToken::End(name@),
            XmlEvent::Text(text) => XmlToken::Text(text@),
            XmlEvent::CData(text) => XmlToken::CData(text@),
            XmlEvent::Reference(name) => XmlToken::Reference(name@),
            XmlEvent::Other => XmlToken::Other,
            XmlEvent::Eof => XmlToken::Eof,
            XmlEvent::Malformed(message) => XmlToken::Malformed(message@),
        }
    }
}

/// `events` in terms of character sequences.
pub open spec fn tokens(events: Seq<XmlEvent>) -> Seq<XmlToken> {
    events.map_values(|e: XmlEvent| e@)
}

/// The attributes that `items` list, each value with its references
/// resolved: all of them, or the first error.
pub open spec fn gathered(items: Seq<AttributeToken>) -> Attrs
    decreases items.len(),
{
    if items.len() == 0 {
        Ok(Seq::empty())
    } else {
        match items[0] {
            AttributeToken::Malformed(message) => Err(message),
            AttributeToken::Pair(key, raw) => match unescaped(raw) {
                Err(message) => Err(message),
                Ok(value) => match gathered(items.drop_first()) {
                    Err(message) => Err(message),
                    Ok(rest) => Ok(seq![(key, value)] + rest),
                },
            },
        }
    }
}

/// A tag's attributes.
pub open spec fn tag_attributes(name: Seq<u8>, content: Seq<u8>) -> Attrs {
    gathered(listed(decode_utf8(content), decode_utf8(name)))
}

/// The event that a report amounts to. Comments, declarations, processing
/// instructions and document types carry nothing that counts.
pub open spec fn resolved(token: RawToken) -> XmlToken {
    match token {
        RawToken::Start(name, content) => XmlToken::Start(
            decode_utf8(name),
            tag_attributes(name, content),
        ),
        RawToken::Empty(name, content) => XmlToken::Empty(
            decode_utf8(name),
            tag_attributes(name, content),
        ),
        RawToken::End(name) => XmlToken::End(decode_utf8(name)),
        RawToken::Text(text) => XmlToken::Text(line_ends_normalized(decode_utf8(text))),
        RawToken::CData(text) => XmlToken::CData(decode_utf8(text)),
        RawToken::Reference(name) => XmlToken::Reference(decode_utf8(name)),
        RawToken::Comment => XmlToken::Other,
        RawToken::Declaration => XmlToken::Other,
        RawToken::Instruction => XmlToken::Other,
        RawToken::DocType => XmlToken::Other,
        RawToken::Eof => XmlToken::Eof,
        RawToken::Malformed(message) => XmlToken::Malformed(message),
    }
}

/// The text that an event adds to the element that it stands in: character
/// data, the inside of a CDATA section, and what a reference stands for.
pub open spec fn character_data(token: XmlToken) -> Option<Seq<char>> {
    match token {
        XmlToken::Text(data) => Some(data),
        XmlToken::CData(data) => Some(data),
        XmlToken::Reference(name) => Some(references::referenced(name)),
        _ => None,
    }
}

/// All text among `events`, one piece after the other.
pub open spec fn text_among(events: Seq<XmlToken>) -> Seq<char>
    decreases events.len(),
{
    if events.len() == 0 {
        Seq::empty()
    } else {
        text::or_empty(character_data(events[0])) + text_among(events.drop_first())
    }
}

/// No event opens or closes an element, or ends the document.
pub open spec fn within_one_element(events: Seq<XmlToken>) -> bool {
    forall|i: int|
        0 <= i < events.len() ==> character_data(#[trigger] events[i]) is Some
            || events[i] is Other
}

/// The text that an event adds to the element that it stands in.
pub fn text_of(event: &XmlEvent) -> (data: Option<String>)
    ensures
        text::optional(data) == character_data(event@),
{
    match event {
        XmlEvent::Text(data) => Some(data.clone()),
        XmlEvent::CData(data) => Some(data.clone()),
        XmlEvent::Reference(name) => Some(resolve_reference(name)),
        _ => None,
    }
}

/// The events of `document`, from its start to its end or to where it can
/// be read no further.
pub open spec fn document_events(document: Seq<char>) -> Seq<XmlToken> {
    reported(document).map_values(|t: RawToken| resolved(t))
}

/// What the attributes already gathered and the outcome for the rest make
/// together.
spec fn joined(done: Seq<(Seq<char>, Seq<char>)>, rest: Attrs) -> Attrs {
    match rest {
        Ok(more) => Ok(done + more),
        Err(message) => Err(message),
    }
}

/// Reads the attributes of a tag.
fn read_attributes(content: &str, name: &str) -> (list: AttributeList)
    requires
        name@.is_prefix_of(content@),
    ensures
        attrs(list) == gathered(listed(content@, name@)),
{
    let mut attributes = open_attributes(content, name);
    let mut list: Vec<(String, String)> = Vec::new();
    assert(joined(text::pairs(list@), gathered(unlisted(attributes))) == gathered(
        listed(content@, name@),
    )) by {
        assert(text::pairs(list@) =~= Seq::empty());
        if let Ok(all) = gathered(listed(content@, name@)) {
            assert(text::pairs(list@) + all =~= all);
        }
    }
    loop
        invariant
            joined(text::pairs(list@), gathered(unlisted(attributes))) == gathered(
                listed(content@, name@),
            ),
        decreases unlisted(attributes).len(),
    {
        let ghost before = unlisted(attributes);
        let ghost done = text::pairs(list@);
        match next_attribute(&mut attributes) {
            None => {
                assert(done + Seq::<(Seq<char>, Seq<char>)>::empty() =~= done);
                return Ok(list);
            },
            Some(RawAttribute::Malformed(message)) => {
                return Err(message);
            },
            Some(RawAttribute::Pair(key, raw)) => match unescape_value(&raw) {
                Err(message) => {
                    return Err(message);
                },
                Ok(value) => {
                    let ghost pair = (key@, value@);
                    list.push((key, value));
                    proof {
                        assert(text::pairs(list@) =~= done.push(pair));
                        if let Ok(more) = gathered(before.drop_first()) {
                            assert(done + (seq![pair] + more) =~= done.push(pair) + more);
                        }
                    }
                },
            },
        }
    }
}

/// Reads `document` from its start to its end or to where it can be read no
/// further.
pub fn read_events(document: &str) -> (events: Vec<XmlEvent>)
    ensures
        tokens(events@) == document_events(document@),
{
    let mut reader = open_document(document);
    let mut events: Vec<XmlEvent> = Vec::new();
    let ghost all = reported(document@);
    assert(all.skip(0) =~= all);
    loop
        invariant
            complete(all),
            events@.len() < all.len(),
            pending(reader) == all.skip(events@.len() as int),
            forall|k: int|
                0 <= k < events@.len() ==> (#[trigger] events@[k])@ == resolved(all[k]),
            all == reported(document@),
        decreases all.len() - events@.len(),
    {
        let ghost at = events@.len() as int;
        let report = next_event(&mut reader);
        assert(raw_token(report) == all[at]);
        assert(is_text(all[at]));
        let mut last = false;
        let event = match report {
            Ok(RawEvent::Start(name, content)) => {
                let name = from_utf8_lossy(&name);
                let list = read_attributes(&from_utf8_lossy(&content), &name);
                XmlEvent::Start(name, list)
            },
            Ok(RawEvent::Empty(name, content)) => {
                let name = from_utf8_lossy(&name);
                let list = read_attributes(&from_utf8_lossy(&content), &name);
                XmlEvent::Empty(name, list)
            },
            Ok(RawEvent::End(name)) => XmlEvent::End(from_utf8_lossy(&name)),
            Ok(RawEvent::Text(text)) => match text_content(&from_utf8_lossy(&text)) {
                Ok(content) => XmlEvent::Text(content),
                Err(message) => XmlEvent::Malformed(message),
            },
            Ok(RawEvent::CData(text)) => match cdata_content(&from_utf8_lossy(&text)) {
                Ok(content) => XmlEvent::CData(content),
                Err(message) => XmlEvent::Malformed(message),
            },
            Ok(RawEvent::Reference(name)) => XmlEvent::Reference(from_utf8_lossy(&name)),
            Ok(RawEvent::Comment) => XmlEvent::Other,
            Ok(RawEvent::Declaration) => XmlEvent::Other,
            Ok(RawEvent::Instruction) => XmlEvent::Other,
            Ok(RawEvent::DocType) => XmlEvent::Other,
            Ok(RawEvent::Eof) => {
                last = true;
                XmlEvent::Eof
            },
            Err(message) => {
                last = true;
                XmlEvent::Malformed(message)
            },
        };
        events.push(event);
        proof {
            assert(event@ == resolved(all[at]));
            assert(all.skip(at).drop_first() =~= all.skip(at + 1));
        }
        if last {
            assert(tokens(events@) =~= document_events(document@));
            return events;
        }
    }
}

/// The local part of a name is what follows its prefix and the first `:`; a name
/// without a `:` is its own.
pub proof fn law_local_part(prefix: Seq<char>, local: Seq<char>)
    requires
        !prefix.contains(':'),
    ensures
        local_part(prefix.push(':') + local) == local,
        local_part(prefix) == prefix,
{
    lemma_after_colon(prefix, local);
}

proof fn lemma_after_colon(prefix: Seq<char>, local: Seq<char>)
    requires
        !prefix.contains(':'),
    ensures
        after_colon(prefix.push(':') + local) == Some(local),
        after_colon(prefix) is None,
    decreases prefix.len(),
{
    let name = prefix.push(':') + local;
    if prefix.len() == 0 {
        assert(name[0] == ':');
        assert(name.drop_first() =~= local);
    } else {
        let tail = prefix.drop_first();
        assert(prefix[0] != ':');
        assert(!tail.contains(':')) by {
            if tail.contains(':') {
                let k = choose|k: int| 0 <= k < tail.len() && tail[k] == ':';
                assert(prefix[k + 1] == ':');
            }
        }
        lemma_after_colon(tail, local);
        assert(name[0] == prefix[0]);
        assert(name.drop_first() =~= tail.push(':') + local);
    }
}

/// Every report is one event, in the same order. Tags, references, CDATA
/// sections and text are taken over by the text that they hold, and why the
/// document cannot be read on as it is told.
pub proof fn law_events_are_the_reports(document: Seq<char>, i: int)
    requires
        0 <= i < reported(document).len(),
    ensures
        document_events(document).len() == reported(document).len(),
        ({
            let event = document_events(document)[i];
            match reported(document)[i] {
                RawToken::Start(name, content) => event matches XmlToken::Start(n, a) && n
                    == decode_utf8(name) && a == tag_attributes(name, content),
                RawToken::Empty(name, content) => event matches XmlToken::Empty(n, a) && n
                    == decode_utf8(name) && a == tag_attributes(name, content),
                RawToken::End(name) => event matches XmlToken::End(n) && n == decode_utf8(name),
                RawToken::Text(data) => event matches XmlToken::Text(d) && d
                    == line_ends_normalized(decode_utf8(data)),
                RawToken::CData(data) => event matches XmlToken::CData(d) && d == decode_utf8(data),
                RawToken::Reference(name) => event matches XmlToken::Reference(n) && n
                    == decode_utf8(name),
                RawToken::Eof => event is Eof,
                RawToken::Malformed(message) => event matches XmlToken::Malformed(m) && m
                    == message,
                _ => event is Other,
            }
        }),
{
}

/// `c` is or begins a line end other than a line feed.
pub open spec fn is_line_end(c: char) -> bool {
    c == '\r' || c == '\u{85}' || c == '\u{2028}'
}

/// Once line ends are made line feeds there are no others, and text without
/// others stays as it is.
pub proof fn law_line_ends(s: Seq<char>)
    ensures
        forall|i: int|
            0 <= i < line_ends_normalized(s).len() ==> !is_line_end(
                #[trigger] line_ends_normalized(s)[i],
            ),
        (forall|i: int| 0 <= i < s.len() ==> !is_line_end(#[trigger] s[i]))
            ==> line_ends_normalized(s) == s,
    decreases s.len(),
{
    if s.len() > 0 {
        let one = s.skip(1);
        law_line_ends(one);
        let taken: int = if s[0] == '\r' && s.len() > 1 && (s[1] == '\n' || s[1] == '\u{85}') {
            2
        } else {
            1
        };
        law_line_ends(s.skip(taken));
        let out = line_ends_normalized(s);
        assert forall|i: int| 0 <= i < out.len() implies !is_line_end(#[trigger] out[i]) by {
            if i > 0 {
                assert(out[i] == line_ends_normalized(s.skip(taken))[i - 1]);
            }
        }
        if forall|i: int| 0 <= i < s.len() ==> !is_line_end(#[trigger] s[i]) {
            assert(!is_line_end(s[0]));
            assert forall|i: int| 0 <= i < one.len() implies !is_line_end(#[trigger] one[i]) by {
                assert(one[i] == s[i + 1]);
            }
            assert(out =~= s);
        }
    }
}

} // verus!
