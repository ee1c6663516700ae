//! XML as a sequence of events, read and written by `quick_xml`.

use crate::error::ParseError;
use crate::model::text_of;
use crate::text::utf8_text;
use quick_xml::events::attributes::Attributes;
use quick_xml::events::{BytesDecl, BytesEnd, BytesStart, BytesText, Event};
use vstd::prelude::*;

verus! {

/// One attribute of a start tag as it was read.
#[derive(Debug)]
pub enum XmlAttribute {
    /// A key with its value, both as they stand in the document.
    Pair { key: Vec<u8>, value: Vec<u8> },
    /// What stood in the place of an attribute was none; the text says why.
    Malformed(String),
}

/// An `XmlAttribute` as a mathematical value.
pub enum XmlAttributeView {
    Pair { key: Seq<u8>, value: Seq<u8> },
    Malformed(Seq<char>),
}

impl View for XmlAttribute {
    type V = XmlAttributeView;

    open spec fn view(&self) -> XmlAttributeView {
        match self {
            XmlAttribute::Pair { key, value } => XmlAttributeView::Pair { key: key@, value: value@ },
            XmlAttribute::Malformed(m) => XmlAttributeView::Malformed(m@),
        }
    }
}

/// The values of a list of attributes, in order.
pub open spec fn attributes_view(v: Seq<XmlAttribute>) -> Seq<XmlAttributeView> {
    v.map_values(|a: XmlAttribute| a@)
}

/// One event of a document.
#[derive(Debug)]
pub enum XmlEvent {
    /// The XML declaration.
    Declaration,
    /// A start tag with its qualified name and its attributes.
    Start { name: Vec<u8>, attributes: Vec<XmlAttribute> },
    /// An end tag with its qualified name.
    End { name: Vec<u8> },
    /// Character data between tags, with its references resolved.
    Text(String),
    /// Character data of a CDATA section.
    CData(String),
    /// The end of the document.
    Eof,
    /// The document cannot be read on; the text says why.
    Failed(String),
    /// Anything else: an empty element, a comment, an instruction.
    Other,
}

/// An `XmlEvent` as a mathematical value.
pub enum XmlEventView {
    Declaration,
    Start { name: Seq<u8>, attributes: Seq<XmlAttributeView> },
    End { name: Seq<u8> },
    Text(Seq<char>),
    CData(Seq<char>),
    Eof,
    Failed(Seq<char>),
    Other,
}

impl XmlEventView {
    /// Nothing is read behind this event.
    pub open spec fn is_last(self) -> bool {
        self is Eof || self is Failed
    }
}

impl View for XmlEvent {
    type V = XmlEventView;

    open spec fn view(&self) -> XmlEventView {
        match self {
            XmlEvent::Declaration => XmlEventView::Declaration,
            XmlEvent::Start { name, attributes } => XmlEventView::Start {
                name: name@,
                attributes: attributes_view(attributes@),
            },
            XmlEvent::End { name } => XmlEventView::End { name: name@ },
            XmlEvent::Text(t) => XmlEventView::Text(t@),
            XmlEvent::CData(t) => XmlEventView::CData(t@),
            XmlEvent::Eof => XmlEventView::Eof,
            XmlEvent::Failed(m) => XmlEventView::Failed(m@),
            XmlEvent::Other => XmlEventView::Other,
        }
    }
}

/// The values of a list of events, in order.
pub open spec fn events_view(v: Seq<XmlEvent>) -> Seq<XmlEventView> {
    v.map_values(|e: XmlEvent| e@)
}

/// One event as the reader hands it out, before its parts are taken apart.
pub enum XmlToken {
    /// The XML declaration.
    Declaration,
    /// A start tag: all that stands between its brackets, and the length of
    /// the qualified name at its start.
    Start { content: Vec<u8>, name_length: usize },
    /// An end tag with its qualified name.
    End { name: Vec<u8> },
    /// Character data between tags.
    Text(Vec<u8>),
    /// Character data of a CDATA section.
    CData(Vec<u8>),
    /// The end of the document.
    Eof,
    /// The document cannot be read on.
    Failed(String),
    /// Anything else.
    Other,
}

/// An `XmlToken` as a mathematical value.
pub enum XmlTokenView {
    Declaration,
    Start { content: Seq<u8>, name_length: int },
    End { name: Seq<u8> },
    Text(Seq<u8>),
    CData(Seq<u8>),
    Eof,
    Failed(Seq<char>),
    Other,
}

impl XmlTokenView {
    /// Nothing is read behind this token.
    pub open spec fn is_last(self) -> bool {
        self is Eof || self is Failed
    }
}

impl View for XmlToken {
    type V = XmlTokenView;

    open spec fn view(&self) -> XmlTokenView {
        match self {
            XmlToken::Declaration => XmlTokenView::Declaration,
            XmlToken::Start { content, name_length } => XmlTokenView::Start {
                content: content@,
                name_length: *name_length as int,
            },
            XmlToken::End { name } => XmlTokenView::End { name: name@ },
            XmlToken::Text(t) => XmlTokenView::Text(t@),
            XmlToken::CData(t) => XmlTokenView::CData(t@),
            XmlToken::Eof => XmlTokenView::Eof,
            XmlToken::Failed(m) => XmlTokenView::Failed(m@),
            XmlToken::Other => XmlTokenView::Other,
        }
    }
}

/// `quick_xml::Reader`, of which nothing is known but the tokens that it
/// has still to hand out.
#[verifier::external_type_specification]
#[verifier::external_body]
#[verifier::reject_recursive_types(R)]
pub struct ExReader<R>(quick_xml::Reader<R>);

/// `quick_xml::Writer`, of which nothing is known but the events that it
/// has been given.
#[verifier::external_type_specification]
#[verifier::external_body]
#[verifier::reject_recursive_types(W)]
pub struct ExWriter<W>(quick_xml::Writer<W>);

/// The tokens that `quick_xml::Reader` reads from a text, with white space
/// trimmed from character data, up to and with the first that ends the
/// reading.
pub uninterp spec fn xml_tokens(text: Seq<char>) -> Seq<XmlTokenView>;

/// The tokens that a reader has still to hand out.
pub uninterp spec fn pending_tokens(reader: quick_xml::Reader<&[u8]>) -> Seq<XmlTokenView>;

/// The attributes that `quick_xml` finds in the content of a start tag
/// behind the first `from` bytes.
pub uninterp spec fn xml_attributes(content: Seq<char>, from: int) -> Seq<XmlAttributeView>;

/// The text that `String::from_utf8_lossy` makes of bytes.
pub uninterp spec fn lossy_text(bytes: Seq<u8>) -> Seq<char>;

/// What `quick_xml::escape::unescape` makes of a text, each reference in
/// it resolved; `None` where it cannot resolve one.
pub uninterp spec fn unescaped(raw: Seq<char>) -> Option<Seq<char>>;

/// The events that a writer has been given.
pub uninterp spec fn written_events(writer: quick_xml::Writer<Vec<u8>>) -> Seq<XmlEventView>;

/// The document that `quick_xml::Writer`, indenting by two blanks, makes of
/// a sequence of events.
pub uninterp spec fn xml_document(events: Seq<XmlEventView>) -> Seq<u8>;

/// A sequence of tokens ends the reading with its last token and not before.
pub open spec fn is_token_stream(tokens: Seq<XmlTokenView>) -> bool {
    &&& tokens.len() > 0
    &&& tokens.last().is_last()
    &&& forall|i: int| 0 <= i < tokens.len() - 1 ==> !(#[trigger] tokens[i]).is_last()
}

/// `quick_xml::Reader::from_str` with `trim_text` set. The reader hands out
/// the tokens of the text. A text is finite, and every token but the end of
/// the document takes some of it: so the tokens end, with the end of the
/// document or with a failure.
#[verifier::external_body]
pub(crate) fn open_reader(text: &str) -> (reader: quick_xml::Reader<&[u8]>)
    ensures
        pending_tokens(reader) == xml_tokens(text@),
        is_token_stream(pending_tokens(reader)),
{
    let mut reader = quick_xml::Reader::from_str(text);
    reader.config_mut().trim_text(true);
    reader
}

/// `quick_xml::Reader::read_event`: hands out the next token.
#[verifier::external_body]
pub(crate) fn next_token(reader: &mut quick_xml::Reader<&[u8]>) -> (token: XmlToken)
    requires
        pending_tokens(*old(reader)).len() > 0,
    ensures
        token@ == pending_tokens(*old(reader))[0],
        pending_tokens(*final(reader)) == pending_tokens(*old(reader)).drop_first(),
{
    match reader.read_event() {
        Ok(Event::Decl(_)) => XmlToken::Declaration,
        Ok(Event::Start(e)) => XmlToken::Start {
            content: e.to_vec(),
            name_length: e.name().as_ref().len(),
        },
        Ok(Event::End(e)) => XmlToken::End { name: e.name().as_ref().to_vec() },
        Ok(Event::Text(e)) => XmlToken::Text(e.to_vec()),
        Ok(Event::CData(e)) => XmlToken::CData(e.to_vec()),
        Ok(Event::Eof) => XmlToken::Eof,
        Ok(_) => XmlToken::Other,
        Err(e) => XmlToken::Failed(e.to_string()),
    }
}

/// `quick_xml::events::attributes::Attributes`: the attributes in the
/// content of a start tag behind the first `from` bytes, each as a pair or
/// with the reason why it is none. The content has to hold that many bytes.
#[verifier::external_body]
pub(crate) fn read_attributes(content: &str, from: usize) -> (r: Vec<XmlAttribute>)
    requires
        from <= vstd::utf8::encode_utf8(content@).len(),
    ensures
        attributes_view(r@) == xml_attributes(content@, from as int),
{
    Attributes::new(content, from).map(
        |a|
            match a {
                Ok(a) => XmlAttribute::Pair { key: a.key.as_ref().to_vec(), value: a.value.to_vec() },
                Err(e) => XmlAttribute::Malformed(e.to_string()),
            },
    ).collect()
}

/// `String::from_utf8_lossy`: the text that bytes encode; bytes that are
/// valid UTF-8 give their decoding.
#[verifier::external_body]
pub(crate) fn read_lossy(bytes: &[u8]) -> (r: String)
    ensures
        r@ == lossy_text(bytes@),
        vstd::utf8::valid_utf8(bytes@) ==> r@ == vstd::utf8::decode_utf8(bytes@),
{
    String::from_utf8_lossy(bytes).into_owned()
}

/// `quick_xml::escape::unescape`: the text with its references resolved,
/// or nothing where one cannot be resolved.
#[verifier::external_body]
pub(crate) fn read_unescaped(raw: &str) -> (r: Option<String>)
    ensures
        text_of(r) == unescaped(raw@),
{
    quick_xml::escape::unescape(raw).ok().map(|t| t.into_owned())
}

/// `quick_xml::Writer::new_with_indent` over an empty buffer, indenting by
/// two blanks.
#[verifier::external_body]
pub(crate) fn open_writer() -> (writer: quick_xml::Writer<Vec<u8>>)
    ensures
        written_events(writer) == Seq::<XmlEventView>::empty(),
{
    quick_xml::Writer::new_with_indent(Vec::new(), b' ', 2)
}

/// `quick_xml::Writer::write_event` with the declaration of version 1.0 in
/// UTF-8. The writer fails only where its sink does, and a buffer of bytes
/// takes all that is written to it.
#[verifier::external_body]
pub(crate) fn write_declaration(writer: &mut quick_xml::Writer<Vec<u8>>) -> (r: Result<(), String>)
    ensures
        r is Ok,
        written_events(*final(writer)) == written_events(*old(writer)).push(
            XmlEventView::Declaration,
        ),
{
    writer.write_event(Event::Decl(BytesDecl::new("1.0", Some("UTF-8"), None))).map_err(
        |e| e.to_string(),
    )
}

/// The attribute that a key and a value make.
pub open spec fn pair_of(key: Seq<char>, value: Seq<char>) -> XmlAttributeView {
    XmlAttributeView::Pair {
        key: vstd::utf8::encode_utf8(key),
        value: vstd::utf8::encode_utf8(value),
    }
}

/// The attributes that a list of keys with values makes.
pub open spec fn pairs_view(v: Seq<(String, String)>) -> Seq<XmlAttributeView> {
    v.map_values(|p: (String, String)| pair_of(p.0@, p.1@))
}

/// `quick_xml::Writer::write_event` with a start tag of the given name and
/// attributes. The writer fails only where its sink does, and a buffer of
/// bytes takes all that is written to it.
#[verifier::external_body]
pub(crate) fn write_start(
    writer: &mut quick_xml::Writer<Vec<u8>>,
    name: &str,
    attributes: &Vec<(String, String)>,
) -> (r: Result<(), String>)
    ensures
        r is Ok,
        written_events(*final(writer)) == written_events(*old(writer)).push(
            XmlEventView::Start {
                name: vstd::utf8::encode_utf8(name@),
                attributes: pairs_view(attributes@),
            },
        ),
{
    let tag = BytesStart::new(name).with_attributes(
        attributes.iter().map(|a| (a.0.as_str(), a.1.as_str())),
    );
    writer.write_event(Event::Start(tag)).map_err(|e| e.to_string())
}

/// `quick_xml::Writer::write_event` with character data, which the
/// writer escapes. It fails only where its sink does, and a buffer of bytes
/// takes all that is written to it.
#[verifier::external_body]
pub(crate) fn write_text(writer: &mut quick_xml::Writer<Vec<u8>>, text: &str) -> (r: Result<
    (),
    String,
>)
    ensures
        r is Ok,
        written_events(*final(writer)) == written_events(*old(writer)).push(
            XmlEventView::Text(text@),
        ),
{
    writer.write_event(Event::Text(BytesText::new(text))).map_err(|e| e.to_string())
}

/// `quick_xml::Writer::write_event` with an end tag of the given name. The
/// writer fails only where its sink does, and a buffer of bytes takes all
/// that is written to it.
#[verifier::external_body]
pub(crate) fn write_end(writer: &mut quick_xml::Writer<Vec<u8>>, name: &str) -> (r: Result<
    (),
    String,
>)
    ensures
        r is Ok,
        written_events(*final(writer)) == written_events(*old(writer)).push(
            XmlEventView::End { name: vstd::utf8::encode_utf8(name@) },
        ),
{
    writer.write_event(Event::End(BytesEnd::new(name))).map_err(|e| e.to_string())
}

/// `quick_xml::Writer::into_inner`: the document made of the events given.
#[verifier::external_body]
pub(crate) fn close_writer(writer: quick_xml::Writer<Vec<u8>>) -> (r: Vec<u8>)
    ensures
        r@ == xml_document(written_events(writer)),
{
    writer.into_inner()
}

/// The length of the qualified name of a start tag, held within its content.
pub open spec fn name_end(content: Seq<u8>, name_length: int) -> int {
    if 0 <= name_length <= content.len() {
        name_length
    } else {
        content.len() as int
    }
}

/// The attributes of a start tag with the given content. Content that is no
/// UTF-8 has one attribute, which is none.
pub open spec fn attributes_of(content: Seq<u8>, name_length: int) -> Seq<XmlAttributeView> {
    if vstd::utf8::valid_utf8(content) {
        xml_attributes(vstd::utf8::decode_utf8(content), name_end(content, name_length))
    } else {
        seq![XmlAttributeView::Malformed("Invalid attribute encoding"@)]
    }
}

/// The text that character data between tags states: its references
/// resolved, as the writer escaped them; where one cannot be resolved, the
/// data as they stand.
pub open spec fn text_of_data(raw: Seq<char>) -> Seq<char> {
    match unescaped(raw) {
        Some(t) => t,
        None => raw,
    }
}

/// The event that a token stands for: a start tag with its name and its
/// attributes apart, character data as text with its references resolved.
pub open spec fn event_of_token(token: XmlTokenView) -> XmlEventView {
    match token {
        XmlTokenView::Declaration => XmlEventView::Declaration,
        XmlTokenView::Start { content, name_length } => XmlEventView::Start {
            name: content.take(name_end(content, name_length)),
            attributes: attributes_of(content, name_length),
        },
        XmlTokenView::End { name } => XmlEventView::End { name },
        XmlTokenView::Text(t) => XmlEventView::Text(text_of_data(lossy_text(t))),
        XmlTokenView::CData(t) => XmlEventView::CData(lossy_text(t)),
        XmlTokenView::Eof => XmlEventView::Eof,
        XmlTokenView::Failed(m) => XmlEventView::Failed(m),
        XmlTokenView::Other => XmlEventView::Other,
    }
}

/// The events that a sequence of tokens stands for.
pub open spec fn events_of_tokens(tokens: Seq<XmlTokenView>) -> Seq<XmlEventView> {
    tokens.map_values(|t: XmlTokenView| event_of_token(t))
}

/// The events of a document: those that its tokens stand for.
pub open spec fn events_of_text(text: Seq<char>) -> Seq<XmlEventView> {
    events_of_tokens(xml_tokens(text))
}

/// The first `n` bytes of `v`.
fn first_bytes(v: &Vec<u8>, n: usize) -> (r: Vec<u8>)
    requires
        n <= v.len(),
    ensures
        r@ == v@.take(n as int),
{
    let mut r: Vec<u8> = Vec::new();
    let mut i: usize = 0;
    while i < n
        invariant
            i <= n <= v.len(),
            r@ == v@.take(i as int),
        decreases n - i,
    {
        r.push(v[i]);
        i += 1;
        assert(v@.take(i as int) =~= v@.take(i - 1).push(v@[i - 1]));
    }
    r
}

/// The event that a token stands for.
fn event_from(token: XmlToken) -> (event: XmlEvent)
    ensures
        event@ == event_of_token(token@),
{
    match token {
        XmlToken::Declaration => XmlEvent::Declaration,
        XmlToken::Start { content, name_length } => {
            let end = if name_length <= content.len() {
                name_length
            } else {
                content.len()
            };
            let name = first_bytes(&content, end);
            let attributes = match utf8_text(content.as_slice()) {
                Some(text) => {
                    proof {
                        vstd::utf8::decode_utf8_encode_utf8(content@);
                    }
                    read_attributes(text, end)
                },
                None => {
                    let mut v: Vec<XmlAttribute> = Vec::new();
                    v.push(XmlAttribute::Malformed("Invalid attribute encoding".to_owned()));
                    assert(attributes_view(v@) =~= seq![
                        XmlAttributeView::Malformed("Invalid attribute encoding"@),
                    ]);
                    v
                },
            };
            XmlEvent::Start { name, attributes }
        },
        XmlToken::End { name } => XmlEvent::End { name },
        XmlToken::Text(t) => {
            let raw = read_lossy(t.as_slice());
            match read_unescaped(raw.as_str()) {
                Some(text) => XmlEvent::Text(text),
                None => XmlEvent::Text(raw),
            }
        },
        XmlToken::CData(t) => XmlEvent::CData(read_lossy(t.as_slice())),
        XmlToken::Eof => XmlEvent::Eof,
        XmlToken::Failed(m) => XmlEvent::Failed(m),
        XmlToken::Other => XmlEvent::Other,
    }
}

/// The events of the document in `text`, up to and with the end of the
/// document or the first failure.
pub fn read_events(text: &str) -> (events: Vec<XmlEvent>)
    ensures
        events_view(events@) == events_of_text(text@),
{
    let mut reader = open_reader(text);
    let ghost all = xml_tokens(text@);
    let mut events: Vec<XmlEvent> = Vec::new();
    let mut done = false;
    assert(events_view(events@) =~= events_of_tokens(all.take(0)));
    assert(all.skip(0) =~= all);
    while !done
        invariant
            all == xml_tokens(text@),
            is_token_stream(all),
            events.len() <= all.len(),
            pending_tokens(reader) == all.skip(events.len() as int),
            events_view(events@) == events_of_tokens(all.take(events.len() as int)),
            done ==> events.len() == all.len(),
            !done ==> events.len() < all.len(),
        decreases all.len() - events.len() + (if done { 0int } else { 1int }),
    {
        let ghost n = events.len() as int;
        let ghost before = events_view(events@);
        let token = next_token(&mut reader);
        assert(token@ == all[n]);
        assert(all.skip(n).drop_first() =~= all.skip(n + 1));
        done = match &token {
            XmlToken::Eof => true,
            XmlToken::Failed(_) => true,
            _ => false,
        };
        let event = event_from(token);
        events.push(event);
        proof {
            assert(events_view(events@) =~= before.push(event@));
            assert(events_of_tokens(all.take(n + 1)) =~= events_of_tokens(all.take(n)).push(
                event_of_token(all[n]),
            ));
            if done {
                assert(all[n].is_last());
                assert(n == all.len() - 1);
            } else {
                assert(!all[n].is_last());
                assert(n != all.len() - 1);
            }
        }
    }
    assert(all.take(events.len() as int) =~= all);
    events
}

/// An attribute that can be written: a key with a value, both of them
/// UTF-8.
pub open spec fn is_text_pair(attribute: XmlAttributeView) -> bool {
    attribute matches XmlAttributeView::Pair { key, value } && vstd::utf8::valid_utf8(key)
        && vstd::utf8::valid_utf8(value)
}

/// Every attribute of the list can be written.
pub open spec fn are_text_pairs(attributes: Seq<XmlAttributeView>) -> bool {
    forall|i: int| 0 <= i < attributes.len() ==> is_text_pair(#[trigger] attributes[i])
}

/// The keys and values of attributes as texts, where all of them are pairs
/// of UTF-8: as many as there are attributes, in their order, each key and
/// each value decoded.
fn attribute_texts(attributes: &Vec<XmlAttribute>) -> (r: Option<Vec<(String, String)>>)
    ensures
        r is Some <==> are_text_pairs(attributes_view(attributes@)),
        r matches Some(pairs) ==> pairs_view(pairs@) == attributes_view(attributes@),
        r matches Some(pairs) ==> pairs.len() == attributes.len(),
{
    let ghost all = attributes_view(attributes@);
    let mut pairs: Vec<(String, String)> = Vec::new();
    let mut i: usize = 0;
    assert(pairs_view(pairs@) =~= attributes_view(attributes@.take(0)));
    while i < attributes.len()
        invariant
            i <= attributes.len(),
            all == attributes_view(attributes@),
            pairs.len() == i,
            pairs_view(pairs@) == attributes_view(attributes@.take(i as int)),
            forall|k: int| 0 <= k < i ==> is_text_pair(#[trigger] all[k]),
        decreases attributes.len() - i,
    {
        let ghost before = pairs_view(pairs@);
        assert(all[i as int] == attributes@[i as int]@);
        match &attributes[i] {
            XmlAttribute::Pair { key, value } => {
                let k = match utf8_text(key.as_slice()) {
                    Some(t) => t,
                    None => {
                        return None;
                    },
                };
                let v = match utf8_text(value.as_slice()) {
                    Some(t) => t,
                    None => {
                        return None;
                    },
                };
                pairs.push((k.to_owned(), v.to_owned()));
                proof {
                    vstd::utf8::decode_utf8_encode_utf8(key@);
                    vstd::utf8::decode_utf8_encode_utf8(value@);
                }
                assert(pair_of(k@, v@) == attributes@[i as int]@);
                assert(pairs_view(pairs@) =~= before.push(pair_of(k@, v@)));
            },
            XmlAttribute::Malformed(_) => {
                return None;
            },
        }
        i += 1;
        assert(attributes_view(attributes@.take(i as int)) =~= attributes_view(
            attributes@.take(i - 1),
        ).push(attributes@[i - 1]@));
    }
    assert(attributes@.take(i as int) =~= attributes@);
    Some(pairs)
}

/// An event that can be written: a declaration, a text, or a tag whose
/// name and attributes are UTF-8.
pub open spec fn is_writable(event: XmlEventView) -> bool {
    match event {
        XmlEventView::Declaration => true,
        XmlEventView::Text(_) => true,
        XmlEventView::Start { name, attributes } => vstd::utf8::valid_utf8(name) && are_text_pairs(
            attributes,
        ),
        XmlEventView::End { name } => vstd::utf8::valid_utf8(name),
        _ => false,
    }
}

/// Every event of the sequence can be written.
pub open spec fn are_writable(events: Seq<XmlEventView>) -> bool {
    forall|i: int| 0 <= i < events.len() ==> is_writable(#[trigger] events[i])
}

/// The document that the events make. It is made where every event can be
/// written, and only there.
pub fn render(events: &Vec<XmlEvent>) -> (r: Result<Vec<u8>, ParseError>)
    ensures
        r is Ok <==> are_writable(events_view(events@)),
        match r {
            Ok(bytes) => bytes@ == xml_document(events_view(events@)),
            Err(e) => e@ == crate::error::ErrorView::Camt053Error(
                "Failed to write: not a part of a document"@,
            ),
        },
{
    let ghost all = events_view(events@);
    let mut writer = open_writer();
    let mut i: usize = 0;
    assert(events_view(events@.take(0)) =~= Seq::<XmlEventView>::empty());
    while i < events.len()
        invariant
            i <= events.len(),
            all == events_view(events@),
            written_events(writer) == events_view(events@.take(i as int)),
            forall|k: int| 0 <= k < i ==> is_writable(#[trigger] all[k]),
        decreases events.len() - i,
    {
        assert(all[i as int] == events@[i as int]@);
        match &events[i] {
            XmlEvent::Declaration => {
                let _ = write_declaration(&mut writer);
            },
            XmlEvent::Start { name, attributes } => {
                let tag = utf8_text(name.as_slice());
                let pairs = attribute_texts(attributes);
                match (tag, pairs) {
                    (Some(t), Some(p)) => {
                        proof {
                            vstd::utf8::decode_utf8_encode_utf8(name@);
                        }
                        let _ = write_start(&mut writer, t, &p);
                    },
                    _ => {
                        assert(!is_writable(all[i as int]));
                        return Err(
                            ParseError::Camt053Error(
                                "Failed to write: not a part of a document".to_owned(),
                            ),
                        );
                    },
                }
            },
            XmlEvent::End { name } => {
                match utf8_text(name.as_slice()) {
                    Some(t) => {
                        proof {
                            vstd::utf8::decode_utf8_encode_utf8(name@);
                        }
                        let _ = write_end(&mut writer, t);
                    },
                    None => {
                        assert(!is_writable(all[i as int]));
                        return Err(
                            ParseError::Camt053Error(
                                "Failed to write: not a part of a document".to_owned(),
                            ),
                        );
                    },
                }
            },
            XmlEvent::Text(t) => {
                let _ = write_text(&mut writer, t.as_str());
            },
            _ => {
                assert(!is_writable(all[i as int]));
                return Err(
                    ParseError::Camt053Error("Failed to write: not a part of a document".to_owned()),
                );
            },
        }
        i += 1;
        assert(events_view(events@.take(i as int)) =~= events_view(events@.take(i - 1)).push(
            events@[i - 1]@,
        ));
    }
    assert(events@.take(i as int) =~= events@);
    Ok(close_writer(writer))
}

} // verus!
