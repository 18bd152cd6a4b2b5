//! Reads the events of an XML text with `quick_xml`.

use vstd::prelude::*;
use vstd::string::*;

use crate::parse::xml_tree::{attrs_view, items_of, XmlEvent, XmlItem};

verus! {

/// A reader of `quick_xml`.
#[verifier::external_type_specification]
#[verifier::external_body]
#[verifier::reject_recursive_types(R)]
pub struct ExXmlReader<R>(quick_xml::Reader<R>);

/// An event of `quick_xml`.
#[verifier::external_type_specification]
#[verifier::external_body]
pub struct ExXmlEvent<'a>(quick_xml::events::Event<'a>);

/// What kind of event it is, with its name or text.
#[derive(Debug, PartialEq, Eq)]
pub enum XmlHead {
    Start(String),
    End,
    Text(String),
    CData(String),
    /// A reference: see `XmlRef`.
    Reference,
    Other,
    Eof,
}

/// The mathematical model of an `XmlHead`.
pub enum HeadView {
    Start(Seq<char>),
    End,
    Text(Seq<char>),
    CData(Seq<char>),
    Reference,
    Other,
    Eof,
}

impl XmlHead {
    /// The mathematical model of the value.
    pub open spec fn view(&self) -> HeadView {
        match self {
            XmlHead::Start(name) => HeadView::Start(name@),
            XmlHead::End => HeadView::End,
            XmlHead::Text(t) => HeadView::Text(t@),
            XmlHead::CData(t) => HeadView::CData(t@),
            XmlHead::Reference => HeadView::Reference,
            XmlHead::Other => HeadView::Other,
            XmlHead::Eof => HeadView::Eof,
        }
    }
}

/// What a reference refers to: a character, or an entity by its name.
#[derive(Debug, PartialEq, Eq)]
pub enum XmlRef {
    Char(char),
    Entity(String),
}

/// The mathematical model of an `XmlRef`.
pub enum RefView {
    Char(char),
    Entity(Seq<char>),
}

impl XmlRef {
    /// The mathematical model of the value.
    pub open spec fn view(&self) -> RefView {
        match self {
            XmlRef::Char(c) => RefView::Char(*c),
            XmlRef::Entity(name) => RefView::Entity(name@),
        }
    }
}

/// What an event of `quick_xml` holds, in plain values: its kind with its
/// name or text, its attributes, and what it refers to. Each is the value
/// or the message of the error that reading it gives.
pub struct XmlRaw {
    pub head: Result<HeadView, Seq<char>>,
    pub attrs: Result<Seq<(Seq<char>, Seq<char>)>, Seq<char>>,
    pub reference: Result<RefView, Seq<char>>,
}

/// What an event holds.
pub uninterp spec fn xml_raw(e: quick_xml::events::Event) -> XmlRaw;

/// What a reader has yet to hand out: the results of its next calls of
/// `read_event`, up to and with the first that is the end of the text or an
/// error. An event stands for what it holds, an error for its message.
pub uninterp spec fn xml_pending(reader: quick_xml::Reader<&[u8]>) -> Seq<
    Result<XmlRaw, Seq<char>>,
>;

/// What a new reader on a text has to hand out, with empty elements read as
/// a start and an end tag.
pub uninterp spec fn xml_source(text: Seq<char>) -> Seq<Result<XmlRaw, Seq<char>>>;

/// The result is the end of the text or an error.
pub open spec fn is_last(raw: Result<XmlRaw, Seq<char>>) -> bool {
    match raw {
        Ok(x) => x.head == Ok::<HeadView, Seq<char>>(HeadView::Eof),
        Err(_) => true,
    }
}

/// `quick_xml::Reader::from_str`, with `expand_empty_elements` set.
#[verifier::external_body]
fn xml_reader<'a>(data: &'a str) -> (r: quick_xml::Reader<&'a [u8]>)
    ensures
        xml_pending(r) == xml_source(data@),
{
    let mut reader = quick_xml::Reader::from_str(data);
    reader.config_mut().expand_empty_elements = true;
    reader
}

/// `quick_xml::Reader::read_event`, with the error as its message. The
/// reader hands out the first of what it has yet to hand out, and goes on
/// to the rest unless that was the last.
#[verifier::external_body]
fn xml_next<'a>(reader: &mut quick_xml::Reader<&'a [u8]>) -> (r: Result<
    quick_xml::events::Event<'a>,
    String,
>)
    ensures
        xml_pending(*old(reader)).len() > 0,
        match r {
            Ok(e) => xml_pending(*old(reader))[0] == Ok::<XmlRaw, Seq<char>>(xml_raw(e)),
            Err(m) => xml_pending(*old(reader))[0] == Err::<XmlRaw, Seq<char>>(m@),
        },
        is_last(xml_pending(*old(reader))[0]) == (xml_pending(*old(reader)).len() == 1),
        xml_pending(*old(reader)).len() > 1 ==> xml_pending(*final(reader)) == xml_pending(
            *old(reader),
        ).drop_first(),
{
    reader.read_event().map_err(|e| e.to_string())
}

/// Tells the variants of an event apart. A start tag is handed out with its
/// name (`BytesStart::name`) as text, character data and a character data
/// section with their decoded text (`decode`); an error of either as its
/// message.
#[verifier::external_body]
fn xml_head(e: &quick_xml::events::Event) -> (r: Result<XmlHead, String>)
    ensures
        match r {
            Ok(head) => xml_raw(*e).head == Ok::<HeadView, Seq<char>>(head@),
            Err(m) => xml_raw(*e).head == Err::<HeadView, Seq<char>>(m@),
        },
{
    Ok(match e {
        quick_xml::events::Event::Start(s) => XmlHead::Start(
            String::from_utf8(s.name().into_inner().to_vec()).map_err(|x| x.to_string())?,
        ),
        quick_xml::events::Event::End(_) => XmlHead::End,
        quick_xml::events::Event::Text(t) => XmlHead::Text(
            t.decode().map_err(|x| x.to_string())?.into_owned(),
        ),
        quick_xml::events::Event::CData(t) => XmlHead::CData(
            t.decode().map_err(|x| x.to_string())?.into_owned(),
        ),
        quick_xml::events::Event::GeneralRef(_) => XmlHead::Reference,
        quick_xml::events::Event::Eof => XmlHead::Eof,
        _ => XmlHead::Other,
    })
}

/// `BytesStart::attributes` of a start tag, collected: each attribute with
/// its name and its raw value as text; the first error as its message. Any
/// other event has no attributes.
#[verifier::external_body]
fn xml_attributes(e: &quick_xml::events::Event) -> (r: Result<Vec<(String, String)>, String>)
    ensures
        match r {
            Ok(list) => xml_raw(*e).attrs == Ok::<Seq<(Seq<char>, Seq<char>)>, Seq<char>>(
                attrs_view(list@),
            ),
            Err(m) => xml_raw(*e).attrs == Err::<Seq<(Seq<char>, Seq<char>)>, Seq<char>>(m@),
        },
{
    match e {
        quick_xml::events::Event::Start(s) => s.attributes().map(|a| {
            let a = a.map_err(|x| x.to_string())?;
            let key = String::from_utf8(a.key.into_inner().to_vec()).map_err(|x| x.to_string())?;
            let value = String::from_utf8(a.value.to_vec()).map_err(|x| x.to_string())?;
            Ok((key, value))
        }).collect(),
        _ => Ok(Vec::new()),
    }
}

/// `BytesRef::resolve_char_ref` of a reference, and `BytesRef::decode` where
/// it is no reference to a character; an error of either as its message.
/// Any other event refers to an entity without a name.
#[verifier::external_body]
fn xml_reference(e: &quick_xml::events::Event) -> (r: Result<XmlRef, String>)
    ensures
        match r {
            Ok(reference) => xml_raw(*e).reference == Ok::<RefView, Seq<char>>(reference@),
            Err(m) => xml_raw(*e).reference == Err::<RefView, Seq<char>>(m@),
        },
{
    match e {
        quick_xml::events::Event::GeneralRef(r) => Ok(
            match r.resolve_char_ref().map_err(|x| x.to_string())? {
                Some(c) => XmlRef::Char(c),
                None => XmlRef::Entity(r.decode().map_err(|x| x.to_string())?.into_owned()),
            },
        ),
        _ => Ok(XmlRef::Entity(String::new())),
    }
}

/// The plain event of what a reader handed out.
pub open spec fn plain(raw: Result<XmlRaw, Seq<char>>) -> XmlItem {
    match raw {
        Err(m) => XmlItem::Failed(m),
        Ok(x) => match x.head {
            Err(m) => XmlItem::Failed(m),
            Ok(HeadView::Start(name)) => XmlItem::Start(name, x.attrs),
            Ok(HeadView::End) => XmlItem::End,
            Ok(HeadView::Text(t)) => XmlItem::Text(t),
            Ok(HeadView::CData(t)) => XmlItem::CData(t),
            Ok(HeadView::Reference) => match x.reference {
                Err(m) => XmlItem::Failed(m),
                Ok(RefView::Char(c)) => XmlItem::CharRef(c),
                Ok(RefView::Entity(name)) => XmlItem::EntityRef(name),
            },
            Ok(HeadView::Other) => XmlItem::Other,
            Ok(HeadView::Eof) => XmlItem::Eof,
        },
    }
}

/// The plain events of what a reader hands out, up to and with the first
/// that is the end of the text or a failure.
pub open spec fn plain_events(raws: Seq<Result<XmlRaw, Seq<char>>>) -> Seq<XmlItem>
    decreases raws.len(),
{
    if raws.len() == 0 {
        Seq::empty()
    } else if plain(raws[0]) is Eof || plain(raws[0]) is Failed {
        seq![plain(raws[0])]
    } else {
        seq![plain(raws[0])] + plain_events(raws.drop_first())
    }
}

/// The plain events of an XML text.
pub open spec fn xml_event_list(text: Seq<char>) -> Seq<XmlItem> {
    plain_events(xml_source(text))
}

/// Reads the next event of a reader as a plain event.
fn next_event(reader: &mut quick_xml::Reader<&[u8]>) -> (event: XmlEvent)
    ensures
        xml_pending(*old(reader)).len() > 0,
        event@ == plain(xml_pending(*old(reader))[0]),
        !(event@ is Eof || event@ is Failed) ==> xml_pending(*old(reader)).len() > 1
            && xml_pending(*final(reader)) == xml_pending(*old(reader)).drop_first(),
{
    let e = match xml_next(reader) {
        Ok(e) => e,
        Err(m) => {
            return XmlEvent::Failed(m);
        },
    };
    let head = match xml_head(&e) {
        Ok(head) => head,
        Err(m) => {
            return XmlEvent::Failed(m);
        },
    };
    match head {
        XmlHead::Start(name) => XmlEvent::Start(name, xml_attributes(&e)),
        XmlHead::End => XmlEvent::End,
        XmlHead::Text(t) => XmlEvent::Text(t),
        XmlHead::CData(t) => XmlEvent::CData(t),
        XmlHead::Reference => match xml_reference(&e) {
            Ok(XmlRef::Char(c)) => XmlEvent::CharRef(c),
            Ok(XmlRef::Entity(name)) => XmlEvent::EntityRef(name),
            Err(m) => XmlEvent::Failed(m),
        },
        XmlHead::Other => XmlEvent::Other,
        XmlHead::Eof => XmlEvent::Eof,
    }
}

/// Reads the events of an XML text, up to and with the end of the text or
/// the first failure.
pub fn read_events(data: &str) -> (events: Vec<XmlEvent>)
    ensures
        items_of(events@) == xml_event_list(data@),
{
    let mut reader = xml_reader(data);
    let mut events: Vec<XmlEvent> = Vec::new();
    let mut done = false;
    assert(items_of(events@) =~= Seq::<XmlItem>::empty());
    assert(Seq::<XmlItem>::empty() + plain_events(xml_pending(reader)) =~= xml_event_list(data@));
    while !done
        invariant
            !done ==> items_of(events@) + plain_events(xml_pending(reader)) == xml_event_list(data@),
            done ==> items_of(events@) == xml_event_list(data@),
        decreases
                (if done {
                    0nat
                } else {
                    1nat
                }),
                xml_pending(reader).len(),
    {
        let ghost before = items_of(events@);
        let ghost pending = xml_pending(reader);
        let event = next_event(&mut reader);
        if is_stop(&event) {
            done = true;
        }
        events.push(event);
        proof {
            assert(items_of(events@) =~= before.push(event@));
            if done {
                assert(plain_events(pending) == seq![event@]);
                assert(before + seq![event@] =~= before.push(event@));
            } else {
                assert(plain_events(pending) == seq![event@] + plain_events(
                    pending.drop_first(),
                ));
                assert(before + (seq![event@] + plain_events(pending.drop_first()))
                    =~= before.push(event@) + plain_events(pending.drop_first()));
            }
        }
    }
    events
}

fn is_stop(event: &XmlEvent) -> (r: bool)
    ensures
        r == (event@ is Eof || event@ is Failed),
{
    match event {
        XmlEvent::Eof => true,
        XmlEvent::Failed(_) => true,
        _ => false,
    }
}

} // verus!
