//! Reading an XML document with `quick_xml`, one event at a time. The reader over a byte
//! slice is deterministic: the `n`-th event that it yields, and how it resolves an element
//! name after `n` events, depend on the bytes and `n` alone, and are named here.
use quick_xml::events::Event;
use quick_xml::name::{QName, ResolveResult};
use quick_xml::NsReader;
use vstd::prelude::*;

verus! {

/// The XML reader of `quick_xml`.
#[verifier::external_type_specification]
#[verifier::external_body]
#[verifier::reject_recursive_types(R)]
pub struct ExNsReader<R>(NsReader<R>);

/// The namespace that an element name resolved to.
pub enum XmlNamespace {
    Unbound,
    Bound(Vec<u8>),
    Unknown(Vec<u8>),
}

/// Value of [`XmlNamespace`] in specifications.
pub enum XmlNamespaceV {
    Unbound,
    Bound(Seq<u8>),
    Unknown(Seq<u8>),
}

impl View for XmlNamespace {
    type V = XmlNamespaceV;

    open spec fn view(&self) -> XmlNamespaceV {
        match self {
            XmlNamespace::Unbound => XmlNamespaceV::Unbound,
            XmlNamespace::Bound(b) => XmlNamespaceV::Bound(b@),
            XmlNamespace::Unknown(b) => XmlNamespaceV::Unknown(b@),
        }
    }
}

/// An XML event as read, element names not yet resolved.
pub enum XmlEvent {
    Start(Vec<u8>),
    Empty(Vec<u8>),
    End,
    Text(Vec<u8>),
    CData,
    Comment,
    Decl,
    PI,
    DocType,
    Eof,
    Error,
}

/// Value of [`XmlEvent`] in specifications.
pub enum XmlEventV {
    Start(Seq<u8>),
    Empty(Seq<u8>),
    End,
    Text(Seq<u8>),
    CData,
    Comment,
    Decl,
    PI,
    DocType,
    Eof,
    Error,
}

impl View for XmlEvent {
    type V = XmlEventV;

    open spec fn view(&self) -> XmlEventV {
        match self {
            XmlEvent::Start(n) => XmlEventV::Start(n@),
            XmlEvent::Empty(n) => XmlEventV::Empty(n@),
            XmlEvent::End => XmlEventV::End,
            XmlEvent::Text(t) => XmlEventV::Text(t@),
            XmlEvent::CData => XmlEventV::CData,
            XmlEvent::Comment => XmlEventV::Comment,
            XmlEvent::Decl => XmlEventV::Decl,
            XmlEvent::PI => XmlEventV::PI,
            XmlEvent::DocType => XmlEventV::DocType,
            XmlEvent::Eof => XmlEventV::Eof,
            XmlEvent::Error => XmlEventV::Error,
        }
    }
}

/// The event that `NsReader::read_event` yields as its `n`-th call (counting from zero) on
/// a reader made by `NsReader::from_reader` over `input`.
pub uninterp spec fn xml_raw_event(input: Seq<u8>, n: nat) -> XmlEventV;

/// What `NsReader::resolve_element` gives for the qualified element name `name` on a
/// reader over `input` after `n` calls of `read_event`.
pub uninterp spec fn xml_resolved(input: Seq<u8>, n: nat, name: Seq<u8>) -> (XmlNamespaceV, Seq<u8>);

/// A reader over some bytes, and how many events it has yielded. Only the functions of
/// this module make or advance one.
pub struct XmlReader<'a> {
    reader: NsReader<&'a [u8]>,
    input: Ghost<Seq<u8>>,
    count: Ghost<nat>,
}

impl<'a> XmlReader<'a> {
    /// The bytes that the reader reads.
    pub closed spec fn input(&self) -> Seq<u8> {
        self.input@
    }

    /// How many events the reader has yielded.
    pub closed spec fn count(&self) -> nat {
        self.count@
    }
}

/// Calls `NsReader::from_reader` on the bytes: a reader that has yielded nothing yet.
#[verifier::external_body]
pub fn xml_reader<'a>(input: &'a [u8]) -> (r: XmlReader<'a>)
    ensures
        r.input() == input@,
        r.count() == 0,
{
    XmlReader { reader: NsReader::from_reader(input), input: Ghost(input@), count: Ghost(0) }
}

/// Calls `NsReader::read_event` and converts the event; an element keeps its qualified
/// name. The event is the reader's next one, [`xml_raw_event`] of its bytes and count.
#[verifier::external_body]
pub fn next_xml_event(reader: &mut XmlReader) -> (r: XmlEvent)
    ensures
        final(reader).input() == old(reader).input(),
        final(reader).count() == old(reader).count() + 1,
        r@ == xml_raw_event(old(reader).input(), old(reader).count()),
{
    match reader.reader.read_event() {
        Ok(Event::Start(tag)) => XmlEvent::Start(tag.name().as_ref().to_vec()),
        Ok(Event::Empty(tag)) => XmlEvent::Empty(tag.name().as_ref().to_vec()),
        Ok(Event::End(_)) => XmlEvent::End,
        Ok(Event::Text(text)) => XmlEvent::Text(text.to_vec()),
        Ok(Event::CData(_)) => XmlEvent::CData,
        Ok(Event::Comment(_)) => XmlEvent::Comment,
        Ok(Event::Decl(_)) => XmlEvent::Decl,
        Ok(Event::PI(_)) => XmlEvent::PI,
        Ok(Event::DocType(_)) => XmlEvent::DocType,
        Ok(Event::Eof) => XmlEvent::Eof,
        Err(_) => XmlEvent::Error,
    }
}

/// Calls `NsReader::resolve_element` on a qualified element name and converts the
/// namespace and local name: [`xml_resolved`] of the reader's bytes, count and the name.
#[verifier::external_body]
pub fn resolve_element_name(reader: &XmlReader, name: &[u8]) -> (r: (XmlNamespace, Vec<u8>))
    ensures
        (r.0@, r.1@) == xml_resolved(reader.input(), reader.count(), name@),
{
    let (namespace, local) = reader.reader.resolve_element(QName(name));
    let namespace = match namespace {
        ResolveResult::Unbound => XmlNamespace::Unbound,
        ResolveResult::Bound(ns) => XmlNamespace::Bound(ns.as_ref().to_vec()),
        ResolveResult::Unknown(prefix) => XmlNamespace::Unknown(prefix),
    };
    (namespace, local.as_ref().to_vec())
}

} // verus!
