//! The XML tokenizer boundary: the calls into `quick_xml` that the
//! document parsers make, the plain event values they are turned into,
//! and the attribute and subtree helpers the parsers share.

use vstd::prelude::*;
use quick_xml::events::attributes::{Attribute, Attributes};
use quick_xml::events::{BytesStart, Event};
use quick_xml::events::Event::{CData, Comment, Decl, DocType, Empty, End, Eof, GeneralRef, Start, Text, PI};
use quick_xml::Reader;
use vstd::string::*;
use crate::error::DvcError;
use crate::text::{
    eq_ignore_case, int_error_kind, int_error_kind_of, int_error_message, int_error_text,
    parse_i32, parse_i32_spec, parse_u32, parse_u32_spec, str_eq, str_eq_ignore_case, trim,
    trim_str, IntErrorKind,
};

verus! {

// ---------------------------------------------------------------------------
// The tokenizer's types and calls
// ---------------------------------------------------------------------------

/// The tokenizer's error type, carried through opaquely.
#[verifier::external_type_specification]
#[verifier::external_body]
pub struct ExXmlError(quick_xml::Error);

/// The tokenizer itself.
#[verifier::external_type_specification]
#[verifier::external_body]
#[verifier::reject_recursive_types(R)]
pub struct ExReader<R>(quick_xml::Reader<R>);

/// A start or empty tag as the tokenizer returns it.
#[verifier::external_type_specification]
#[verifier::external_body]
pub struct ExBytesStart<'a>(quick_xml::events::BytesStart<'a>);

/// The attribute iterator of a tag.
#[verifier::external_type_specification]
#[verifier::external_body]
pub struct ExAttributes<'a>(quick_xml::events::attributes::Attributes<'a>);

/// The error malformed attribute syntax raises.
#[verifier::external_type_specification]
#[verifier::external_body]
pub struct ExAttrError(quick_xml::events::attributes::AttrError);

/// One attribute of a tag.
#[verifier::external_type_specification]
#[verifier::external_body]
pub struct ExAttribute<'a>(quick_xml::events::attributes::Attribute<'a>);

// ---------------------------------------------------------------------------
// What the tokenizer reads from given bytes
// ---------------------------------------------------------------------------

/// The kind of an event `Reader::read_event` returns, with the strings
/// of end tags, text, CDATA and references.
pub enum ReadV {
    Start,
    Empty,
    End(Seq<char>, Seq<char>),
    Text(Seq<char>),
    CData(Seq<char>),
    GeneralRef(Seq<char>),
    Eof,
    Other,
}

/// What one call of `Attributes::next` gives: the end of the list, an
/// attribute, or the text of the error malformed syntax raises.
pub enum AttrStep {
    End,
    Attr,
    Malformed(Seq<char>),
}

/// What the `k`-th call of `Reader::read_event` returns, on a reader
/// over `src` made by `open_reader` with `trim`: `None` for an error.
pub uninterp spec fn xml_read_at(src: Seq<u8>, trim: bool, k: nat) -> Option<ReadV>;

/// `BytesStart::name` of the tag the `k`-th `read_event` returned.
pub uninterp spec fn xml_tag_qname(src: Seq<u8>, trim: bool, k: nat) -> Seq<char>;

/// `BytesStart::local_name` of the tag the `k`-th `read_event` returned.
pub uninterp spec fn xml_tag_local_name(src: Seq<u8>, trim: bool, k: nat) -> Seq<char>;

/// The `j`-th call of `Attributes::next` on the tag the `k`-th
/// `read_event` returned.
pub uninterp spec fn xml_attr_at(src: Seq<u8>, trim: bool, k: nat, j: nat) -> AttrStep;

/// The local name of the key of the `j`-th attribute of the `k`-th
/// event's tag.
pub uninterp spec fn xml_attr_key(src: Seq<u8>, trim: bool, k: nat, j: nat) -> Seq<char>;

/// `Attribute::unescape_value` of the `j`-th attribute of the `k`-th
/// event's tag: the value, or the text of its error.
pub uninterp spec fn xml_attr_value(src: Seq<u8>, trim: bool, k: nat, j: nat) -> Result<Seq<char>, Seq<char>>;

/// A reader over `src`, with the text trimming it was made with and the
/// number of events it has handed out.
struct XmlReader<'a> {
    inner: Reader<&'a [u8]>,
    at: Ghost<(Seq<u8>, bool, nat)>,
}

impl<'a> View for XmlReader<'a> {
    type V = (Seq<u8>, bool, nat);

    closed spec fn view(&self) -> (Seq<u8>, bool, nat) {
        self.at@
    }
}

/// A start or empty tag, with the reading position it came from.
struct TagSrc<'a> {
    inner: BytesStart<'a>,
    at: Ghost<(Seq<u8>, bool, nat)>,
}

impl<'a> View for TagSrc<'a> {
    type V = (Seq<u8>, bool, nat);

    closed spec fn view(&self) -> (Seq<u8>, bool, nat) {
        self.at@
    }
}

/// The attribute iterator of a tag, with how many attributes it has
/// handed out.
struct AttrIter<'b> {
    inner: Attributes<'b>,
    at: Ghost<(Seq<u8>, bool, nat, nat)>,
}

impl<'b> View for AttrIter<'b> {
    type V = (Seq<u8>, bool, nat, nat);

    closed spec fn view(&self) -> (Seq<u8>, bool, nat, nat) {
        self.at@
    }
}

/// One attribute of a tag, with its place.
struct AttrSrc<'b> {
    inner: Attribute<'b>,
    at: Ghost<(Seq<u8>, bool, nat, nat)>,
}

impl<'b> View for AttrSrc<'b> {
    type V = (Seq<u8>, bool, nat, nat);

    closed spec fn view(&self) -> (Seq<u8>, bool, nat, nat) {
        self.at@
    }
}

/// One event as the tokenizer returns it, its tags still opaque.
enum RawEvent<'a> {
    Start(TagSrc<'a>),
    Empty(TagSrc<'a>),
    /// An end tag: its qualified and its local name.
    End(String, String),
    Text(String),
    CData(String),
    /// An entity or character reference: the name between `&` and `;`.
    GeneralRef(String),
    Eof,
    /// Declarations, comments, processing instructions and doctypes.
    Other,
}

/// The kind and strings of a raw event.
spec fn raw_view(e: RawEvent) -> ReadV {
    match e {
        RawEvent::Start(_) => ReadV::Start,
        RawEvent::Empty(_) => ReadV::Empty,
        RawEvent::End(q, l) => ReadV::End(q@, l@),
        RawEvent::Text(t) => ReadV::Text(t@),
        RawEvent::CData(t) => ReadV::CData(t@),
        RawEvent::GeneralRef(t) => ReadV::GeneralRef(t@),
        RawEvent::Eof => ReadV::Eof,
        RawEvent::Other => ReadV::Other,
    }
}

/// `Reader::from_reader` over `bytes`, configured with
/// `trim_text(trim)` and without expanding empty elements; it has handed
/// out no event yet.
#[verifier::external_body]
fn open_reader<'a>(bytes: &'a [u8], trim: bool) -> (r: XmlReader<'a>)
    ensures
        r@ == (bytes@, trim, 0nat),
{
    let mut reader = Reader::from_reader(bytes);
    reader.config_mut().trim_text(trim);
    reader.config_mut().expand_empty_elements = false;
    XmlReader { inner: reader, at: Ghost((bytes@, trim, 0nat)) }
}

/// An event as `quick_xml` returns it.
#[verifier::external_type_specification]
#[verifier::external_body]
pub struct ExEvent<'a>(quick_xml::events::Event<'a>);

/// An event as `read_event` returned it, with the reading position it
/// came from.
struct EventSrc<'a> {
    inner: Event<'a>,
    at: Ghost<(Seq<u8>, bool, nat)>,
}

impl<'a> View for EventSrc<'a> {
    type V = (Seq<u8>, bool, nat);

    closed spec fn view(&self) -> (Seq<u8>, bool, nat) {
        self.at@
    }
}

/// `quick_xml::Reader::read_event`: the next event, carrying the
/// reader's position, or the error that stops the reader; it fails
/// exactly when `xml_read_at` names no event there. The position counts
/// the calls.
#[verifier::external_body]
fn read_event<'a>(reader: &mut XmlReader<'a>) -> (r: Result<EventSrc<'a>, quick_xml::Error>)
    ensures
        final(reader)@ == (old(reader)@.0, old(reader)@.1, old(reader)@.2 + 1),
        r is Err <==> xml_read_at(old(reader)@.0, old(reader)@.1, old(reader)@.2) is None,
        r matches Ok(e) ==> e@ == old(reader)@,
{
    let at = Ghost(reader.at@);
    reader.at = Ghost((at@.0, at@.1, at@.2 + 1));
    Ok(EventSrc { inner: reader.inner.read_event()?, at })
}

/// The variants of an event read: start and empty tags stay opaque,
/// carrying their position; end tags, text, CDATA and references are
/// taken as strings; declarations, comments, processing instructions
/// and doctypes become `Other`. `xml_read_at` names the result.
#[verifier::external_body]
fn event_kind<'a>(e: EventSrc<'a>) -> (r: RawEvent<'a>)
    requires
        xml_read_at(e@.0, e@.1, e@.2) is Some,
    ensures
        xml_read_at(e@.0, e@.1, e@.2) == Some(raw_view(r)),
        r matches RawEvent::Start(t) ==> t@ == e@,
        r matches RawEvent::Empty(t) ==> t@ == e@,
{
    match e.inner {
        Start(x) => RawEvent::Start(TagSrc { inner: x, at: e.at }),
        Empty(x) => RawEvent::Empty(TagSrc { inner: x, at: e.at }),
        End(x) => RawEvent::End(x.name().0.to_string(), x.local_name().as_ref().to_string()),
        Text(t) => RawEvent::Text(t.into_inner().into_owned()),
        CData(t) => RawEvent::CData(t.into_inner().into_owned()),
        GeneralRef(t) => RawEvent::GeneralRef(t.into_inner().into_owned()),
        Eof => RawEvent::Eof,
        Decl(_) => RawEvent::Other,
        Comment(_) => RawEvent::Other,
        PI(_) => RawEvent::Other,
        DocType(_) => RawEvent::Other,
    }
}

/// `BytesStart::name`: the qualified name of a tag, as a string.
#[verifier::external_body]
fn tag_qname(e: &TagSrc<'_>) -> (r: String)
    ensures
        r@ == xml_tag_qname(e@.0, e@.1, e@.2),
{
    e.inner.name().0.to_string()
}

/// `BytesStart::local_name`: the name of a tag without its prefix.
#[verifier::external_body]
fn tag_local_name(e: &TagSrc<'_>) -> (r: String)
    ensures
        r@ == xml_tag_local_name(e@.0, e@.1, e@.2),
{
    e.inner.local_name().as_ref().to_string()
}

/// `BytesStart::attributes`: the attribute iterator of a tag, which has
/// handed out no attribute yet.
#[verifier::external_body]
fn tag_attributes<'b>(e: &'b TagSrc<'_>) -> (r: AttrIter<'b>)
    ensures
        r@ == (e@.0, e@.1, e@.2, 0nat),
{
    AttrIter { inner: e.inner.attributes(), at: Ghost((e@.0, e@.1, e@.2, 0nat)) }
}

/// `Attributes::next`: the next attribute, or the text of the error
/// that malformed attribute syntax raises.
#[verifier::external_body]
fn next_attribute<'b>(it: &mut AttrIter<'b>) -> (r: Option<Result<AttrSrc<'b>, String>>)
    ensures
        final(it)@ == (old(it)@.0, old(it)@.1, old(it)@.2, old(it)@.3 + 1),
        match r {
            None => xml_attr_at(old(it)@.0, old(it)@.1, old(it)@.2, old(it)@.3) == AttrStep::End,
            Some(Err(m)) => xml_attr_at(old(it)@.0, old(it)@.1, old(it)@.2, old(it)@.3) == AttrStep::Malformed(m@),
            Some(Ok(a)) => xml_attr_at(old(it)@.0, old(it)@.1, old(it)@.2, old(it)@.3) == AttrStep::Attr && a@ == old(it)@,
        },
{
    let at = Ghost(it.at@);
    it.at = Ghost((at@.0, at@.1, at@.2, at@.3 + 1));
    match it.inner.next() {
        Some(Ok(a)) => Some(Ok(AttrSrc { inner: a, at })),
        Some(Err(e)) => Some(Err(format!("{e}"))),
        None => None,
    }
}

/// The local name of an attribute's key.
#[verifier::external_body]
fn attribute_key(a: &AttrSrc<'_>) -> (r: String)
    ensures
        r@ == xml_attr_key(a@.0, a@.1, a@.2, a@.3),
{
    a.inner.key.local_name().as_ref().to_string()
}

/// `Attribute::unescape_value`: the value with its references
/// replaced, or the text of the error an unknown reference raises.
#[verifier::external_body]
#[allow(deprecated)]
fn attribute_value(a: &AttrSrc<'_>) -> (r: Result<String, String>)
    ensures
        xml_attr_value(a@.0, a@.1, a@.2, a@.3) == match r {
            Ok(v) => Ok::<Seq<char>, Seq<char>>(v@),
            Err(m) => Err(m@),
        },
{
    match a.inner.unescape_value() {
        Ok(v) => Ok(v.into_owned()),
        Err(e) => Err(format!("{e}")),
    }
}

/// The error `quick_xml::Reader::read_to_end` raises when the input
/// ends before the end tag `name`.
#[verifier::external_body]
fn missing_end_tag(name: String) -> quick_xml::Error {
    quick_xml::Error::IllFormed(quick_xml::errors::IllFormedError::MissingEndTag(name))
}

/// What `quick_xml::escape::unescape` makes of `raw`: the text with its
/// entity and character references replaced, `None` when it rejects a
/// reference.
pub uninterp spec fn xml_unescape(raw: Seq<char>) -> Option<Seq<char>>;

/// Calls `quick_xml::escape::unescape`, which replaces the predefined
/// entities and the character references of `raw`. The contract only
/// names the result: it is a function of `raw` alone, `None` exactly
/// when the call returns an error.
#[verifier::external_body]
pub(crate) fn unescape_text(raw: &str) -> (r: Option<String>)
    ensures
        match r {
            Some(s) => xml_unescape(raw@) == Some(s@),
            None => xml_unescape(raw@) is None,
        },
{
    match quick_xml::escape::unescape(raw) {
        Ok(s) => Some(s.into_owned()),
        Err(_) => None,
    }
}

// ---------------------------------------------------------------------------
// Plain events
// ---------------------------------------------------------------------------

/// One attribute: its local key and its unescaped value, or the text of
/// the error unescaping raised.
#[derive(Debug)]
pub struct XmlAttr {
    pub key: String,
    pub value: Result<String, String>,
}

/// A start or empty tag: qualified name, local name, and its attributes
/// in document order. An `Err` item is malformed attribute syntax; the
/// list ends there.
#[derive(Debug)]
pub struct XmlTag {
    pub qname: String,
    pub name: String,
    pub attrs: Vec<Result<XmlAttr, String>>,
}

/// One plain event.
#[derive(Debug)]
pub enum XmlEvent {
    Start(XmlTag),
    Empty(XmlTag),
    /// An end tag: qualified and local name.
    End(String, String),
    Text(String),
    CData(String),
    /// An entity or character reference: the name between `&` and `;`.
    GeneralRef(String),
    Eof,
    Other,
}

/// A tokenized part: its events up to and including the first `Eof`,
/// or up to the error that stopped the tokenizer, which `fault` holds.
#[derive(Debug)]
pub struct XmlStream {
    pub events: Vec<XmlEvent>,
    pub fault: Option<quick_xml::Error>,
}

/// An attribute with its strings taken as characters.
pub open spec fn attr_v(a: Result<XmlAttr, String>) -> Result<(Seq<char>, Result<Seq<char>, Seq<char>>), Seq<char>> {
    match a {
        Ok(x) => Ok(
            (
                x.key@,
                match x.value {
                    Ok(v) => Ok(v@),
                    Err(m) => Err(m@),
                },
            ),
        ),
        Err(m) => Err(m@),
    }
}

/// A tag with its strings taken as characters.
pub struct TagV {
    pub qname: Seq<char>,
    pub name: Seq<char>,
    pub attrs: Seq<Result<(Seq<char>, Result<Seq<char>, Seq<char>>), Seq<char>>>,
}

/// The view of a tag.
pub open spec fn tag_v(t: XmlTag) -> TagV {
    TagV { qname: t.qname@, name: t.name@, attrs: t.attrs@.map_values(|a: Result<XmlAttr, String>| attr_v(a)) }
}

/// An event with its strings taken as characters.
pub enum XmlEventV {
    Start(TagV),
    Empty(TagV),
    End(Seq<char>, Seq<char>),
    Text(Seq<char>),
    CData(Seq<char>),
    GeneralRef(Seq<char>),
    Eof,
    Other,
}

/// The view of an event.
pub open spec fn event_v(e: XmlEvent) -> XmlEventV {
    match e {
        XmlEvent::Start(t) => XmlEventV::Start(tag_v(t)),
        XmlEvent::Empty(t) => XmlEventV::Empty(tag_v(t)),
        XmlEvent::End(q, l) => XmlEventV::End(q@, l@),
        XmlEvent::Text(t) => XmlEventV::Text(t@),
        XmlEvent::CData(t) => XmlEventV::CData(t@),
        XmlEvent::GeneralRef(t) => XmlEventV::GeneralRef(t@),
        XmlEvent::Eof => XmlEventV::Eof,
        XmlEvent::Other => XmlEventV::Other,
    }
}

/// The views of events.
pub open spec fn events_v(ev: Seq<XmlEvent>) -> Seq<XmlEventV> {
    ev.map_values(|e: XmlEvent| event_v(e))
}

/// The attributes of the `k`-th event's tag from the `j`-th on, at most
/// `n` of them: each attribute in turn, ending at the end of the list or
/// after a malformed one.
pub open spec fn tag_attrs_from(src: Seq<u8>, trim: bool, k: nat, j: nat, n: nat) -> Seq<
    Result<(Seq<char>, Result<Seq<char>, Seq<char>>), Seq<char>>,
>
    decreases n,
{
    if n == 0 {
        Seq::empty()
    } else {
        match xml_attr_at(src, trim, k, j) {
            AttrStep::End => Seq::empty(),
            AttrStep::Malformed(m) => seq![Err(m)],
            AttrStep::Attr => seq![Ok((xml_attr_key(src, trim, k, j), xml_attr_value(src, trim, k, j)))]
                + tag_attrs_from(src, trim, k, j + 1, (n - 1) as nat),
        }
    }
}

/// The tag the `k`-th event carries, read with at most `limit` attributes.
pub open spec fn tag_at(src: Seq<u8>, trim: bool, k: nat, limit: nat) -> TagV {
    TagV {
        qname: xml_tag_qname(src, trim, k),
        name: xml_tag_local_name(src, trim, k),
        attrs: tag_attrs_from(src, trim, k, 0, limit),
    }
}

/// The plain event for the `k`-th read, which was not an error.
pub open spec fn event_at(src: Seq<u8>, trim: bool, k: nat, rv: ReadV, limit: nat) -> XmlEventV {
    match rv {
        ReadV::Start => XmlEventV::Start(tag_at(src, trim, k, limit)),
        ReadV::Empty => XmlEventV::Empty(tag_at(src, trim, k, limit)),
        ReadV::End(q, l) => XmlEventV::End(q, l),
        ReadV::Text(t) => XmlEventV::Text(t),
        ReadV::CData(t) => XmlEventV::CData(t),
        ReadV::GeneralRef(t) => XmlEventV::GeneralRef(t),
        ReadV::Eof => XmlEventV::Eof,
        ReadV::Other => XmlEventV::Other,
    }
}

/// The events read from the `k`-th on, reading no further than the
/// `limit`-th, and whether an error stopped the reading: each event in
/// turn, ending after the end of input or before an error.
pub open spec fn stream_from(src: Seq<u8>, trim: bool, k: nat, limit: nat) -> (Seq<XmlEventV>, bool)
    decreases limit + 1 - k,
{
    if k > limit {
        (Seq::empty(), false)
    } else {
        match xml_read_at(src, trim, k) {
            None => (Seq::empty(), true),
            Some(ReadV::Eof) => (seq![XmlEventV::Eof], false),
            Some(rv) => (
                seq![event_at(src, trim, k, rv, limit)] + stream_from(src, trim, k + 1, limit).0,
                stream_from(src, trim, k + 1, limit).1,
            ),
        }
    }
}

/// The events the tokenizer gives for `bytes`: at most one per byte and
/// one more, each tag with at most one attribute per byte.
pub open spec fn xml_events(bytes: Seq<u8>, trim: bool) -> Seq<XmlEventV> {
    stream_from(bytes, trim, 0, bytes.len()).0
}

/// Whether the tokenizer stops on an error for `bytes`.
pub open spec fn xml_faults(bytes: Seq<u8>, trim: bool) -> bool {
    stream_from(bytes, trim, 0, bytes.len()).1
}

/// A tag as the tokenizer gives it: at most `limit` attributes, and an
/// attribute error only as the last item of the list.
pub open spec fn tag_shape(t: XmlTag, limit: int) -> bool {
    &&& t.attrs@.len() <= limit
    &&& forall|i: int| 0 <= i < t.attrs@.len() - 1 ==> (#[trigger] t.attrs@[i]) is Ok
}

/// Whether every tag of event `e` has the tokenizer's shape.
pub open spec fn event_shape(e: XmlEvent, limit: int) -> bool {
    match e {
        XmlEvent::Start(t) => tag_shape(t, limit),
        XmlEvent::Empty(t) => tag_shape(t, limit),
        _ => true,
    }
}

/// The plain form of a tag: its names, and its attributes in order as
/// the attribute iterator yields them, stopping after `limit` of them or
/// at the first malformed one, which ends the list.
fn plain_tag(e: &TagSrc<'_>, limit: usize) -> (t: XmlTag)
    ensures
        tag_v(t) == tag_at(e@.0, e@.1, e@.2, limit as nat),
        tag_shape(t, limit as int),
{
    let qname = tag_qname(e);
    let name = tag_local_name(e);
    let mut it = tag_attributes(e);
    let mut attrs: Vec<Result<XmlAttr, String>> = Vec::new();
    let mut n: usize = limit;
    let ghost (src, trim, k) = e@;
    proof {
        assert(attrs@.map_values(|a: Result<XmlAttr, String>| attr_v(a)) + tag_attrs_from(src, trim, k, 0, limit as nat)
            =~= tag_attrs_from(src, trim, k, 0, limit as nat));
    }
    while n > 0
        invariant_except_break
            attrs@.len() + n == limit,
            forall|i: int| 0 <= i < attrs@.len() ==> (#[trigger] attrs@[i]) is Ok,
            it@ == (src, trim, k, attrs@.len() as nat),
            attrs@.map_values(|a: Result<XmlAttr, String>| attr_v(a)) + tag_attrs_from(src, trim, k, it@.3, n as nat)
                == tag_attrs_from(src, trim, k, 0, limit as nat),
        invariant
            n <= limit,
        ensures
            attrs@.len() <= limit,
            forall|i: int| 0 <= i < attrs@.len() - 1 ==> (#[trigger] attrs@[i]) is Ok,
            attrs@.map_values(|a: Result<XmlAttr, String>| attr_v(a)) == tag_attrs_from(src, trim, k, 0, limit as nat),
        decreases n,
    {
        let ghost j = it@.3;
        let ghost before = attrs@;
        match next_attribute(&mut it) {
            None => {
                proof {
                    assert(before.map_values(|a: Result<XmlAttr, String>| attr_v(a)) + Seq::empty() =~= before.map_values(|a: Result<XmlAttr, String>| attr_v(a)));
                }
                break;
            },
            Some(Err(m)) => {
                let ghost mv = m@;
                attrs.push(Err(m));
                proof {
                    assert forall|i: int| 0 <= i < attrs@.len() - 1 implies (#[trigger] attrs@[i]) is Ok by {
                        assert(attrs@[i] == attrs@.drop_last()[i]);
                    }
                    assert(attrs@.map_values(|a: Result<XmlAttr, String>| attr_v(a)) =~= before.map_values(|a: Result<XmlAttr, String>| attr_v(a)) + seq![Err::<(Seq<char>, Result<Seq<char>, Seq<char>>), Seq<char>>(mv)]);
                }
                break;
            },
            Some(Ok(a)) => {
                let key = attribute_key(&a);
                let value = attribute_value(&a);
                let x = XmlAttr { key, value };
                proof {
                    assert(attr_v(Ok(x)) == Ok::<(Seq<char>, Result<Seq<char>, Seq<char>>), Seq<char>>((xml_attr_key(src, trim, k, j), xml_attr_value(src, trim, k, j))));
                }
                attrs.push(Ok(x));
                proof {
                    assert(attrs@.map_values(|a: Result<XmlAttr, String>| attr_v(a)) =~= before.map_values(|a: Result<XmlAttr, String>| attr_v(a)).push(attr_v(Ok(x))));
                    assert(tag_attrs_from(src, trim, k, j, n as nat) == seq![attr_v(Ok(x))] + tag_attrs_from(src, trim, k, j + 1, (n - 1) as nat));
                    assert(attrs@.map_values(|a: Result<XmlAttr, String>| attr_v(a)) + tag_attrs_from(src, trim, k, j + 1, (n - 1) as nat)
                        =~= before.map_values(|a: Result<XmlAttr, String>| attr_v(a)) + tag_attrs_from(src, trim, k, j, n as nat));
                }
            },
        }
        n = n - 1;
    }
    proof {
        if n == 0 {
            assert(attrs@.map_values(|a: Result<XmlAttr, String>| attr_v(a)) + Seq::empty() =~= attrs@.map_values(|a: Result<XmlAttr, String>| attr_v(a)));
        }
    }
    XmlTag { qname, name, attrs }
}

/// Tokenize `bytes`, trimming whitespace around text when `trim` is
/// set: the events are `xml_events(bytes, trim)`, and the stream has a
/// fault exactly when `xml_faults(bytes, trim)`. Every event, including
/// the last, consumes input, so at most `bytes.len() + 1` events are
/// read. The stream holds an end-of-input event only as its last one,
/// and not when the reader failed.
pub fn tokenize(bytes: &[u8], trim: bool) -> (s: XmlStream)
    ensures
        events_v(s.events@) == xml_events(bytes@, trim),
        s.fault is Some <==> xml_faults(bytes@, trim),
        s.events@.len() <= bytes@.len() + 1,
        forall|i: int| 0 <= i < s.events@.len() - 1 ==> !(#[trigger] s.events@[i] is Eof),
        s.fault is Some ==> s.events@.len() <= bytes@.len() && (s.events@.len() == 0 || !(s.events@.last() is Eof)),
        s.fault is None ==> (s.events@.len() > 0 && s.events@.last() is Eof) || s.events@.len() == bytes@.len() + 1,
        forall|i: int| 0 <= i < s.events@.len() ==> event_shape(#[trigger] s.events@[i], bytes@.len() as int),
{
    let mut reader = open_reader(bytes, trim);
    let mut events: Vec<XmlEvent> = Vec::new();
    let limit = bytes.len();
    let ghost src = bytes@;
    let ghost whole = stream_from(src, trim, 0, limit as nat);
    let mut n: usize = 0;
    proof {
        assert(events_v(events@) + whole.0 =~= whole.0);
    }
    while n <= limit
        invariant_except_break
            events@.len() == n,
            reader@ == (src, trim, n as nat),
            events_v(events@) + stream_from(src, trim, n as nat, limit as nat).0 == whole.0,
            stream_from(src, trim, n as nat, limit as nat).1 == whole.1,
        invariant
            n <= limit,
            limit == bytes@.len(),
            src == bytes@,
            whole == stream_from(src, trim, 0, limit as nat),
            forall|i: int| 0 <= i < events@.len() ==> !(#[trigger] events@[i] is Eof),
            forall|i: int| 0 <= i < events@.len() ==> event_shape(#[trigger] events@[i], limit as int),
        ensures
            events@.len() == limit + 1,
            events_v(events@) == whole.0,
            !whole.1,
        decreases limit + 1 - n,
    {
        let ghost before = events@;
        let ghost rest = stream_from(src, trim, (n + 1) as nat, limit as nat);
        let read = match read_event(&mut reader) {
            Ok(ev) => Ok(event_kind(ev)),
            Err(e) => Err(e),
        };
        match read {
            Err(e) => {
                proof {
                    assert(events_v(events@) + Seq::empty() =~= events_v(events@));
                }
                return XmlStream { events, fault: Some(e) };
            },
            Ok(RawEvent::Eof) => {
                events.push(XmlEvent::Eof);
                proof {
                    assert(events_v(events@) =~= events_v(before) + seq![XmlEventV::Eof]);
                }
                return XmlStream { events, fault: None };
            },
            Ok(RawEvent::Start(e)) => {
                let t = plain_tag(&e, limit);
                events.push(XmlEvent::Start(t));
            },
            Ok(RawEvent::Empty(e)) => {
                let t = plain_tag(&e, limit);
                events.push(XmlEvent::Empty(t));
            },
            Ok(RawEvent::End(q, l)) => {
                events.push(XmlEvent::End(q, l));
            },
            Ok(RawEvent::Text(t)) => {
                events.push(XmlEvent::Text(t));
            },
            Ok(RawEvent::CData(t)) => {
                events.push(XmlEvent::CData(t));
            },
            Ok(RawEvent::GeneralRef(t)) => {
                events.push(XmlEvent::GeneralRef(t));
            },
            Ok(RawEvent::Other) => {
                events.push(XmlEvent::Other);
            },
        }
        proof {
            let rv = xml_read_at(src, trim, n as nat)->0;
            assert(event_v(events@.last()) == event_at(src, trim, n as nat, rv, limit as nat));
            assert(events_v(events@) =~= events_v(before).push(event_v(events@.last())));
            assert(stream_from(src, trim, n as nat, limit as nat).0 == seq![event_at(src, trim, n as nat, rv, limit as nat)] + rest.0);
            assert(events_v(events@) + rest.0 =~= events_v(before) + stream_from(src, trim, n as nat, limit as nat).0);
        }
        if n == limit {
            proof {
                assert(rest.0 =~= Seq::<XmlEventV>::empty());
                assert(events_v(events@) + rest.0 =~= events_v(events@));
            }
            break;
        }
        n = n + 1;
    }
    XmlStream { events, fault: None }
}

// ---------------------------------------------------------------------------
// Parse faults
// ---------------------------------------------------------------------------

/// Why a parser over a stream stopped.
#[derive(Debug)]
pub enum ParseFault {
    /// It needed an event past the end of the stream.
    Truncated,
    /// The document is malformed; the message says how.
    Document(String),
    /// The input ended inside the element with this qualified name while
    /// its subtree was being skipped.
    MissingEnd(String),
}

/// A parse fault with its strings taken as characters.
pub enum FaultView {
    Truncated,
    Document(Seq<char>),
    MissingEnd(Seq<char>),
}

impl View for ParseFault {
    type V = FaultView;

    open spec fn view(&self) -> FaultView {
        match self {
            ParseFault::Truncated => FaultView::Truncated,
            ParseFault::Document(m) => FaultView::Document(m@),
            ParseFault::MissingEnd(q) => FaultView::MissingEnd(q@),
        }
    }
}

/// A parse outcome with its fault taken as a view.
pub open spec fn outcome<T>(r: Result<T, ParseFault>) -> Result<T, FaultView> {
    match r {
        Ok(v) => Ok(v),
        Err(f) => Err(f@),
    }
}

/// The error a fault becomes, given the tokenizer's own error: a
/// truncated parse is the tokenizer's error, a missing end tag is the
/// tokenizer's error for it, and a malformed document is `Document`.
pub open spec fn fault_error_matches(f: FaultView, tokenizer: Option<quick_xml::Error>, e: DvcError) -> bool {
    match f {
        FaultView::Truncated => match tokenizer {
            Some(x) => e == DvcError::Xml(x),
            None => e matches DvcError::Document(m) && m@ == truncated_message(),
        },
        FaultView::Document(m) => e matches DvcError::Document(m2) && m2@ == m,
        FaultView::MissingEnd(_) => e is Xml,
    }
}

/// The message for a stream that ends with neither an end event nor an
/// error.
pub open spec fn truncated_message() -> Seq<char> {
    "unexpected end of XML input"@
}

/// Turn a parse fault into the library's error.
pub fn fault_error(f: ParseFault, tokenizer: Option<quick_xml::Error>) -> (e: DvcError)
    ensures
        fault_error_matches(f@, tokenizer, e),
{
    match f {
        ParseFault::Truncated => match tokenizer {
            Some(x) => DvcError::Xml(x),
            None => DvcError::Document(String::from_str("unexpected end of XML input")),
        },
        ParseFault::Document(m) => DvcError::Document(m),
        ParseFault::MissingEnd(q) => DvcError::Xml(missing_end_tag(q)),
    }
}

// ---------------------------------------------------------------------------
// Attributes
// ---------------------------------------------------------------------------

/// What looking up attribute `key` among `attrs` finds: `Ok(None)` when
/// absent, `Ok(Some(value))`, or the message of the error met first.
pub open spec fn attr_lookup(attrs: Seq<Result<XmlAttr, String>>, key: Seq<char>) -> Result<
    Option<Seq<char>>,
    FaultView,
>
    decreases attrs.len(),
{
    if attrs.len() == 0 {
        Ok(None)
    } else {
        match attrs[0] {
            Err(m) => Err(FaultView::Document("bad attribute: "@ + m@)),
            Ok(a) => if a.key@ == key {
                match a.value {
                    Ok(v) => Ok(Some(v@)),
                    Err(m) => Err(FaultView::Document("attr decode: "@ + m@)),
                }
            } else {
                attr_lookup(attrs.drop_first(), key)
            },
        }
    }
}

/// The message for an integer attribute that does not parse.
pub open spec fn int_attr_message(ty: Seq<char>, key: Seq<char>, raw: Seq<char>, k: IntErrorKind) -> Seq<
    char,
> {
    "expected "@ + ty + " for attribute '"@ + key + "', got '"@ + raw + "': "@ + int_error_text(k)
}

/// A `u32` attribute: 0 when absent, else its trimmed value parsed.
pub open spec fn attr_u32_of(attrs: Seq<Result<XmlAttr, String>>, key: Seq<char>) -> Result<u32, FaultView> {
    match attr_lookup(attrs, key) {
        Err(f) => Err(f),
        Ok(None) => Ok(0),
        Ok(Some(s)) => match parse_u32_spec(trim(s)) {
            Some(v) => Ok(v),
            None => Err(
                FaultView::Document(
                    int_attr_message("u32"@, key, s, int_error_kind(trim(s), false)),
                ),
            ),
        },
    }
}

/// An `i32` attribute: 0 when absent, else its trimmed value parsed.
pub open spec fn attr_i32_of(attrs: Seq<Result<XmlAttr, String>>, key: Seq<char>) -> Result<i32, FaultView> {
    match attr_lookup(attrs, key) {
        Err(f) => Err(f),
        Ok(None) => Ok(0),
        Ok(Some(s)) => match parse_i32_spec(trim(s)) {
            Some(v) => Ok(v),
            None => Err(
                FaultView::Document(
                    int_attr_message("i32"@, key, s, int_error_kind(trim(s), true)),
                ),
            ),
        },
    }
}

/// A string attribute: empty when absent.
pub open spec fn attr_string_of(attrs: Seq<Result<XmlAttr, String>>, key: Seq<char>) -> Result<
    Seq<char>,
    FaultView,
> {
    match attr_lookup(attrs, key) {
        Err(f) => Err(f),
        Ok(None) => Ok(Seq::empty()),
        Ok(Some(s)) => Ok(s),
    }
}

/// A flag attribute: true exactly when its trimmed value is `1`,
/// `true`, `TRUE` or `True`.
pub open spec fn attr_bool_of(attrs: Seq<Result<XmlAttr, String>>, key: Seq<char>) -> Result<bool, FaultView> {
    match attr_lookup(attrs, key) {
        Err(f) => Err(f),
        Ok(None) => Ok(false),
        Ok(Some(s)) => Ok(
            trim(s) == "1"@ || trim(s) == "true"@ || trim(s) == "TRUE"@ || trim(s) == "True"@,
        ),
    }
}

/// A strict flag attribute: `1` or `true` in any case is true; `0`,
/// `false` in any case, empty or absent is false; anything else is
/// rejected.
pub open spec fn attr_bool01_of(attrs: Seq<Result<XmlAttr, String>>, key: Seq<char>) -> Result<
    bool,
    FaultView,
> {
    match attr_lookup(attrs, key) {
        Err(f) => Err(f),
        Ok(None) => Ok(false),
        Ok(Some(s)) => {
            let t = trim(s);
            if eq_ignore_case(t, "1"@) || eq_ignore_case(t, "true"@) {
                Ok(true)
            } else if eq_ignore_case(t, "0"@) || eq_ignore_case(t, "false"@) || t.len() == 0 {
                Ok(false)
            } else {
                Err(
                    FaultView::Document(
                        "expected 0/1 for attribute '"@ + key + "', got '"@ + t + "'"@,
                    ),
                )
            }
        },
    }
}

/// Look up attribute `key` of tag `t`.
pub fn attr_str(t: &XmlTag, key: &str) -> (r: Result<Option<String>, ParseFault>)
    ensures
        match attr_lookup(t.attrs@, key@) {
            Ok(Some(v)) => r matches Ok(Some(s)) && s@ == v,
            Ok(None) => r matches Ok(None),
            Err(f) => r matches Err(e) && e@ == f,
        },
{
    let mut i: usize = 0;
    assert(t.attrs@.skip(0) =~= t.attrs@);
    while i < t.attrs.len()
        invariant
            i <= t.attrs@.len(),
            attr_lookup(t.attrs@, key@) == attr_lookup(t.attrs@.skip(i as int), key@),
        decreases t.attrs.len() - i,
    {
        assert(t.attrs@.skip(i as int)[0] == t.attrs@[i as int]);
        match &t.attrs[i] {
            Err(m) => {
                let mut msg = String::from_str("bad attribute: ");
                msg.append(m.as_str());
                return Err(ParseFault::Document(msg));
            },
            Ok(a) => {
                if str_eq(a.key.as_str(), key) {
                    match &a.value {
                        Ok(v) => {
                            return Ok(Some(v.clone()));
                        },
                        Err(m) => {
                            let mut msg = String::from_str("attr decode: ");
                            msg.append(m.as_str());
                            return Err(ParseFault::Document(msg));
                        },
                    }
                }
            },
        }
        assert(t.attrs@.skip(i as int).drop_first() =~= t.attrs@.skip(i + 1));
        i = i + 1;
    }
    Ok(None)
}

/// The message for an integer attribute that does not parse.
fn int_attr_error(ty: &str, key: &str, raw: &str, signed: bool) -> (f: ParseFault)
    ensures
        f@ == FaultView::Document(int_attr_message(ty@, key@, raw@, int_error_kind(trim(raw@), signed))),
{
    let k = int_error_kind_of(trim_str(raw), signed);
    let mut msg = String::from_str("expected ");
    msg.append(ty);
    msg.append(" for attribute '");
    msg.append(key);
    msg.append("', got '");
    msg.append(raw);
    msg.append("': ");
    msg.append(int_error_message(k));
    ParseFault::Document(msg)
}

/// A `u32` attribute of tag `t`.
pub fn attr_u32(t: &XmlTag, key: &str) -> (r: Result<u32, ParseFault>)
    ensures
        outcome(r) == attr_u32_of(t.attrs@, key@),
{
    match attr_str(t, key)? {
        None => Ok(0),
        Some(s) => match parse_u32(trim_str(s.as_str())) {
            Some(v) => Ok(v),
            None => Err(int_attr_error("u32", key, s.as_str(), false)),
        },
    }
}

/// An `i32` attribute of tag `t`.
pub fn attr_i32(t: &XmlTag, key: &str) -> (r: Result<i32, ParseFault>)
    ensures
        outcome(r) == attr_i32_of(t.attrs@, key@),
{
    match attr_str(t, key)? {
        None => Ok(0),
        Some(s) => match parse_i32(trim_str(s.as_str())) {
            Some(v) => Ok(v),
            None => Err(int_attr_error("i32", key, s.as_str(), true)),
        },
    }
}

/// A string attribute of tag `t`.
pub fn attr_string(t: &XmlTag, key: &str) -> (r: Result<String, ParseFault>)
    ensures
        match r {
            Ok(s) => attr_string_of(t.attrs@, key@) == Ok::<Seq<char>, FaultView>(s@),
            Err(e) => attr_string_of(t.attrs@, key@) == Err::<Seq<char>, FaultView>(e@),
        },
{
    match attr_str(t, key)? {
        None => Ok(String::new()),
        Some(s) => Ok(s),
    }
}

/// A flag attribute of tag `t`.
pub fn attr_bool(t: &XmlTag, key: &str) -> (r: Result<bool, ParseFault>)
    ensures
        outcome(r) == attr_bool_of(t.attrs@, key@),
{
    match attr_str(t, key)? {
        None => Ok(false),
        Some(s) => {
            let v = trim_str(s.as_str());
            proof {
                reveal_strlit("1");
                reveal_strlit("true");
                reveal_strlit("TRUE");
                reveal_strlit("True");
            }
            Ok(str_eq(v, "1") || str_eq(v, "true") || str_eq(v, "TRUE") || str_eq(v, "True"))
        },
    }
}

/// A strict flag attribute of tag `t`.
pub fn attr_bool01(t: &XmlTag, key: &str) -> (r: Result<bool, ParseFault>)
    ensures
        outcome(r) == attr_bool01_of(t.attrs@, key@),
{
    match attr_str(t, key)? {
        None => Ok(false),
        Some(s) => {
            let v = trim_str(s.as_str());
            if str_eq_ignore_case(v, "1") || str_eq_ignore_case(v, "true") {
                Ok(true)
            } else if str_eq_ignore_case(v, "0") || str_eq_ignore_case(v, "false")
                || v.unicode_len() == 0 {
                Ok(false)
            } else {
                let mut msg = String::from_str("expected 0/1 for attribute '");
                msg.append(key);
                msg.append("', got '");
                msg.append(v);
                msg.append("'");
                Err(ParseFault::Document(msg))
            }
        },
    }
}

// ---------------------------------------------------------------------------
// Skipping a subtree
// ---------------------------------------------------------------------------

/// Skipping events from `i` on, inside an element with qualified name
/// `q` in which `depth` nested elements of the same name are open: the
/// position just after its end tag. As `quick_xml::Reader::read_to_end`
/// does, only elements named `q` are counted, and reaching `Eof` is a
/// missing end tag.
pub open spec fn skip_from(ev: Seq<XmlEvent>, i: int, q: Seq<char>, depth: nat) -> Result<int, FaultView>
    decreases ev.len() - i,
{
    if i < 0 || i >= ev.len() {
        Err(FaultView::Truncated)
    } else {
        match ev[i] {
            XmlEvent::Start(t) => if t.qname@ == q {
                skip_from(ev, i + 1, q, depth + 1)
            } else {
                skip_from(ev, i + 1, q, depth)
            },
            XmlEvent::End(qn, _) => if qn@ == q {
                if depth == 0 {
                    Ok(i + 1)
                } else {
                    skip_from(ev, i + 1, q, (depth - 1) as nat)
                }
            } else {
                skip_from(ev, i + 1, q, depth)
            },
            XmlEvent::Eof => Err(FaultView::MissingEnd(q)),
            _ => skip_from(ev, i + 1, q, depth),
        }
    }
}

/// Skip the subtree of the element named `q` whose start tag precedes
/// event `i`.
pub fn skip(ev: &Vec<XmlEvent>, i: usize, q: &str) -> (r: Result<usize, ParseFault>)
    requires
        i <= ev@.len(),
    ensures
        outcome(r) == match skip_from(ev@, i as int, q@, 0) {
            Ok(j) => Ok::<usize, FaultView>(j as usize),
            Err(f) => Err(f),
        },
        r matches Ok(j) ==> i < j <= ev@.len() && skip_from(ev@, i as int, q@, 0) == Ok::<int, FaultView>(j as int),
{
    let mut k: usize = i;
    let mut depth: usize = 0;
    while k < ev.len()
        invariant
            i <= k <= ev@.len(),
            depth <= k - i,
            skip_from(ev@, i as int, q@, 0) == skip_from(ev@, k as int, q@, depth as nat),
        decreases ev.len() - k,
    {
        match &ev[k] {
            XmlEvent::Start(t) => {
                if str_eq(t.qname.as_str(), q) {
                    depth = depth + 1;
                }
            },
            XmlEvent::End(qn, _) => {
                if str_eq(qn.as_str(), q) {
                    if depth == 0 {
                        return Ok(k + 1);
                    }
                    depth = depth - 1;
                }
            },
            XmlEvent::Eof => {
                return Err(ParseFault::MissingEnd(String::from_str(q)));
            },
            _ => {},
        }
        k = k + 1;
    }
    Err(ParseFault::Truncated)
}

} // verus!
