//! The serialization formats of validation results, and the XML form:
//! a `<dvcErrors>` document with one `<error>` element per finding, its
//! fields in the order of the JSON keys.

use vstd::prelude::*;
use quick_xml::events::{BytesDecl, BytesEnd, BytesStart, BytesText, Event};
use quick_xml::Writer;
use crate::checker::{error_views, DvcErrorInfo, ErrorView};
use crate::error::{DvcError, DvcResult};
use crate::text::{dec_digits, push_dec};

verus! {

/// The serialization format of validation results: JSON by default, or
/// XML.
#[derive(Debug, Clone, Copy, Default, PartialEq, Eq, Structural)]
#[non_exhaustive]
pub enum Format {
    #[default]
    Json,
    Xml,
}

/// The XML writer, which writes into an owned buffer.
#[verifier::external_type_specification]
#[verifier::external_body]
#[verifier::reject_recursive_types(W)]
pub struct ExWriter<W>(quick_xml::Writer<W>);

/// One event written to the XML output.
pub enum OutEvent {
    /// The declaration `<?xml version="1.0" encoding="UTF-8"?>`.
    Decl,
    Start(Seq<char>),
    End(Seq<char>),
    Text(Seq<char>),
}

/// The text a `quick_xml::Writer` over a `Vec<u8>` holds, read as UTF-8,
/// after writing `events` in order: made by `Writer::new`, or by
/// `Writer::new_with_indent(_, b' ', 2)` when `pretty`.
pub uninterp spec fn xml_text(events: Seq<OutEvent>, pretty: bool) -> Seq<char>;

/// A writer with the events written so far and whether it indents.
struct OutWriter {
    inner: Writer<Vec<u8>>,
    at: Ghost<(Seq<OutEvent>, bool)>,
}

impl View for OutWriter {
    type V = (Seq<OutEvent>, bool);

    closed spec fn view(&self) -> (Seq<OutEvent>, bool) {
        self.at@
    }
}

/// An event to write, its strings borrowed.
enum OutEv<'s> {
    Decl,
    Start(&'s str),
    End(&'s str),
    Text(&'s str),
}

spec fn out_view(e: OutEv) -> OutEvent {
    match e {
        OutEv::Decl => OutEvent::Decl,
        OutEv::Start(s) => OutEvent::Start(s@),
        OutEv::End(s) => OutEvent::End(s@),
        OutEv::Text(s) => OutEvent::Text(s@),
    }
}

/// `Writer::new` over an empty buffer.
#[verifier::external_body]
fn plain_writer() -> (w: OutWriter)
    ensures
        w@ == (Seq::<OutEvent>::empty(), false),
{
    OutWriter { inner: Writer::new(Vec::new()), at: Ghost((Seq::empty(), false)) }
}

/// `Writer::new_with_indent` over an empty buffer, indenting by two
/// spaces.
#[verifier::external_body]
fn indenting_writer() -> (w: OutWriter)
    ensures
        w@ == (Seq::<OutEvent>::empty(), true),
{
    OutWriter { inner: Writer::new_with_indent(Vec::new(), b' ', 2), at: Ghost((Seq::empty(), true)) }
}

/// `Writer::write_event`. Its only errors are those of the buffer it
/// writes into, and writing into a `Vec<u8>` only appends, so it
/// succeeds.
#[verifier::external_body]
fn write_out(w: &mut OutWriter, e: OutEv<'_>) -> (r: std::io::Result<()>)
    ensures
        r is Ok,
        final(w)@ == (old(w)@.0.push(out_view(e)), old(w)@.1),
{
    match e {
        OutEv::Decl => w.inner.write_event(Event::Decl(BytesDecl::new("1.0", Some("UTF-8"), None))),
        OutEv::Start(s) => w.inner.write_event(Event::Start(BytesStart::new(s))),
        OutEv::End(s) => w.inner.write_event(Event::End(BytesEnd::new(s))),
        OutEv::Text(s) => w.inner.write_event(Event::Text(BytesText::new(s))),
    }
}

/// `Writer::into_inner` and `String::from_utf8` on the buffer, its error
/// carried as the writer's I/O error. Every
/// byte the writer wrote comes from a `&str` or is ASCII markup,
/// spacing or a line break, so the buffer is UTF-8 and the conversion
/// succeeds.
#[verifier::external_body]
fn written_text(w: OutWriter) -> (r: Result<String, quick_xml::Error>)
    ensures
        r is Ok,
        r matches Ok(s) ==> s@ == xml_text(w@.0, w@.1),
{
    String::from_utf8(w.inner.into_inner())
        .map_err(|e| quick_xml::Error::Io(std::sync::Arc::new(std::io::Error::other(e))))
}

/// The decimal digits of `v`.
pub open spec fn dec_text(v: u32) -> Seq<char> {
    dec_digits(v as nat)
}

/// `true` or `false`.
pub open spec fn bool_text(b: bool) -> Seq<char> {
    if b {
        "true"@
    } else {
        "false"@
    }
}

/// One element holding text: start tag, text, end tag.
pub open spec fn elem_events(tag: Seq<char>, value: Seq<char>) -> Seq<OutEvent> {
    seq![OutEvent::Start(tag), OutEvent::Text(value), OutEvent::End(tag)]
}

/// The `<error>` element of a finding: its fields in the order of the
/// JSON keys.
pub open spec fn error_events(e: ErrorView) -> Seq<OutEvent> {
    seq![OutEvent::Start("error"@)] + elem_events("charIDRef"@, dec_text(e.char_pr_id_ref))
        + elem_events("paraPrIDRef"@, dec_text(e.para_pr_id_ref)) + elem_events("text"@, e.text)
        + elem_events("pageNo"@, dec_text(e.page_no)) + elem_events("lineNo"@, dec_text(e.line_no))
        + elem_events("errorCode"@, dec_text(e.error_code)) + elem_events("tableID"@, dec_text(e.table_id))
        + elem_events("isInTable"@, bool_text(e.is_in_table)) + elem_events(
        "isInTableInTable"@,
        bool_text(e.is_in_table_in_table),
    ) + elem_events("tableRow"@, dec_text(e.table_row)) + elem_events("tableCol"@, dec_text(e.table_col))
        + seq![OutEvent::End("error"@)]
}

/// The `<error>` elements of findings `es`, in order.
pub open spec fn errors_events(es: Seq<ErrorView>) -> Seq<OutEvent>
    decreases es.len(),
{
    if es.len() == 0 {
        Seq::empty()
    } else {
        errors_events(es.drop_last()) + error_events(es.last())
    }
}

/// The events of the XML document for findings `es`: the declaration,
/// then `<dvcErrors>` around one `<error>` per finding.
pub open spec fn error_document(es: Seq<ErrorView>) -> Seq<OutEvent> {
    seq![OutEvent::Decl, OutEvent::Start("dvcErrors"@)] + errors_events(es) + seq![OutEvent::End("dvcErrors"@)]
}

fn write_text(w: &mut OutWriter, tag: &str, value: &str)
    ensures
        final(w)@ == (old(w)@.0 + elem_events(tag@, value@), old(w)@.1),
{
    let _ = write_out(w, OutEv::Start(tag));
    let _ = write_out(w, OutEv::Text(value));
    let _ = write_out(w, OutEv::End(tag));
    assert(w@.0 =~= old(w)@.0 + elem_events(tag@, value@));
}

fn write_dec(w: &mut OutWriter, tag: &str, v: u32)
    ensures
        final(w)@ == (old(w)@.0 + elem_events(tag@, dec_text(v)), old(w)@.1),
{
    let mut s = String::new();
    push_dec(&mut s, v);
    assert(s@ =~= dec_text(v));
    write_text(w, tag, s.as_str());
}

fn write_bool(w: &mut OutWriter, tag: &str, b: bool)
    ensures
        final(w)@ == (old(w)@.0 + elem_events(tag@, bool_text(b)), old(w)@.1),
{
    if b {
        write_text(w, tag, "true");
    } else {
        write_text(w, tag, "false");
    }
}

fn write_error(w: &mut OutWriter, e: &DvcErrorInfo)
    ensures
        final(w)@ == (old(w)@.0 + error_events(e@), old(w)@.1),
{
    let _ = write_out(w, OutEv::Start("error"));
    write_dec(w, "charIDRef", e.char_pr_id_ref);
    write_dec(w, "paraPrIDRef", e.para_pr_id_ref);
    write_text(w, "text", e.text.as_str());
    write_dec(w, "pageNo", e.page_no);
    write_dec(w, "lineNo", e.line_no);
    write_dec(w, "errorCode", e.error_code);
    write_dec(w, "tableID", e.table_id);
    write_bool(w, "isInTable", e.is_in_table);
    write_bool(w, "isInTableInTable", e.is_in_table_in_table);
    write_dec(w, "tableRow", e.table_row);
    write_dec(w, "tableCol", e.table_col);
    let _ = write_out(w, OutEv::End("error"));
    assert(w@.0 =~= old(w)@.0 + error_events(e@));
}

/// Serialize `errors` as a `<dvcErrors>` XML document, one `<error>`
/// element per finding; indented with two spaces when `pretty`, on one
/// line otherwise.
pub fn to_xml(errors: &[DvcErrorInfo], pretty: bool) -> (r: DvcResult<String>)
    ensures
        r is Ok,
        r matches Ok(s) ==> s@ == xml_text(error_document(error_views(errors@)), pretty),
{
    let mut w = if pretty {
        indenting_writer()
    } else {
        plain_writer()
    };
    let _ = write_out(&mut w, OutEv::Decl);
    let _ = write_out(&mut w, OutEv::Start("dvcErrors"));
    let ghost head = w@.0;
    let mut i: usize = 0;
    while i < errors.len()
        invariant
            i <= errors@.len(),
            w@ == (head + errors_events(error_views(errors@.take(i as int))), pretty),
        decreases errors.len() - i,
    {
        write_error(&mut w, &errors[i]);
        proof {
            let t = errors@.take(i + 1);
            assert(t.drop_last() =~= errors@.take(i as int));
            assert(error_views(t).drop_last() =~= error_views(errors@.take(i as int)));
            assert(error_views(t).last() == errors@[i as int]@);
            assert(head + errors_events(error_views(t)) =~= head + errors_events(error_views(errors@.take(i as int))) + error_events(errors@[i as int]@));
        }
        i = i + 1;
    }
    let _ = write_out(&mut w, OutEv::End("dvcErrors"));
    proof {
        assert(errors@.take(errors@.len() as int) =~= errors@);
        assert(w@.0 =~= error_document(error_views(errors@)));
    }
    match written_text(w) {
        Ok(s) => Ok(s),
        Err(e) => Err(DvcError::Xml(e)),
    }
}

} // verus!
