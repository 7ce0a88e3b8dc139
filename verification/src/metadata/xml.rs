//! The XML layer of the metadata parsers: `quick-xml` reads a document
//! into a list of plain events (text trimmed, entities decoded) and writes
//! a list of plain events back out as indented text. Everything the
//! parsers and the exporter decide is done on these plain events.

use vstd::prelude::*;

use std::io::Cursor;

use quick_xml::events::Event as Q;
use quick_xml::events::{BytesDecl, BytesEnd, BytesStart, BytesText};

use crate::text::{chars_eq_str, chars_of, copy_range, find_char, find_from, lemma_find_from, opt_view, string_of};

verus! {

#[verifier::external_type_specification]
#[verifier::external_body]
#[verifier::reject_recursive_types(R)]
pub struct ExXmlReader<R>(quick_xml::Reader<R>);

#[verifier::external_type_specification]
#[verifier::external_body]
pub struct ExBytesStart<'a>(BytesStart<'a>);

/// One attribute of a tag; `value` is `None` when its entities could not
/// be decoded.
pub struct XmlAttr {
    pub key: String,
    pub value: Option<String>,
}

/// An opening (or self-closing) tag: its qualified name and attributes.
pub struct XmlTag {
    pub name: String,
    pub attrs: Vec<XmlAttr>,
}

/// One event read from a document.
pub enum XmlEvent {
    Start(XmlTag),
    Empty(XmlTag),
    End(String),
    /// Text with entities decoded (the raw text when decoding failed).
    Text(String),
    CData(String),
    /// A comment, declaration, processing instruction or doctype.
    Other,
}

pub struct XmlTagView {
    pub name: Seq<char>,
    pub attrs: Seq<(Seq<char>, Option<Seq<char>>)>,
}

pub enum XmlEventView {
    Start(XmlTagView),
    Empty(XmlTagView),
    End(Seq<char>),
    Text(Seq<char>),
    CData(Seq<char>),
    Other,
}

pub open spec fn tag_view(t: XmlTag) -> XmlTagView {
    XmlTagView {
        name: t.name@,
        attrs: t.attrs@.map_values(|a: XmlAttr| (a.key@, opt_view(a.value))),
    }
}

pub open spec fn event_view(e: XmlEvent) -> XmlEventView {
    match e {
        XmlEvent::Start(t) => XmlEventView::Start(tag_view(t)),
        XmlEvent::Empty(t) => XmlEventView::Empty(tag_view(t)),
        XmlEvent::End(n) => XmlEventView::End(n@),
        XmlEvent::Text(s) => XmlEventView::Text(s@),
        XmlEvent::CData(s) => XmlEventView::CData(s@),
        XmlEvent::Other => XmlEventView::Other,
    }
}

pub open spec fn events_view(v: Seq<XmlEvent>) -> Seq<XmlEventView> {
    v.map_values(|e: XmlEvent| event_view(e))
}

/// What `quick_xml::Reader` (text trimming on) reads from `xml` up to the
/// end of the document: its events, or the message of the error it stops
/// at.
pub uninterp spec fn xml_events_of(xml: Seq<char>) -> Result<Seq<XmlEventView>, Seq<char>>;

/// `String::from_utf8_lossy`: the bytes as text, invalid sequences
/// replaced by U+FFFD.
#[verifier::external_body]
fn lossy(b: &[u8]) -> (r: String) {
    String::from_utf8_lossy(b).into_owned()
}

/// `BytesStart::name` and `BytesStart::attributes` (attributes that fail
/// to parse skipped, values through `unescape_value`).
#[verifier::external_body]
fn xml_tag(t: &BytesStart) -> (r: XmlTag) {
    XmlTag {
        name: lossy(t.name().as_ref()),
        attrs: t.attributes().flatten().map(|a| XmlAttr {
            key: lossy(a.key.as_ref()),
            value: a.unescape_value().ok().map(|v| v.into_owned()),
        }).collect(),
    }
}

/// `Reader::read_event`: the next event as a plain event, `None` at the
/// end of the document, or the error's message. Text is unescaped (kept
/// raw when unescaping fails).
#[verifier::external_body]
fn next_xml_event(reader: &mut quick_xml::Reader<&[u8]>) -> (r: Result<Option<XmlEvent>, String>) {
    let e = match reader.read_event() {
        Ok(e) => e,
        Err(e) => return Err(e.to_string()),
    };
    Ok(Some(match e {
        Q::Eof => return Ok(None),
        Q::Start(t) => XmlEvent::Start(xml_tag(&t)),
        Q::Empty(t) => XmlEvent::Empty(xml_tag(&t)),
        Q::End(t) => XmlEvent::End(lossy(t.name().as_ref())),
        Q::Text(t) => XmlEvent::Text(t.unescape().map_or_else(|_| lossy(&t), |s| s.into_owned())),
        Q::CData(t) => XmlEvent::CData(lossy(&t)),
        _ => XmlEvent::Other,
    }))
}

/// `quick_xml::Reader::from_str` with `trim_text(true)`, `read_event` until
/// `Eof`: the document's events, or the message of the first error. The
/// result depends on `xml` alone.
#[verifier::external_body]
pub(crate) fn read_xml_events(xml: &str) -> (r: Result<Vec<XmlEvent>, String>)
    ensures
        match r {
            Ok(v) => xml_events_of(xml@) == Ok::<Seq<XmlEventView>, Seq<char>>(events_view(v@)),
            Err(m) => xml_events_of(xml@) == Err::<Seq<XmlEventView>, Seq<char>>(m@),
        },
{
    let mut reader = quick_xml::Reader::from_str(xml);
    reader.config_mut().trim_text(true);
    let mut out = Vec::new();
    loop {
        match next_xml_event(&mut reader) {
            Ok(Some(e)) => out.push(e),
            Ok(None) => return Ok(out),
            Err(m) => return Err(m),
        }
    }
}

/// A name without its namespace prefix: what follows the first `:`.
pub open spec fn local_name(qname: Seq<char>) -> Seq<char> {
    match find_from(qname, ':', 0) {
        Some(i) => qname.skip(i + 1),
        None => qname,
    }
}

pub fn local_name_exec(qname: &str) -> (r: Vec<char>)
    ensures
        r@ == local_name(qname@),
{
    let q = chars_of(qname);
    let n = q.len();
    match find_char(q.as_slice(), ':', 0) {
        Some(i) => {
            proof {
                lemma_find_from(q@, ':', 0);
            }
            let r = copy_range(q.as_slice(), i + 1, n);
            proof {
                assert(r@ =~= q@.skip(i + 1));
            }
            r
        },
        None => q,
    }
}

/// The value of the first attribute named `key` (`None` when absent or
/// undecodable).
pub open spec fn attr_value(attrs: Seq<(Seq<char>, Option<Seq<char>>)>, key: Seq<char>) -> Option<Seq<char>>
    decreases attrs.len(),
{
    if attrs.len() == 0 {
        None
    } else if attrs[0].0 == key {
        attrs[0].1
    } else {
        attr_value(attrs.skip(1), key)
    }
}

pub fn get_attr(t: &XmlTag, key: &str) -> (r: Option<String>)
    ensures
        opt_view(r) == attr_value(tag_view(*t).attrs, key@),
{
    let mut i: usize = 0;
    let ghost attrs = tag_view(*t).attrs;
    proof {
        assert(attrs.skip(0) =~= attrs);
    }
    while i < t.attrs.len()
        invariant
            i <= t.attrs@.len(),
            attrs == tag_view(*t).attrs,
            attrs.len() == t.attrs@.len(),
            attr_value(attrs, key@) == attr_value(attrs.skip(i as int), key@),
        decreases t.attrs.len() - i,
    {
        proof {
            assert(attrs.skip(i as int)[0] == attrs[i as int]);
            assert(attrs.skip(i as int).skip(1) =~= attrs.skip(i + 1));
        }
        if chars_eq_str(chars_of(t.attrs[i].key.as_str()).as_slice(), key) {
            return match &t.attrs[i].value {
                Some(v) => Some(string_of(&chars_of(v.as_str()))),
                None => None,
            };
        }
        i += 1;
    }
    None
}

// ---------------------------------------------------------------------
// Writing
// ---------------------------------------------------------------------

/// One event to write.
pub enum XmlOut {
    /// `<?xml version="1.0"?>`
    Decl,
    Start(String),
    /// Text, escaped on output.
    Text(String),
    End(String),
}

pub enum XmlOutView {
    Decl,
    Start(Seq<char>),
    Text(Seq<char>),
    End(Seq<char>),
}

pub open spec fn out_view(e: XmlOut) -> XmlOutView {
    match e {
        XmlOut::Decl => XmlOutView::Decl,
        XmlOut::Start(s) => XmlOutView::Start(s@),
        XmlOut::Text(s) => XmlOutView::Text(s@),
        XmlOut::End(s) => XmlOutView::End(s@),
    }
}

pub open spec fn outs_view(v: Seq<XmlOut>) -> Seq<XmlOutView> {
    v.map_values(|e: XmlOut| out_view(e))
}

/// The whitespace `quick_xml` trims from text: space, tab, CR and LF.
pub open spec fn is_xml_ws(c: char) -> bool {
    c == ' ' || c == '\t' || c == '\r' || c == '\n'
}

pub open spec fn xml_trim_start(s: Seq<char>) -> Seq<char>
    decreases s.len(),
{
    if s.len() > 0 && is_xml_ws(s[0]) {
        xml_trim_start(s.drop_first())
    } else {
        s
    }
}

pub open spec fn xml_trim_end(s: Seq<char>) -> Seq<char>
    decreases s.len(),
{
    if s.len() > 0 && is_xml_ws(s.last()) {
        xml_trim_end(s.drop_last())
    } else {
        s
    }
}

/// Text as a reader with text trimming sees it.
pub open spec fn xml_trim(s: Seq<char>) -> Seq<char> {
    xml_trim_end(xml_trim_start(s))
}

/// What reading back one written event gives: the declaration is an
/// `Other` event, a tag comes back without attributes, and text comes
/// back trimmed, or not at all when nothing is left.
pub open spec fn read_back_one(e: XmlOutView) -> Seq<XmlEventView> {
    match e {
        XmlOutView::Decl => seq![XmlEventView::Other],
        XmlOutView::Start(n) => seq![XmlEventView::Start(XmlTagView { name: n, attrs: Seq::empty() })],
        XmlOutView::End(n) => seq![XmlEventView::End(n)],
        XmlOutView::Text(t) => if xml_trim(t).len() > 0 {
            seq![XmlEventView::Text(xml_trim(t))]
        } else {
            Seq::empty()
        },
    }
}

/// What reading back written events gives, event by event.
pub open spec fn read_back(es: Seq<XmlOutView>) -> Seq<XmlEventView>
    decreases es.len(),
{
    if es.len() == 0 {
        Seq::empty()
    } else {
        read_back(es.drop_last()) + read_back_one(es.last())
    }
}

/// A plain element name: ASCII letters, digits and `_`, not starting
/// with a digit.
pub open spec fn name_ok(n: Seq<char>) -> bool {
    &&& n.len() > 0
    &&& !('0' <= n[0] <= '9')
    &&& forall|k: int|
        0 <= k < n.len() ==> ('a' <= #[trigger] n[k] <= 'z' || 'A' <= n[k] <= 'Z' || '0' <= n[k] <= '9'
            || n[k] == '_')
}

/// `<f>v</f>`.
pub open spec fn field_out(f: (Seq<char>, Seq<char>)) -> Seq<XmlOutView> {
    seq![XmlOutView::Start(f.0), XmlOutView::Text(f.1), XmlOutView::End(f.0)]
}

pub open spec fn fields_out(fs: Seq<(Seq<char>, Seq<char>)>) -> Seq<XmlOutView>
    decreases fs.len(),
{
    if fs.len() == 0 {
        Seq::empty()
    } else {
        fields_out(fs.drop_last()) + field_out(fs.last())
    }
}

/// `<rec>` holding one text element per field.
pub open spec fn record_out(rec: Seq<char>, fs: Seq<(Seq<char>, Seq<char>)>) -> Seq<XmlOutView> {
    seq![XmlOutView::Start(rec)] + fields_out(fs) + seq![XmlOutView::End(rec)]
}

pub open spec fn records_out(rec: Seq<char>, recs: Seq<Seq<(Seq<char>, Seq<char>)>>) -> Seq<XmlOutView>
    decreases recs.len(),
{
    if recs.len() == 0 {
        Seq::empty()
    } else {
        records_out(rec, recs.drop_last()) + record_out(rec, recs.last())
    }
}

/// A declaration, then a root element holding one record element per
/// record, each holding text elements.
pub open spec fn record_doc(root: Seq<char>, rec: Seq<char>, recs: Seq<Seq<(Seq<char>, Seq<char>)>>) -> Seq<
    XmlOutView,
> {
    seq![XmlOutView::Decl, XmlOutView::Start(root)] + records_out(rec, recs) + seq![XmlOutView::End(root)]
}

/// Every element name of such a document is plain.
pub open spec fn record_doc_names_ok(root: Seq<char>, rec: Seq<char>, recs: Seq<Seq<(Seq<char>, Seq<char>)>>) -> bool {
    &&& name_ok(root)
    &&& name_ok(rec)
    &&& forall|i: int, k: int|
        0 <= i < recs.len() && 0 <= k < recs[i].len() ==> name_ok(#[trigger] recs[i][k].0)
}

/// Events that make such a document with plain element names.
pub open spec fn is_record_doc(es: Seq<XmlOutView>) -> bool {
    exists|root: Seq<char>, rec: Seq<char>, recs: Seq<Seq<(Seq<char>, Seq<char>)>>|
        record_doc_names_ok(root, rec, recs) && es == #[trigger] record_doc(root, rec, recs)
}

/// Whether reading `xml` gives [`read_back`] of the events `es`.
pub open spec fn reads_back_as(xml: Seq<char>, es: Seq<XmlOutView>) -> bool {
    xml_events_of(xml) == Ok::<Seq<XmlEventView>, Seq<char>>(read_back(es))
}

/// The text `quick_xml::Writer::new_with_indent(_, b' ', 4)` produces for
/// the events, written in order.
pub uninterp spec fn xml_render(events: Seq<XmlOutView>) -> Seq<char>;

/// Writes the events with `quick_xml::Writer` (indent of four spaces) into
/// memory and returns the text; it depends on the events alone. The
/// writer escapes `<`, `>`, `&`, `'` and `"` in text and puts only
/// newlines and spaces between tags, and the reader that
/// [`read_xml_events`] uses (text trimming on) unescapes exactly those
/// and drops text that is only space, tab, CR or LF; so a document of
/// records with plain element names reads back as [`read_back`] of its
/// events.
#[verifier::external_body]
pub(crate) fn render_xml(events: &[XmlOut]) -> (r: String)
    ensures
        r@ == xml_render(outs_view(events@)),
        is_record_doc(outs_view(events@)) ==> reads_back_as(r@, outs_view(events@)),
{
    let mut w = quick_xml::Writer::new_with_indent(Cursor::new(Vec::new()), b' ', 4);
    for e in events {
        let _ = w.write_event(match e {
            XmlOut::Decl => Q::Decl(BytesDecl::new("1.0", None, None)),
            XmlOut::Start(t) => Q::Start(BytesStart::new(t.as_str())),
            XmlOut::Text(t) => Q::Text(BytesText::new(t.as_str())),
            XmlOut::End(t) => Q::End(BytesEnd::new(t.as_str())),
        });
    }
    lossy(&w.into_inner().into_inner())
}

} // verus!
