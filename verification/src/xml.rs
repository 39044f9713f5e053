//! XML events as the EPUB parsers read them, produced by `quick_xml`'s
//! pull reader. The reader itself is an outside type: what it will still yield
//! is a named sequence of events, and each read takes the first of them.

use vstd::prelude::*;
use quick_xml::events::Event::{Empty, End, Eof, Start, Text};
use quick_xml::reader::Reader;

verus! {

#[verifier::external_type_specification]
#[verifier::external_body]
#[verifier::reject_recursive_types(R)]
pub struct ExXmlReader<R>(Reader<R>);

/// One attribute of a tag: its raw key and raw (still escaped) value.
#[derive(Clone, Debug)]
pub struct XmlAttribute {
    pub key: Vec<u8>,
    pub value: Vec<u8>,
}

/// An event of the XML pull reader.
#[derive(Clone, Debug)]
pub enum XmlEvent {
    /// An opening tag with its well-formed attributes; `empty` for a self-closing
    /// tag that the reader does not expand.
    Start { name: Vec<u8>, attributes: Vec<XmlAttribute>, empty: bool },
    /// A closing tag.
    End { name: Vec<u8> },
    /// Character data with entities unescaped (empty where unescaping fails).
    Text { text: String },
    /// A comment, CDATA section, declaration, processing instruction or doctype.
    Other,
    /// The end of the input.
    Eof,
    /// A syntax error; the reader yields nothing after it.
    Failure,
}

/// The events that stop a read loop.
pub open spec fn terminal(e: XmlEvent) -> bool {
    e is Eof || e is Failure
}

/// A finished event stream: it ends with its only terminal event.
pub open spec fn event_stream(s: Seq<XmlEvent>) -> bool {
    &&& s.len() > 0
    &&& terminal(s.last())
    &&& forall|i: int| 0 <= i < s.len() - 1 ==> !terminal(#[trigger] s[i])
}

/// The events that a fresh reader over `xml` yields, up to and including the first
/// end of input or error, with text trimming and empty-tag expansion as given.
pub uninterp spec fn xml_events(xml: Seq<char>, trim: bool, expand: bool) -> Seq<XmlEvent>;

/// The events that the reader `r` will still yield, up to and including the first
/// end of input or error.
pub uninterp spec fn pending_events(r: Reader<&[u8]>) -> Seq<XmlEvent>;

/// Calls `quick_xml::reader::Reader::from_str`, then sets `trim_text` and
/// `expand_empty_elements`. The reader will yield the named event stream of `xml`
/// under those settings; every read either consumes input or ends in the `Exit`
/// state, where only end-of-input follows, so that stream ends with one end of
/// input or one error.
#[verifier::external_body]
pub(crate) fn open_xml<'a>(xml: &'a str, trim: bool, expand: bool) -> (r: Reader<&'a [u8]>)
    ensures
        pending_events(r) == xml_events(xml@, trim, expand),
        event_stream(pending_events(r)),
{
    let mut reader = Reader::from_str(xml);
    reader.trim_text(trim);
    reader.expand_empty_elements(expand);
    reader
}

/// Calls `quick_xml::reader::Reader::read_event` and converts the event: tag names
/// and attribute keys and values as raw bytes, attributes that fail to parse left
/// out, text unescaped (empty on an unescaping error). It returns the first pending
/// event and leaves the rest pending.
#[verifier::external_body]
pub(crate) fn next_xml_event(r: &mut Reader<&[u8]>) -> (e: XmlEvent)
    requires
        pending_events(*old(r)).len() > 0,
    ensures
        e == pending_events(*old(r))[0],
        pending_events(*final(r)) == pending_events(*old(r)).drop_first(),
{
    let (t, empty) = match r.read_event() {
        Ok(Start(t)) => (t, false),
        Ok(Empty(t)) => (t, true),
        Ok(End(t)) => return XmlEvent::End { name: t.name().0.to_vec() },
        Ok(Text(t)) => return XmlEvent::Text { text: t.unescape().unwrap_or_default().into() },
        Ok(Eof) => return XmlEvent::Eof,
        Err(_) => return XmlEvent::Failure,
        _ => return XmlEvent::Other,
    };
    let attributes = t.attributes().flatten().map(|a| XmlAttribute { key: a.key.0.to_vec(), value: a.value.to_vec() }).collect();
    XmlEvent::Start { name: t.name().0.to_vec(), attributes, empty }
}

/// Reads every event the reader still yields.
pub(crate) fn read_all_events(r: &mut Reader<&[u8]>) -> (v: Vec<XmlEvent>)
    requires
        event_stream(pending_events(*old(r))),
    ensures
        v@ == pending_events(*old(r)),
{
    let ghost all = pending_events(*r);
    let mut v: Vec<XmlEvent> = Vec::new();
    loop
        invariant_except_break
            all.len() > 0,
            pending_events(*r).len() > 0,
            v@ + pending_events(*r) == all,
            event_stream(all),
            forall|i: int| 0 <= i < v@.len() ==> !terminal(#[trigger] v@[i]),
        ensures
            v@ == all,
        decreases pending_events(*r).len(),
    {
        let ghost before = v@;
        let ghost rest = pending_events(*r);
        let e = next_xml_event(r);
        let stop = match e {
            XmlEvent::Eof => true,
            XmlEvent::Failure => true,
            _ => false,
        };
        v.push(e);
        assert(v@ + pending_events(*r) =~= before + rest);
        if stop {
            assert(rest.len() == 1) by {
                if rest.len() > 1 {
                    assert(all[before.len() as int] == rest[0]);
                }
            }
            assert(v@ =~= all);
            break;
        }
    }
    v
}

} // verus!
