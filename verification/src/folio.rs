//! EPUB reading: the container and package documents, the two table-of-contents
//! formats, and the plain text of XHTML chapters.
//!
//! Each XML document is read as a stream of events (see `xml`); what the parsers
//! make of a stream is stated as a fold over its events.

use vstd::prelude::*;
use vstd::hash_map::StringHashMap;
use vstd::utf8::{decode_utf8, valid_utf8};
use crate::text::{
    chars_eq, chars_eq_str, chars_of, contains_str, contains_sub, from_utf8,
    decimal_digits, from_utf8_lossy, string_from_chars, string_from_range, trim, trimmed_string,
    utf8_lossy,
};
use crate::xml::{XmlAttribute, XmlEvent, open_xml, read_all_events, terminal, xml_events};
use crate::zip_reader::{
    METHOD_DEFLATE, METHOD_STORED, ZipArchive, ZipReadError, inflated, io_error_text,
    local_header_error, payload, read_outcome,
};
use crate::epub_text::{
    EpubTextExtractor, default_epub_text_extraction_options, extracted_text,
};

verus! {

// ---------------------------------------------------------------------------
// Names and attributes
// ---------------------------------------------------------------------------

/// The text of raw name bytes: their UTF-8 decoding, or empty when they are not
/// valid UTF-8.
pub open spec fn name_text(b: Seq<u8>) -> Seq<char> {
    if valid_utf8(b) {
        decode_utf8(b)
    } else {
        Seq::empty()
    }
}

/// The part of `s` after its last `:` (all of `s` when it has none).
pub open spec fn after_last_colon(s: Seq<char>) -> Seq<char>
    decreases s.len(),
{
    if s.len() == 0 {
        s
    } else if s.last() == ':' {
        Seq::empty()
    } else {
        after_last_colon(s.drop_last()).push(s.last())
    }
}

/// The local name of a tag or attribute: its text without a namespace prefix.
pub open spec fn local_name(b: Seq<u8>) -> Seq<char> {
    after_last_colon(name_text(b))
}

/// The value of the last attribute whose key reads `key`, decoded lossily.
pub open spec fn attr_last(attrs: Seq<XmlAttribute>, key: Seq<char>) -> Option<Seq<char>>
    decreases attrs.len(),
{
    if attrs.len() == 0 {
        None
    } else if name_text(attrs.last().key@) == key {
        Some(utf8_lossy(attrs.last().value@))
    } else {
        attr_last(attrs.drop_last(), key)
    }
}

/// The chars of the UTF-8 text of `b`, or no chars when `b` is not valid UTF-8.
pub(crate) fn text_of_name(b: &[u8]) -> (cs: Vec<char>)
    ensures
        cs@ == name_text(b@),
{
    match from_utf8(b) {
        Ok(s) => {
            proof {
                vstd::utf8::encode_utf8_decode_utf8(s@);
            }
            chars_of(s)
        },
        Err(_) => Vec::new(),
    }
}

fn after_last_colon_of(cs: &Vec<char>) -> (r: Vec<char>)
    ensures
        r@ == after_last_colon(cs@),
{
    let mut k = cs.len();
    assert(cs@.take(cs@.len() as int) =~= cs@);
    assert(cs@.skip(cs@.len() as int) =~= Seq::<char>::empty());
    while k > 0 && cs[k - 1] != ':'
        invariant
            k <= cs@.len(),
            after_last_colon(cs@) == after_last_colon(cs@.take(k as int)) + cs@.skip(k as int),
        decreases k,
    {
        let ghost t = cs@.take(k as int);
        assert(t.drop_last() =~= cs@.take(k - 1));
        assert(cs@.skip(k - 1) =~= seq![t.last()] + cs@.skip(k as int));
        assert(after_last_colon(t) == after_last_colon(t.drop_last()).push(t.last()));
        assert(after_last_colon(t.drop_last()).push(t.last()) + cs@.skip(k as int)
            =~= after_last_colon(t.drop_last()) + cs@.skip(k - 1));
        k -= 1;
    }
    if k > 0 {
        assert(after_last_colon(cs@.take(k as int)) =~= Seq::<char>::empty());
    } else {
        assert(after_last_colon(cs@.take(0)) =~= Seq::<char>::empty());
    }
    assert(Seq::<char>::empty() + cs@.skip(k as int) =~= cs@.skip(k as int));
    let r = vstd::slice::slice_to_vec(vstd::slice::slice_subrange(cs.as_slice(), k, cs.len()));
    assert(r@ =~= cs@.skip(k as int));
    r
}

/// The local name of raw name bytes, as chars.
pub fn local_name_of(b: &[u8]) -> (r: Vec<char>)
    ensures
        r@ == local_name(b@),
{
    let cs = text_of_name(b);
    after_last_colon_of(&cs)
}

/// The value of the last attribute whose key reads `key`, decoded lossily.
pub fn attr_value(attrs: &Vec<XmlAttribute>, key: &str) -> (r: Option<String>)
    ensures
        r matches Some(s) ==> attr_last(attrs@, key@) == Some(s@),
        r is None ==> attr_last(attrs@, key@) is None,
{
    let mut k = attrs.len();
    assert(attrs@.take(attrs@.len() as int) =~= attrs@);
    while k > 0
        invariant
            k <= attrs@.len(),
            attr_last(attrs@, key@) == attr_last(attrs@.take(k as int), key@),
        decreases k,
    {
        let a = &attrs[k - 1];
        let kt = text_of_name(a.key.as_slice());
        let ghost t = attrs@.take(k as int);
        assert(t.last() == attrs@[k - 1]);
        if chars_eq_str(kt.as_slice(), key) {
            return Some(from_utf8_lossy(a.value.as_slice()));
        }
        assert(t.drop_last() =~= attrs@.take(k - 1));
        k -= 1;
    }
    None
}

// ---------------------------------------------------------------------------
// Shared types
// ---------------------------------------------------------------------------

/// One entry of a table of contents, with the entries nested under it.
#[derive(Debug)]
pub struct TocEntry {
    pub title: String,
    pub href: String,
    pub children: Vec<TocEntry>,
}

/// A table-of-contents entry as plain values.
pub struct TocModel {
    pub title: Seq<char>,
    pub href: Seq<char>,
    pub children: Seq<TocModel>,
}

/// The plain value of a table-of-contents entry.
pub open spec fn toc_model(e: TocEntry) -> TocModel
    decreases e,
{
    TocModel { title: e.title@, href: e.href@, children: toc_models_of(e.children@) }
}

/// The plain values of table-of-contents entries.
pub open spec fn toc_models_of(es: Seq<TocEntry>) -> Seq<TocModel>
    decreases es,
{
    if es.len() == 0 {
        Seq::empty()
    } else {
        seq![toc_model(es[0])] + toc_models_of(es.drop_first())
    }
}

/// Why an EPUB could not be read.
#[derive(Debug)]
pub enum FolioParserError {
    IoError { msg: String },
    ZipError { msg: String },
    XmlError { msg: String },
    MissingContainer,
    MissingOpf { path: String },
    MissingChapter { path: String },
}

/// The extracted text of one spine item.
#[derive(Clone, Debug)]
pub struct EpubChapter {
    pub spine_index: i32,
    pub title: Option<String>,
    pub text: String,
}

// ---------------------------------------------------------------------------
// container.xml
// ---------------------------------------------------------------------------

/// What `META-INF/container.xml` points to.
#[derive(Debug)]
pub struct ContainerXmlParser {
    pub opf_path: Option<String>,
}

/// The package path after `evs`, given the path `opf` found so far: each
/// `rootfile` tag's `full-path` attribute replaces it. Reading stops at the end of
/// input or an error.
pub open spec fn container_fold(evs: Seq<XmlEvent>, opf: Option<Seq<char>>) -> Option<Seq<char>>
    decreases evs.len(),
{
    if evs.len() == 0 || terminal(evs[0]) {
        opf
    } else {
        let next = match evs[0] {
            XmlEvent::Start { name, attributes, .. } => {
                if local_name(name@) == "rootfile"@ {
                    match attr_last(attributes@, "full-path"@) {
                        Some(v) => Some(v),
                        None => opf,
                    }
                } else {
                    opf
                }
            },
            _ => opf,
        };
        container_fold(evs.drop_first(), next)
    }
}

/// The package path named by a container document's events.
pub fn container_from_events(events: &Vec<XmlEvent>) -> (p: ContainerXmlParser)
    ensures
        p.opf_path matches Some(s) ==> container_fold(events@, None) == Some(s@),
        p.opf_path is None ==> container_fold(events@, None) is None,
{
    let mut opf: Option<String> = None;
    let mut k: usize = 0;
    assert(events@.skip(0) =~= events@);
    loop
        invariant_except_break
            k <= events@.len(),
            container_fold(events@, None) == container_fold(
                events@.skip(k as int),
                match opf {
                    Some(s) => Some(s@),
                    None => None,
                },
            ),
        ensures
            container_fold(events@, None) == match opf {
                Some(s) => Some(s@),
                None => None,
            },
        decreases events@.len() - k,
    {
        if k >= events.len() {
            assert(events@.skip(k as int) =~= Seq::<XmlEvent>::empty());
            break;
        }
        let ghost rest = events@.skip(k as int);
        assert(rest[0] == events@[k as int]);
        assert(rest.drop_first() =~= events@.skip(k + 1));
        let ev = &events[k];
        match ev {
            XmlEvent::Eof => break,
            XmlEvent::Failure => break,
            XmlEvent::Start { name, attributes, .. } => {
                let local = local_name_of(name.as_slice());
                if chars_eq_str(local.as_slice(), "rootfile") {
                    match attr_value(attributes, "full-path") {
                        Some(v) => {
                            opf = Some(v);
                        },
                        None => {},
                    }
                }
            },
            _ => {},
        }
        k += 1;
    }
    ContainerXmlParser { opf_path: opf }
}

/// Find the package document's path in `META-INF/container.xml`: the `full-path`
/// of the last `rootfile` element read before the end or the first XML error.
pub fn parse_container_xml(xml: String) -> (p: ContainerXmlParser)
    ensures
        p.opf_path matches Some(s) ==> container_fold(xml_events(xml@, true, false), None) == Some(
            s@,
        ),
        p.opf_path is None ==> container_fold(xml_events(xml@, true, false), None) is None,
{
    let mut reader = open_xml(xml.as_str(), true, false);
    let events = read_all_events(&mut reader);
    container_from_events(&events)
}

// ---------------------------------------------------------------------------
// Paths inside the archive
// ---------------------------------------------------------------------------

/// The pieces of `s` between `/` separators (`str::split('/')`), given the piece
/// `cur` under way.
pub open spec fn split_slash_from(s: Seq<char>, cur: Seq<char>) -> Seq<Seq<char>>
    decreases s.len(),
{
    if s.len() == 0 {
        seq![cur]
    } else if s[0] == '/' {
        seq![cur] + split_slash_from(s.drop_first(), Seq::empty())
    } else {
        split_slash_from(s.drop_first(), cur.push(s[0]))
    }
}

/// The pieces of `s` between `/` separators; one empty piece for the empty string.
pub open spec fn split_slash(s: Seq<char>) -> Seq<Seq<char>> {
    split_slash_from(s, Seq::empty())
}

/// `parts` after applying the path segments `segs`: `.` and empty segments are
/// skipped, `..` drops the last part, anything else is appended.
pub open spec fn apply_segments(parts: Seq<Seq<char>>, segs: Seq<Seq<char>>) -> Seq<Seq<char>>
    decreases segs.len(),
{
    if segs.len() == 0 {
        parts
    } else {
        let s = segs[0];
        let next = if s == "."@ || s.len() == 0 {
            parts
        } else if s == ".."@ {
            if parts.len() > 0 {
                parts.drop_last()
            } else {
                parts
            }
        } else {
            parts.push(s)
        };
        apply_segments(next, segs.drop_first())
    }
}

/// `parts` joined with `/`.
pub open spec fn join_slash(parts: Seq<Seq<char>>) -> Seq<char>
    decreases parts.len(),
{
    if parts.len() == 0 {
        Seq::empty()
    } else if parts.len() == 1 {
        parts[0]
    } else {
        join_slash(parts.drop_last()) + seq!['/'] + parts.last()
    }
}

/// The archive path of `rel` read relative to the directory `base`.
pub open spec fn resolved_path(base: Seq<char>, rel: Seq<char>) -> Seq<char> {
    let start = if base.len() == 0 {
        Seq::empty()
    } else {
        split_slash(base)
    };
    join_slash(apply_segments(start, split_slash(rel)))
}

proof fn lemma_chars_deep_view(v: Vec<char>)
    ensures
        v.deep_view() == v@,
{
    assert(v.deep_view() =~= v@);
}

fn split_slash_exec(s: &str) -> (parts: Vec<Vec<char>>)
    ensures
        parts.deep_view() == split_slash(s@),
{
    let cs = chars_of(s);
    let mut parts: Vec<Vec<char>> = Vec::new();
    let mut cur: Vec<char> = Vec::new();
    let mut k: usize = 0;
    assert(cs@.skip(0) =~= cs@);
    while k < cs.len()
        invariant
            k <= cs@.len(),
            cs@ == s@,
            parts.deep_view() + split_slash_from(cs@.skip(k as int), cur@) == split_slash(s@),
        decreases cs@.len() - k,
    {
        let ghost rest = cs@.skip(k as int);
        let ghost before = parts.deep_view();
        let ghost cur0 = cur@;
        assert(rest[0] == cs@[k as int]);
        assert(rest.drop_first() =~= cs@.skip(k + 1));
        if cs[k] == '/' {
            proof {
                lemma_chars_deep_view(cur);
            }
            parts.push(cur);
            assert(parts.deep_view() =~= before + seq![cur0]);
            cur = Vec::new();
            assert(parts.deep_view() + split_slash_from(cs@.skip(k + 1), cur@) =~= before
                + split_slash_from(rest, cur0));
        } else {
            cur.push(cs[k]);
        }
        k += 1;
    }
    let ghost before = parts.deep_view();
    assert(cs@.skip(k as int) =~= Seq::<char>::empty());
    proof {
        lemma_chars_deep_view(cur);
    }
    parts.push(cur);
    assert(parts.deep_view() =~= before + seq![cur@]);
    parts
}

/// Resolve `relative_path` against the archive directory `base_dir`: `.` and empty
/// segments are skipped, `..` climbs one directory (never above the root), and the
/// result is joined with `/`.
pub fn resolve_zip_path(base_dir: &str, relative_path: &str) -> (r: String)
    ensures
        r@ == resolved_path(base_dir@, relative_path@),
{
    let mut parts: Vec<Vec<char>> = if base_dir.is_empty() {
        Vec::new()
    } else {
        split_slash_exec(base_dir)
    };
    proof {
        if base_dir@.len() == 0 {
            assert(parts.deep_view() =~= Seq::<Seq<char>>::empty());
        }
    }
    let segs = split_slash_exec(relative_path);
    let ghost start = parts.deep_view();
    let mut k: usize = 0;
    assert(segs.deep_view().skip(0) =~= segs.deep_view());
    while k < segs.len()
        invariant
            k <= segs@.len(),
            apply_segments(parts.deep_view(), segs.deep_view().skip(k as int)) == apply_segments(
                start,
                segs.deep_view(),
            ),
        decreases segs@.len() - k,
    {
        let ghost rest = segs.deep_view().skip(k as int);
        assert(rest[0] == segs@[k as int]@);
        assert(rest.drop_first() =~= segs.deep_view().skip(k + 1));
        let seg = &segs[k];
        let ghost before = parts.deep_view();
        if chars_eq_str(seg.as_slice(), ".") || seg.len() == 0 {
        } else if chars_eq_str(seg.as_slice(), "..") {
            if parts.len() > 0 {
                parts.pop();
                assert(parts.deep_view() =~= before.drop_last());
            }
        } else {
            proof {
                lemma_chars_deep_view(*seg);
            }
            parts.push(seg.clone());
            assert(parts.deep_view() =~= before.push(seg@));
        }
        k += 1;
    }
    assert(segs.deep_view().skip(k as int) =~= Seq::<Seq<char>>::empty());
    join_parts(&parts)
}

fn join_parts(parts: &Vec<Vec<char>>) -> (r: String)
    ensures
        r@ == join_slash(parts.deep_view()),
{
    let mut out: Vec<char> = Vec::new();
    let mut k: usize = 0;
    while k < parts.len()
        invariant
            k <= parts@.len(),
            out@ == join_slash(parts.deep_view().take(k as int)),
        decreases parts@.len() - k,
    {
        let ghost before = out@;
        let ghost t = parts.deep_view().take(k + 1);
        assert(t.drop_last() =~= parts.deep_view().take(k as int));
        assert(t.last() == parts@[k as int]@);
        if k > 0 {
            out.push('/');
        }
        let p = &parts[k];
        let mut j: usize = 0;
        let ghost mid = out@;
        while j < p.len()
            invariant
                j <= p@.len(),
                out@ == mid + p@.take(j as int),
            decreases p@.len() - j,
        {
            out.push(p[j]);
            j += 1;
            assert(out@ =~= mid + p@.take(j as int));
        }
        assert(p@.take(j as int) =~= p@);
        if k == 0 {
            assert(t.len() == 1);
            assert(out@ =~= t[0]);
        } else {
            assert(out@ =~= before + seq!['/'] + t.last());
        }
        k += 1;
    }
    assert(parts.deep_view().take(k as int) =~= parts.deep_view());
    string_from_chars(out.as_slice())
}

// ---------------------------------------------------------------------------
// The package document (OPF)
// ---------------------------------------------------------------------------

/// A map to strings, its values read as chars.
pub open spec fn text_map(m: Map<Seq<char>, String>) -> Map<Seq<char>, Seq<char>> {
    m.map_values(|v: String| v@)
}

/// The string mapped to `key`, if any.
pub fn text_lookup(m: &StringHashMap<String>, key: &str) -> (r: Option<String>)
    ensures
        r matches Some(v) ==> text_map(m@).contains_key(key@) && text_map(m@)[key@] == v@,
        r is None ==> !text_map(m@).contains_key(key@),
{
    match m.get(key) {
        Some(v) => Some(v.clone()),
        None => None,
    }
}

/// What the package document says: the manifest, the spine, the Dublin Core
/// metadata, and where the tables of contents and the cover are.
pub struct OpfXmlParser {
    pub hrefs: StringHashMap<String>,
    pub spine_item_refs: Vec<String>,
    pub media_types: StringHashMap<String>,
    pub title: Option<String>,
    pub author: Option<String>,
    pub language: Option<String>,
    pub publisher: Option<String>,
    pub date: Option<String>,
    pub identifier: Option<String>,
    pub book_description: Option<String>,
    pub subjects: Vec<String>,
    pub spine_toc_id: Option<String>,
    pub nav_href: Option<String>,
    pub ncx_href: Option<String>,
    pub resolved_cover_href: Option<String>,
}

/// The package document as plain values.
pub struct OpfModel {
    pub hrefs: Map<Seq<char>, Seq<char>>,
    pub spine: Seq<Seq<char>>,
    pub media_types: Map<Seq<char>, Seq<char>>,
    pub title: Option<Seq<char>>,
    pub author: Option<Seq<char>>,
    pub language: Option<Seq<char>>,
    pub publisher: Option<Seq<char>>,
    pub date: Option<Seq<char>>,
    pub identifier: Option<Seq<char>>,
    pub description: Option<Seq<char>>,
    pub subjects: Seq<Seq<char>>,
    pub spine_toc_id: Option<Seq<char>>,
    pub nav_href: Option<Seq<char>>,
    pub ncx_href: Option<Seq<char>>,
    pub cover_href: Option<Seq<char>>,
}

/// The state of a scan over a package document: what has been found, the element
/// last opened, the text gathered inside it, and the two cover candidates.
pub struct OpfScan {
    pub model: OpfModel,
    pub current: Option<Seq<char>>,
    pub text: Seq<char>,
    pub cover_meta_id: Option<Seq<char>>,
    pub epub3_cover: Option<Seq<char>>,
}

/// The plain value of an optional string.
pub open spec fn opt_view(o: Option<String>) -> Option<Seq<char>> {
    match o {
        Some(s) => Some(s@),
        None => None,
    }
}

/// The value mapped to `k`, if any.
pub open spec fn map_get(m: Map<Seq<char>, Seq<char>>, k: Seq<char>) -> Option<Seq<char>> {
    if m.contains_key(k) {
        Some(m[k])
    } else {
        None
    }
}

/// The package document read so far, before the tables of contents and the cover
/// are resolved.
pub open spec fn empty_opf() -> OpfModel {
    OpfModel {
        hrefs: Map::empty(),
        spine: Seq::empty(),
        media_types: Map::empty(),
        title: None,
        author: None,
        language: None,
        publisher: None,
        date: None,
        identifier: None,
        description: None,
        subjects: Seq::empty(),
        spine_toc_id: None,
        nav_href: None,
        ncx_href: None,
        cover_href: None,
    }
}

/// The elements whose text is metadata.
pub open spec fn metadata_element(n: Seq<char>) -> bool {
    ||| n == "title"@ ||| n == "creator"@ ||| n == "language"@ ||| n == "publisher"@
    ||| n == "date"@ ||| n == "identifier"@ ||| n == "description"@ ||| n == "subject"@
}

/// A manifest `item`: with both `id` and `href` it is recorded, with its media type,
/// and its `properties` may mark the cover image and the navigation document.
pub open spec fn opf_item(s: OpfScan, attrs: Seq<XmlAttribute>) -> OpfScan {
    let m = s.model;
    match (attr_last(attrs, "id"@), attr_last(attrs, "href"@)) {
        (Some(id), Some(href)) => {
            let media = match attr_last(attrs, "media-type"@) {
                Some(mt) => m.media_types.insert(id, mt),
                None => m.media_types,
            };
            let (cover, nav) = match attr_last(attrs, "properties"@) {
                Some(p) => (
                    if contains_sub(p, "cover-image"@) { Some(href) } else { s.epub3_cover },
                    if contains_sub(p, "nav"@) { Some(href) } else { m.nav_href },
                ),
                None => (s.epub3_cover, m.nav_href),
            };
            OpfScan {
                model: OpfModel { hrefs: m.hrefs.insert(id, href), media_types: media, nav_href: nav, ..m },
                epub3_cover: cover,
                ..s
            }
        },
        _ => s,
    }
}

/// A start tag with local name `local`: it becomes the current element with no
/// text yet, and manifest items, spine references, the spine and `meta` tags are
/// recorded.
pub open spec fn opf_start(s0: OpfScan, local: Seq<char>, attrs: Seq<XmlAttribute>) -> OpfScan {
    let s = OpfScan { current: Some(local), text: Seq::empty(), ..s0 };
    let m = s.model;
    if local == "item"@ {
        opf_item(s, attrs)
    } else if local == "itemref"@ {
        match attr_last(attrs, "idref"@) {
            Some(id) => if attr_last(attrs, "linear"@) != Some("no"@) {
                OpfScan { model: OpfModel { spine: m.spine.push(id), ..m }, ..s }
            } else {
                s
            },
            None => s,
        }
    } else if local == "spine"@ {
        match attr_last(attrs, "toc"@) {
            Some(t) => OpfScan { model: OpfModel { spine_toc_id: Some(t), ..m }, ..s },
            None => s,
        }
    } else if local == "meta"@ {
        if attr_last(attrs, "name"@) == Some("cover"@) {
            OpfScan { cover_meta_id: attr_last(attrs, "content"@), ..s }
        } else {
            s
        }
    } else {
        s
    }
}

/// A closing tag with local name `local`: the gathered text, trimmed and when not
/// empty, fills the matching metadata field, and the current element is closed.
pub open spec fn opf_end(s: OpfScan, local: Seq<char>) -> OpfScan {
    let v = trim(s.text);
    let m = s.model;
    let m2 = if v.len() == 0 {
        m
    } else if local == "title"@ {
        OpfModel { title: Some(v), ..m }
    } else if local == "creator"@ {
        OpfModel { author: Some(v), ..m }
    } else if local == "language"@ {
        OpfModel { language: Some(v), ..m }
    } else if local == "publisher"@ {
        OpfModel { publisher: Some(v), ..m }
    } else if local == "date"@ {
        OpfModel { date: Some(v), ..m }
    } else if local == "identifier"@ {
        OpfModel { identifier: Some(v), ..m }
    } else if local == "description"@ {
        OpfModel { description: Some(v), ..m }
    } else if local == "subject"@ {
        OpfModel { subjects: m.subjects.push(v), ..m }
    } else {
        m
    };
    OpfScan {
        model: m2,
        current: if s.current == Some(local) { None } else { s.current },
        ..s
    }
}

/// One event of a package document.
pub open spec fn opf_step(s: OpfScan, e: XmlEvent) -> OpfScan {
    match e {
        XmlEvent::Start { name, attributes, .. } => opf_start(s, local_name(name@), attributes@),
        XmlEvent::Text { text } => match s.current {
            Some(c) => if metadata_element(c) {
                OpfScan { text: s.text + text@, ..s }
            } else {
                s
            },
            None => s,
        },
        XmlEvent::End { name } => opf_end(s, local_name(name@)),
        _ => s,
    }
}

/// The scan after `evs`, stopping at the end of input or an error.
pub open spec fn opf_fold(evs: Seq<XmlEvent>, s: OpfScan) -> OpfScan
    decreases evs.len(),
{
    if evs.len() == 0 || terminal(evs[0]) {
        s
    } else {
        opf_fold(evs.drop_first(), opf_step(s, evs[0]))
    }
}

/// The scan at the start of a document.
pub open spec fn opf_initial() -> OpfScan {
    OpfScan {
        model: empty_opf(),
        current: None,
        text: Seq::empty(),
        cover_meta_id: None,
        epub3_cover: None,
    }
}

/// The package document after a finished scan: the NCX is the manifest entry named by
/// the spine's `toc`, and the cover is the `cover-image` item, else the manifest
/// entry that the `cover` meta names.
pub open spec fn opf_finish(s: OpfScan) -> OpfModel {
    let m = s.model;
    let ncx = match m.spine_toc_id {
        Some(id) => map_get(m.hrefs, id),
        None => None,
    };
    let cover = match s.epub3_cover {
        Some(c) => Some(c),
        None => match s.cover_meta_id {
            Some(id) => map_get(m.hrefs, id),
            None => None,
        },
    };
    OpfModel { ncx_href: ncx, cover_href: cover, ..m }
}

/// The package document that `evs` describe.
pub open spec fn opf_of_events(evs: Seq<XmlEvent>) -> OpfModel {
    opf_finish(opf_fold(evs, opf_initial()))
}

/// The plain values of a parsed package document.
pub open spec fn opf_view(p: OpfXmlParser) -> OpfModel {
    OpfModel {
        hrefs: text_map(p.hrefs@),
        spine: p.spine_item_refs.deep_view(),
        media_types: text_map(p.media_types@),
        title: opt_view(p.title),
        author: opt_view(p.author),
        language: opt_view(p.language),
        publisher: opt_view(p.publisher),
        date: opt_view(p.date),
        identifier: opt_view(p.identifier),
        description: opt_view(p.book_description),
        subjects: p.subjects.deep_view(),
        spine_toc_id: opt_view(p.spine_toc_id),
        nav_href: opt_view(p.nav_href),
        ncx_href: opt_view(p.ncx_href),
        cover_href: opt_view(p.resolved_cover_href),
    }
}

/// A package document being scanned.
struct OpfScanner {
    parser: OpfXmlParser,
    current: Option<Vec<char>>,
    text: Vec<char>,
    cover_meta_id: Option<String>,
    epub3_cover: Option<String>,
}

impl OpfScanner {
    spec fn view(&self) -> OpfScan {
        OpfScan {
            model: opf_view(self.parser),
            current: match self.current {
                Some(c) => Some(c@),
                None => None,
            },
            text: self.text@,
            cover_meta_id: opt_view(self.cover_meta_id),
            epub3_cover: opt_view(self.epub3_cover),
        }
    }

    spec fn unresolved(&self) -> bool {
        self.parser.ncx_href is None && self.parser.resolved_cover_href is None
    }

    fn new() -> (s: Self)
        ensures
            s.view() == opf_initial(),
            s.unresolved(),
    {
        let s = OpfScanner {
            parser: OpfXmlParser {
                hrefs: StringHashMap::new(),
                spine_item_refs: Vec::new(),
                media_types: StringHashMap::new(),
                title: None,
                author: None,
                language: None,
                publisher: None,
                date: None,
                identifier: None,
                book_description: None,
                subjects: Vec::new(),
                spine_toc_id: None,
                nav_href: None,
                ncx_href: None,
                resolved_cover_href: None,
            },
            current: None,
            text: Vec::new(),
            cover_meta_id: None,
            epub3_cover: None,
        };
        assert(s.parser.spine_item_refs.deep_view() =~= Seq::<Seq<char>>::empty());
        assert(text_map(s.parser.hrefs@) =~= Map::<Seq<char>, Seq<char>>::empty());
        assert(text_map(s.parser.media_types@) =~= Map::<Seq<char>, Seq<char>>::empty());
        assert(s.parser.subjects.deep_view() =~= Seq::<Seq<char>>::empty());
        assert(s.view().text =~= Seq::<char>::empty());
        s
    }

    fn item(&mut self, attrs: &Vec<XmlAttribute>)
        requires
            old(self).unresolved(),
        ensures
            final(self).unresolved(),
            final(self).view() == opf_item(old(self).view(), attrs@),
    {
        let id = attr_value(attrs, "id");
        let href = attr_value(attrs, "href");
        let mt = attr_value(attrs, "media-type");
        let props = attr_value(attrs, "properties");
        match (id, href) {
            (Some(id), Some(href)) => {
                match mt {
                    Some(mt) => {
                        let ghost before = self.parser.media_types@;
                        let ghost v = mt@;
                        self.parser.media_types.insert(id.clone(), mt);
                        assert(text_map(self.parser.media_types@) =~= text_map(before).insert(id@, v));
                    },
                    None => {},
                }
                let ghost before = self.parser.hrefs@;
                let ghost k = id@;
                self.parser.hrefs.insert(id, href.clone());
                assert(text_map(self.parser.hrefs@) =~= text_map(before).insert(k, href@));
                match props {
                    Some(p) => {
                        let pc = chars_of(p.as_str());
                        if contains_str(pc.as_slice(), "cover-image") {
                            self.epub3_cover = Some(href.clone());
                        }
                        if contains_str(pc.as_slice(), "nav") {
                            self.parser.nav_href = Some(href);
                        }
                    },
                    None => {},
                }
            },
            _ => {},
        }
    }

    fn start(&mut self, local: Vec<char>, attrs: &Vec<XmlAttribute>)
        requires
            old(self).unresolved(),
        ensures
            final(self).unresolved(),
            final(self).view() == opf_start(old(self).view(), local@, attrs@),
    {
        let is_item = chars_eq_str(local.as_slice(), "item");
        let is_itemref = chars_eq_str(local.as_slice(), "itemref");
        let is_spine = chars_eq_str(local.as_slice(), "spine");
        let is_meta = chars_eq_str(local.as_slice(), "meta");
        self.current = Some(local);
        self.text = Vec::new();
        assert(self.text@ =~= Seq::<char>::empty());
        if is_item {
            self.item(attrs);
        } else if is_itemref {
            match attr_value(attrs, "idref") {
                Some(id) => {
                    let no = match attr_value(attrs, "linear") {
                        Some(lin) => {
                            let lc = chars_of(lin.as_str());
                            chars_eq_str(lc.as_slice(), "no")
                        },
                        None => false,
                    };
                    if !no {
                        let ghost before = self.parser.spine_item_refs.deep_view();
                        self.parser.spine_item_refs.push(id);
                        assert(self.parser.spine_item_refs.deep_view() =~= before.push(id@));
                    }
                },
                None => {},
            }
        } else if is_spine {
            match attr_value(attrs, "toc") {
                Some(t) => {
                    self.parser.spine_toc_id = Some(t);
                },
                None => {},
            }
        } else if is_meta {
            let is_cover = match attr_value(attrs, "name") {
                Some(n) => {
                    let nc = chars_of(n.as_str());
                    chars_eq_str(nc.as_slice(), "cover")
                },
                None => false,
            };
            if is_cover {
                self.cover_meta_id = attr_value(attrs, "content");
            }
        }
    }

    fn text(&mut self, t: &String)
        ensures
            final(self).unresolved() == old(self).unresolved(),
            final(self).view() == opf_step(old(self).view(), XmlEvent::Text { text: *t }),
    {
        let gather = match &self.current {
            Some(c) => is_metadata_element(c.as_slice()),
            None => false,
        };
        if gather {
            append_chars(&mut self.text, t.as_str());
        }
    }

    fn end(&mut self, local: Vec<char>)
        requires
            old(self).unresolved(),
        ensures
            final(self).unresolved(),
            final(self).view() == opf_end(old(self).view(), local@),
    {
        let v = trimmed_string(self.text.as_slice(), 0, self.text.len());
        assert(self.text@.subrange(0, self.text@.len() as int) =~= self.text@);
        let l = local.as_slice();
        if !v.as_str().is_empty() {
            if chars_eq_str(l, "title") {
                self.parser.title = Some(v);
            } else if chars_eq_str(l, "creator") {
                self.parser.author = Some(v);
            } else if chars_eq_str(l, "language") {
                self.parser.language = Some(v);
            } else if chars_eq_str(l, "publisher") {
                self.parser.publisher = Some(v);
            } else if chars_eq_str(l, "date") {
                self.parser.date = Some(v);
            } else if chars_eq_str(l, "identifier") {
                self.parser.identifier = Some(v);
            } else if chars_eq_str(l, "description") {
                self.parser.book_description = Some(v);
            } else if chars_eq_str(l, "subject") {
                let ghost before = self.parser.subjects.deep_view();
                self.parser.subjects.push(v);
                assert(self.parser.subjects.deep_view() =~= before.push(trim(self.text@)));
            }
        }
        let close = match &self.current {
            Some(c) => chars_eq(c.as_slice(), l),
            None => false,
        };
        if close {
            self.current = None;
        }
    }
}

fn append_chars(dst: &mut Vec<char>, src: &str)
    ensures
        final(dst)@ == old(dst)@ + src@,
{
    let tc = chars_of(src);
    let ghost before = dst@;
    let mut k: usize = 0;
    while k < tc.len()
        invariant
            k <= tc@.len(),
            dst@ == before + tc@.take(k as int),
        decreases tc@.len() - k,
    {
        dst.push(tc[k]);
        k += 1;
        assert(dst@ =~= before + tc@.take(k as int));
    }
    assert(tc@.take(k as int) =~= src@);
}

fn is_metadata_element(n: &[char]) -> (r: bool)
    ensures
        r == metadata_element(n@),
{
    chars_eq_str(n, "title") || chars_eq_str(n, "creator") || chars_eq_str(n, "language")
        || chars_eq_str(n, "publisher") || chars_eq_str(n, "date") || chars_eq_str(n, "identifier")
        || chars_eq_str(n, "description") || chars_eq_str(n, "subject")
}

/// The package document that a stream of events describes.
pub fn opf_from_events(events: &Vec<XmlEvent>) -> (p: OpfXmlParser)
    ensures
        opf_view(p) == opf_of_events(events@),
{
    let mut s = OpfScanner::new();
    let mut k: usize = 0;
    assert(events@.skip(0) =~= events@);
    loop
        invariant_except_break
            k <= events@.len(),
            s.unresolved(),
            opf_fold(events@, opf_initial()) == opf_fold(events@.skip(k as int), s.view()),
        ensures
            s.unresolved(),
            opf_fold(events@, opf_initial()) == s.view(),
        decreases events@.len() - k,
    {
        if k >= events.len() {
            assert(events@.skip(k as int) =~= Seq::<XmlEvent>::empty());
            break;
        }
        let ghost rest = events@.skip(k as int);
        assert(rest[0] == events@[k as int]);
        assert(rest.drop_first() =~= events@.skip(k + 1));
        match &events[k] {
            XmlEvent::Eof => break,
            XmlEvent::Failure => break,
            XmlEvent::Start { name, attributes, .. } => {
                let local = local_name_of(name.as_slice());
                s.start(local, attributes);
            },
            XmlEvent::Text { text } => {
                s.text(text);
            },
            XmlEvent::End { name } => {
                let local = local_name_of(name.as_slice());
                s.end(local);
            },
            XmlEvent::Other => {},
        }
        k += 1;
    }
    let mut p = s.parser;
    let ncx = match &p.spine_toc_id {
        Some(id) => text_lookup(&p.hrefs, id.as_str()),
        None => None,
    };
    let cover = match s.epub3_cover {
        Some(c) => Some(c),
        None => match &s.cover_meta_id {
            Some(id) => text_lookup(&p.hrefs, id.as_str()),
            None => None,
        },
    };
    p.ncx_href = ncx;
    p.resolved_cover_href = cover;
    p
}

/// Read the package document: the manifest (id to href and media type), the spine
/// (linear item references in order), the Dublin Core metadata, the subjects, the
/// navigation document, the NCX named by the spine's `toc`, and the cover image.
pub fn parse_opf_xml(xml: String) -> (p: OpfXmlParser)
    ensures
        opf_view(p) == opf_of_events(xml_events(xml@, true, false)),
{
    let mut reader = open_xml(xml.as_str(), true, false);
    let events = read_all_events(&mut reader);
    opf_from_events(&events)
}

// ---------------------------------------------------------------------------
// Tables of contents
// ---------------------------------------------------------------------------

proof fn lemma_toc_models_index(es: Seq<TocEntry>)
    ensures
        toc_models_of(es).len() == es.len(),
        forall|i: int| 0 <= i < es.len() ==> #[trigger] toc_models_of(es)[i] == toc_model(es[i]),
    decreases es.len(),
{
    if es.len() > 0 {
        lemma_toc_models_index(es.drop_first());
        assert forall|i: int| 0 <= i < es.len() implies #[trigger] toc_models_of(es)[i] == toc_model(
            es[i],
        ) by {
            if i > 0 {
                assert(es.drop_first()[i - 1] == es[i]);
            }
        }
    }
}

proof fn lemma_toc_models_push(es: Seq<TocEntry>, e: TocEntry)
    ensures
        toc_models_of(es.push(e)) == toc_models_of(es).push(toc_model(e)),
{
    lemma_toc_models_index(es);
    lemma_toc_models_index(es.push(e));
    assert(toc_models_of(es.push(e)) =~= toc_models_of(es).push(toc_model(e)));
}

proof fn lemma_toc_models_drop_last(es: Seq<TocEntry>)
    requires
        es.len() > 0,
    ensures
        toc_models_of(es.drop_last()) == toc_models_of(es).drop_last(),
        toc_models_of(es).last() == toc_model(es.last()),
{
    lemma_toc_models_index(es);
    lemma_toc_models_index(es.drop_last());
    assert(toc_models_of(es.drop_last()) =~= toc_models_of(es).drop_last());
}

/// The table of contents of an EPUB 3 navigation document.
#[derive(Debug)]
pub struct Epub3NavParser {
    pub toc_entries: Vec<TocEntry>,
}

/// The state of a scan over a navigation document.
pub struct NavScan {
    /// Inside the `nav` element whose type is `toc`.
    pub in_toc: bool,
    /// Elements open inside that `nav`, itself included.
    pub depth: int,
    /// The target of the link being read.
    pub href: Option<Seq<char>>,
    /// The link text gathered so far.
    pub text: Seq<char>,
    /// Entries whose nested list is still open, outermost first.
    pub stack: Seq<TocModel>,
    /// The entry just made may still receive a nested list.
    pub has_last: bool,
    /// The finished top-level entries.
    pub entries: Seq<TocModel>,
}

/// `e` added to the innermost open entry, or to the top level when none is open.
pub open spec fn nav_attach(s: NavScan, e: TocModel) -> NavScan {
    if s.stack.len() > 0 {
        let p = s.stack.last();
        NavScan {
            stack: s.stack.drop_last().push(TocModel { children: p.children.push(e), ..p }),
            ..s
        }
    } else {
        NavScan { entries: s.entries.push(e), ..s }
    }
}

/// The last attribute whose key reads `k1` or `k2`, decoded lossily.
pub open spec fn attr_last_either(attrs: Seq<XmlAttribute>, k1: Seq<char>, k2: Seq<char>) -> Option<
    Seq<char>,
>
    decreases attrs.len(),
{
    if attrs.len() == 0 {
        None
    } else if name_text(attrs.last().key@) == k1 || name_text(attrs.last().key@) == k2 {
        Some(utf8_lossy(attrs.last().value@))
    } else {
        attr_last_either(attrs.drop_last(), k1, k2)
    }
}

/// A start tag inside the table of contents: a link starts gathering its text, and a
/// nested list opens the entry just made.
pub open spec fn nav_start_in_toc(s0: NavScan, local: Seq<char>, attrs: Seq<XmlAttribute>) -> NavScan {
    let s = NavScan { depth: s0.depth + 1, ..s0 };
    if local == "a"@ {
        NavScan {
            href: match attr_last(attrs, "href"@) {
                Some(h) => Some(h),
                None => s.href,
            },
            text: Seq::empty(),
            ..s
        }
    } else if local == "ol"@ || local == "ul"@ {
        if s.has_last {
            if s.stack.len() > 0 {
                let p = s.stack.last();
                let e = p.children.last();
                NavScan {
                    stack: s.stack.drop_last().push(TocModel { children: p.children.drop_last(), ..p }).push(e),
                    has_last: false,
                    ..s
                }
            } else {
                NavScan {
                    stack: s.stack.push(s.entries.last()),
                    entries: s.entries.drop_last(),
                    has_last: false,
                    ..s
                }
            }
        } else {
            s
        }
    } else {
        s
    }
}

/// A closing tag inside the table of contents: a link with text becomes an entry, a
/// list's end closes the innermost open entry; the `nav` is left when its depth
/// reaches zero.
pub open spec fn nav_end_in_toc(s: NavScan, local: Seq<char>) -> NavScan {
    let s1 = if local == "a"@ {
        match s.href {
            Some(h) => {
                let t = trim(s.text);
                let s2 = NavScan { href: None, ..s };
                if t.len() > 0 {
                    NavScan {
                        has_last: true,
                        ..nav_attach(s2, TocModel { title: t, href: h, children: Seq::empty() })
                    }
                } else {
                    s2
                }
            },
            None => s,
        }
    } else if local == "ol"@ || local == "ul"@ {
        if s.stack.len() > 0 {
            nav_attach(NavScan { stack: s.stack.drop_last(), ..s }, s.stack.last())
        } else {
            s
        }
    } else {
        s
    };
    NavScan { depth: s1.depth - 1, in_toc: s1.depth - 1 != 0, ..s1 }
}

/// One event of a navigation document (read with empty tags expanded).
pub open spec fn nav_step(s: NavScan, e: XmlEvent) -> NavScan {
    match e {
        XmlEvent::Start { name, attributes, empty } => if empty {
            s
        } else if s.in_toc {
            nav_start_in_toc(s, local_name(name@), attributes@)
        } else if local_name(name@) == "nav"@ && attr_last_either(
            attributes@,
            "epub:type"@,
            "type"@,
        ) == Some("toc"@) {
            NavScan { in_toc: true, depth: 1, stack: Seq::empty(), has_last: false, ..s }
        } else {
            s
        },
        XmlEvent::Text { text } => if s.in_toc && s.href is Some {
            NavScan { text: s.text + text@, ..s }
        } else {
            s
        },
        XmlEvent::End { name } => if s.in_toc {
            nav_end_in_toc(s, local_name(name@))
        } else {
            s
        },
        _ => s,
    }
}

/// The scan after `evs`, stopping at the end of input or an error.
pub open spec fn nav_fold(evs: Seq<XmlEvent>, s: NavScan) -> NavScan
    decreases evs.len(),
{
    if evs.len() == 0 || terminal(evs[0]) {
        s
    } else {
        nav_fold(evs.drop_first(), nav_step(s, evs[0]))
    }
}

/// The scan at the start of a navigation document.
pub open spec fn nav_initial() -> NavScan {
    NavScan {
        in_toc: false,
        depth: 0,
        href: None,
        text: Seq::empty(),
        stack: Seq::empty(),
        has_last: false,
        entries: Seq::empty(),
    }
}

/// The well-formedness of a scan: inside the `nav` the depth is positive, and the
/// entry that may receive a nested list exists.
pub open spec fn nav_ok(s: NavScan) -> bool {
    &&& s.depth >= 0
    &&& s.in_toc ==> s.depth >= 1
    &&& s.has_last ==> if s.stack.len() > 0 {
        s.stack.last().children.len() > 0
    } else {
        s.entries.len() > 0
    }
}

/// The top-level entries of the table of contents that `evs` describe.
pub open spec fn nav_of_events(evs: Seq<XmlEvent>) -> Seq<TocModel> {
    nav_fold(evs, nav_initial()).entries
}

/// A navigation document being scanned.
struct NavScanner {
    in_toc: bool,
    depth: usize,
    href: Option<String>,
    text: Vec<char>,
    stack: Vec<TocEntry>,
    has_last: bool,
    entries: Vec<TocEntry>,
}

impl NavScanner {
    spec fn view(&self) -> NavScan {
        NavScan {
            in_toc: self.in_toc,
            depth: self.depth as int,
            href: opt_view(self.href),
            text: self.text@,
            stack: toc_models_of(self.stack@),
            has_last: self.has_last,
            entries: toc_models_of(self.entries@),
        }
    }

    /// Attach `e` to the innermost open entry, or to the top level.
    fn attach(&mut self, e: TocEntry)
        ensures
            final(self).view() == nav_attach(old(self).view(), toc_model(e)),
    {
        proof {
            lemma_toc_models_index(self.stack@);
        }
        match self.stack.pop() {
            Some(mut p) => {
                let ghost p0 = p;
                proof {
                    lemma_toc_models_drop_last(old(self).stack@);
                    lemma_toc_models_push(p.children@, e);
                }
                p.children.push(e);
                proof {
                    lemma_toc_models_push(self.stack@, p);
                }
                self.stack.push(p);
                assert(toc_model(p) == (TocModel {
                    children: toc_model(p0).children.push(toc_model(e)),
                    ..toc_model(p0)
                }));
            },
            None => {
                proof {
                    lemma_toc_models_push(self.entries@, e);
                }
                self.entries.push(e);
            },
        }
    }

    fn start_in_toc(&mut self, local: &Vec<char>, attrs: &Vec<XmlAttribute>)
        requires
            old(self).in_toc,
            nav_ok(old(self).view()),
            old(self).depth < usize::MAX,
        ensures
            final(self).view() == nav_start_in_toc(old(self).view(), local@, attrs@),
    {
        self.depth = self.depth + 1;
        if chars_eq_str(local.as_slice(), "a") {
            match attr_value(attrs, "href") {
                Some(h) => {
                    self.href = Some(h);
                },
                None => {},
            }
            self.text = Vec::new();
            assert(self.text@ =~= Seq::<char>::empty());
        } else if chars_eq_str(local.as_slice(), "ol") || chars_eq_str(local.as_slice(), "ul") {
            if self.has_last {
                proof {
                    lemma_toc_models_index(self.stack@);
                    lemma_toc_models_index(self.entries@);
                }
                let last = match self.stack.pop() {
                    Some(mut p) => {
                        let ghost p0 = p;
                        proof {
                            lemma_toc_models_drop_last(old(self).stack@);
                            lemma_toc_models_index(p.children@);
                            lemma_toc_models_drop_last(p.children@);
                        }
                        let e = p.children.pop().unwrap();
                        proof {
                            lemma_toc_models_push(self.stack@, p);
                        }
                        self.stack.push(p);
                        assert(toc_model(p) == (TocModel {
                            children: toc_model(p0).children.drop_last(),
                            ..toc_model(p0)
                        }));
                        e
                    },
                    None => {
                        proof {
                            lemma_toc_models_drop_last(self.entries@);
                        }
                        self.entries.pop().unwrap()
                    },
                };
                proof {
                    lemma_toc_models_push(self.stack@, last);
                }
                self.stack.push(last);
                self.has_last = false;
            }
        }
    }

    fn end_in_toc(&mut self, local: &Vec<char>)
        requires
            old(self).in_toc,
            nav_ok(old(self).view()),
        ensures
            final(self).view() == nav_end_in_toc(old(self).view(), local@),
    {
        if chars_eq_str(local.as_slice(), "a") {
            let taken = self.href.take();
            match taken {
                Some(h) => {
                    let t = trimmed_string(self.text.as_slice(), 0, self.text.len());
                    assert(self.text@.subrange(0, self.text@.len() as int) =~= self.text@);
                    if !t.as_str().is_empty() {
                        let e = TocEntry { title: t, href: h, children: Vec::new() };
                        assert(toc_models_of(e.children@) =~= Seq::<TocModel>::empty());
                        self.attach(e);
                        self.has_last = true;
                    }
                },
                None => {},
            }
        } else if chars_eq_str(local.as_slice(), "ol") || chars_eq_str(local.as_slice(), "ul") {
            if self.stack.len() > 0 {
                proof {
                    lemma_toc_models_drop_last(self.stack@);
                }
                let completed = self.stack.pop().unwrap();
                self.attach(completed);
            }
        }
        self.depth = self.depth - 1;
        if self.depth == 0 {
            self.in_toc = false;
        }
    }
}

/// The table of contents that a navigation document's events describe.
pub fn nav_from_events(events: &Vec<XmlEvent>) -> (p: Epub3NavParser)
    ensures
        toc_models_of(p.toc_entries@) == nav_of_events(events@),
{
    let mut s = NavScanner {
        in_toc: false,
        depth: 0,
        href: None,
        text: Vec::new(),
        stack: Vec::new(),
        has_last: false,
        entries: Vec::new(),
    };
    assert(s.view() == nav_initial()) by {
        assert(s.text@ =~= Seq::<char>::empty());
    }
    let mut k: usize = 0;
    assert(events@.skip(0) =~= events@);
    loop
        invariant_except_break
            k <= events@.len(),
            nav_ok(s.view()),
            s.depth <= k,
            nav_fold(events@, nav_initial()) == nav_fold(events@.skip(k as int), s.view()),
        ensures
            nav_fold(events@, nav_initial()) == s.view(),
        decreases events@.len() - k,
    {
        if k >= events.len() {
            assert(events@.skip(k as int) =~= Seq::<XmlEvent>::empty());
            break;
        }
        let ghost rest = events@.skip(k as int);
        assert(rest[0] == events@[k as int]);
        assert(rest.drop_first() =~= events@.skip(k + 1));
        let ghost before = s.view();
        match &events[k] {
            XmlEvent::Eof => break,
            XmlEvent::Failure => break,
            XmlEvent::Start { name, attributes, empty } => {
                if !*empty {
                    let local = local_name_of(name.as_slice());
                    if s.in_toc {
                        s.start_in_toc(&local, attributes);
                    } else if chars_eq_str(local.as_slice(), "nav") {
                        let is_toc = match attr_value_either(attributes, "epub:type", "type") {
                            Some(v) => {
                                let vc = chars_of(v.as_str());
                                chars_eq_str(vc.as_slice(), "toc")
                            },
                            None => false,
                        };
                        if is_toc {
                            s.in_toc = true;
                            s.depth = 1;
                            s.stack = Vec::new();
                            s.has_last = false;
                            assert(toc_models_of(s.stack@) =~= Seq::<TocModel>::empty());
                        }
                    }
                }
            },
            XmlEvent::Text { text } => {
                if s.in_toc && s.href.is_some() {
                    append_chars(&mut s.text, text.as_str());
                }
            },
            XmlEvent::End { name } => {
                if s.in_toc {
                    let local = local_name_of(name.as_slice());
                    s.end_in_toc(&local);
                }
            },
            XmlEvent::Other => {},
        }
        proof {
            lemma_nav_step_ok(before, events@[k as int]);
        }
        k += 1;
    }
    Epub3NavParser { toc_entries: s.entries }
}

proof fn lemma_nav_step_ok(s: NavScan, e: XmlEvent)
    requires
        nav_ok(s),
    ensures
        nav_ok(nav_step(s, e)),
{
}

/// The last attribute whose key reads `k1` or `k2`, decoded lossily.
fn attr_value_either(attrs: &Vec<XmlAttribute>, k1: &str, k2: &str) -> (r: Option<String>)
    ensures
        r matches Some(s) ==> attr_last_either(attrs@, k1@, k2@) == Some(s@),
        r is None ==> attr_last_either(attrs@, k1@, k2@) is None,
{
    let mut k = attrs.len();
    assert(attrs@.take(attrs@.len() as int) =~= attrs@);
    while k > 0
        invariant
            k <= attrs@.len(),
            attr_last_either(attrs@, k1@, k2@) == attr_last_either(attrs@.take(k as int), k1@, k2@),
        decreases k,
    {
        let a = &attrs[k - 1];
        let kt = text_of_name(a.key.as_slice());
        let ghost t = attrs@.take(k as int);
        assert(t.last() == attrs@[k - 1]);
        if chars_eq_str(kt.as_slice(), k1) || chars_eq_str(kt.as_slice(), k2) {
            return Some(from_utf8_lossy(a.value.as_slice()));
        }
        assert(t.drop_last() =~= attrs@.take(k - 1));
        k -= 1;
    }
    None
}

/// Read the `toc` navigation of an EPUB 3 navigation document: each link with
/// non-empty text becomes an entry, and a list inside a list item nests its links
/// under the entry of that item.
pub fn parse_epub3_nav(xml: String) -> (p: Epub3NavParser)
    ensures
        toc_models_of(p.toc_entries@) == nav_of_events(xml_events(xml@, true, true)),
{
    let mut reader = open_xml(xml.as_str(), true, true);
    let events = read_all_events(&mut reader);
    nav_from_events(&events)
}

/// The table of contents of an EPUB 2 NCX document.
#[derive(Debug)]
pub struct Epub2NcxParser {
    pub toc_entries: Vec<TocEntry>,
}

/// A `navPoint` being read: its label text so far, its target and finished children.
pub struct PointModel {
    pub title: Seq<char>,
    pub href: Seq<char>,
    pub children: Seq<TocModel>,
}

/// The state of a scan over an NCX document.
pub struct NcxScan {
    /// Open `navPoint`s, outermost first.
    pub stack: Seq<PointModel>,
    /// Inside a `text` element of an open `navPoint`.
    pub in_text: bool,
    /// The finished top-level entries.
    pub entries: Seq<TocModel>,
}

/// One event of an NCX document (read with empty tags expanded).
pub open spec fn ncx_step(s: NcxScan, e: XmlEvent) -> NcxScan {
    match e {
        XmlEvent::Start { name, attributes, empty } => {
            let local = local_name(name@);
            if empty {
                s
            } else if local == "navPoint"@ {
                NcxScan {
                    stack: s.stack.push(PointModel { title: Seq::empty(), href: Seq::empty(), children: Seq::empty() }),
                    ..s
                }
            } else if local == "text"@ && s.stack.len() > 0 {
                NcxScan { in_text: true, ..s }
            } else if local == "content"@ && s.stack.len() > 0 {
                let src = match attr_last(attributes@, "src"@) {
                    Some(v) => v,
                    None => Seq::empty(),
                };
                let p = s.stack.last();
                NcxScan { stack: s.stack.drop_last().push(PointModel { href: src, ..p }), ..s }
            } else {
                s
            }
        },
        XmlEvent::Text { text } => if s.in_text && s.stack.len() > 0 {
            let p = s.stack.last();
            NcxScan { stack: s.stack.drop_last().push(PointModel { title: p.title + text@, ..p }), ..s }
        } else {
            s
        },
        XmlEvent::End { name } => {
            let local = local_name(name@);
            if local == "text"@ {
                NcxScan { in_text: false, ..s }
            } else if local == "navPoint"@ && s.stack.len() > 0 {
                let b = s.stack.last();
                let entry = TocModel { title: trim(b.title), href: b.href, children: b.children };
                let rest = s.stack.drop_last();
                if rest.len() > 0 {
                    let p = rest.last();
                    NcxScan {
                        stack: rest.drop_last().push(PointModel { children: p.children.push(entry), ..p }),
                        ..s
                    }
                } else {
                    NcxScan { stack: rest, entries: s.entries.push(entry), ..s }
                }
            } else {
                s
            }
        },
        _ => s,
    }
}

/// The scan after `evs`, stopping at the end of input or an error.
pub open spec fn ncx_fold(evs: Seq<XmlEvent>, s: NcxScan) -> NcxScan
    decreases evs.len(),
{
    if evs.len() == 0 || terminal(evs[0]) {
        s
    } else {
        ncx_fold(evs.drop_first(), ncx_step(s, evs[0]))
    }
}

/// The top-level entries of the table of contents that `evs` describe.
pub open spec fn ncx_of_events(evs: Seq<XmlEvent>) -> Seq<TocModel> {
    ncx_fold(evs, NcxScan { stack: Seq::empty(), in_text: false, entries: Seq::empty() }).entries
}

/// A `navPoint` under construction.
struct NavPointBuilder {
    title: Vec<char>,
    href: String,
    children: Vec<TocEntry>,
}

/// The plain value of a `navPoint` under construction.
spec fn point_model(b: NavPointBuilder) -> PointModel {
    PointModel { title: b.title@, href: b.href@, children: toc_models_of(b.children@) }
}

/// The plain values of `navPoint`s under construction.
spec fn point_models(bs: Seq<NavPointBuilder>) -> Seq<PointModel> {
    Seq::new(bs.len(), |i: int| point_model(bs[i]))
}

/// The table of contents that an NCX document's events describe.
pub fn ncx_from_events(events: &Vec<XmlEvent>) -> (p: Epub2NcxParser)
    ensures
        toc_models_of(p.toc_entries@) == ncx_of_events(events@),
{
    let mut stack: Vec<NavPointBuilder> = Vec::new();
    let mut in_text = false;
    let mut entries: Vec<TocEntry> = Vec::new();
    let ghost init = NcxScan { stack: Seq::empty(), in_text: false, entries: Seq::empty() };
    assert(point_models(stack@) =~= Seq::<PointModel>::empty());
    assert(toc_models_of(entries@) =~= Seq::<TocModel>::empty());
    let mut k: usize = 0;
    assert(events@.skip(0) =~= events@);
    loop
        invariant_except_break
            k <= events@.len(),
            ncx_fold(events@, init) == ncx_fold(
                events@.skip(k as int),
                NcxScan { stack: point_models(stack@), in_text, entries: toc_models_of(entries@) },
            ),
        ensures
            ncx_fold(events@, init) == (NcxScan {
                stack: point_models(stack@),
                in_text,
                entries: toc_models_of(entries@),
            }),
        decreases events@.len() - k,
    {
        if k >= events.len() {
            assert(events@.skip(k as int) =~= Seq::<XmlEvent>::empty());
            break;
        }
        let ghost rest = events@.skip(k as int);
        assert(rest[0] == events@[k as int]);
        assert(rest.drop_first() =~= events@.skip(k + 1));
        let ghost before = NcxScan {
            stack: point_models(stack@),
            in_text,
            entries: toc_models_of(entries@),
        };
        let ghost after = ncx_step(before, events@[k as int]);
        match &events[k] {
            XmlEvent::Eof => break,
            XmlEvent::Failure => break,
            XmlEvent::Start { name, attributes, empty } => {
                if !*empty {
                    let local = local_name_of(name.as_slice());
                    let l = local.as_slice();
                    if chars_eq_str(l, "navPoint") {
                        let b = NavPointBuilder {
                            title: Vec::new(),
                            href: String::new(),
                            children: Vec::new(),
                        };
                        assert(point_model(b) == (PointModel {
                            title: Seq::empty(),
                            href: Seq::empty(),
                            children: Seq::empty(),
                        })) by {
                            assert(b.title@ =~= Seq::<char>::empty());
                            assert(toc_models_of(b.children@) =~= Seq::<TocModel>::empty());
                        }
                        stack.push(b);
                        assert(point_models(stack@) =~= before.stack.push(point_model(b)));
                    } else if chars_eq_str(l, "text") && stack.len() > 0 {
                        in_text = true;
                    } else if chars_eq_str(l, "content") && stack.len() > 0 {
                        let src = match attr_value(attributes, "src") {
                            Some(v) => v,
                            None => String::new(),
                        };
                        let mut b = stack.pop().unwrap();
                        b.href = src;
                        stack.push(b);
                        assert(point_models(stack@) =~= after.stack);
                    }
                }
            },
            XmlEvent::Text { text } => {
                if in_text && stack.len() > 0 {
                    let mut b = stack.pop().unwrap();
                    append_chars(&mut b.title, text.as_str());
                    stack.push(b);
                    assert(point_models(stack@) =~= after.stack);
                }
            },
            XmlEvent::End { name } => {
                let local = local_name_of(name.as_slice());
                let l = local.as_slice();
                if chars_eq_str(l, "text") {
                    in_text = false;
                } else if chars_eq_str(l, "navPoint") && stack.len() > 0 {
                    let b = stack.pop().unwrap();
                    let title = trimmed_string(b.title.as_slice(), 0, b.title.len());
                    assert(b.title@.subrange(0, b.title@.len() as int) =~= b.title@);
                    let entry = TocEntry { title, href: b.href, children: b.children };
                    assert(point_models(stack@) =~= before.stack.drop_last());
                    if stack.len() > 0 {
                        let mut p = stack.pop().unwrap();
                        proof {
                            lemma_toc_models_push(p.children@, entry);
                        }
                        p.children.push(entry);
                        stack.push(p);
                        assert(point_models(stack@) =~= after.stack);
                    } else {
                        proof {
                            lemma_toc_models_push(entries@, entry);
                        }
                        entries.push(entry);
                    }
                }
            },
            XmlEvent::Other => {},
        }
        k += 1;
    }
    Epub2NcxParser { toc_entries: entries }
}

/// Read the `navMap` of an EPUB 2 NCX document: each `navPoint` becomes an entry
/// titled by its trimmed label text and pointing at its `content` source, with nested
/// `navPoint`s as its children.
pub fn parse_epub2_ncx(xml: String) -> (p: Epub2NcxParser)
    ensures
        toc_models_of(p.toc_entries@) == ncx_of_events(xml_events(xml@, true, true)),
{
    let mut reader = open_xml(xml.as_str(), true, true);
    let events = read_all_events(&mut reader);
    ncx_from_events(&events)
}

// ---------------------------------------------------------------------------
// Whole books
// ---------------------------------------------------------------------------

impl FolioParserError {
    /// The reading error for an archive error: I/O failures keep their text, every
    /// other archive error becomes a zip error carrying its message.
    pub fn from_zip_error(err: ZipReadError) -> (e: FolioParserError)
        ensures
            err is Io ==> e is IoError,
            !(err is Io) ==> e is ZipError,
            err matches ZipReadError::EntryNotFound(n) ==> e matches FolioParserError::ZipError {
                msg,
            } && msg@ == "entry not found in archive: "@ + n@,
            err matches ZipReadError::InvalidArchive(m) ==> e matches FolioParserError::ZipError {
                msg,
            } && msg@ == "invalid zip archive: "@ + m@,
            err matches ZipReadError::UnsupportedCompression(m) ==> e matches FolioParserError::ZipError {
                msg,
            } && msg@ == "unsupported zip compression method: "@ + decimal_digits(m as nat),
            err matches ZipReadError::Decompress(m) ==> e matches FolioParserError::ZipError {
                msg,
            } && msg@ == "zip decompression failed: "@ + m@,
    {
        match &err {
            ZipReadError::Io(io) => FolioParserError::IoError { msg: io_error_text(io) },
            _ => FolioParserError::ZipError { msg: err.message() },
        }
    }
}

/// The bytes of the archive entry `name`, when the catalog `m` lists it and it
/// reads without error.
pub open spec fn entry_read(d: Seq<u8>, m: Map<Seq<char>, (u16, u64, u64)>, name: Seq<char>) -> Option<
    Seq<u8>,
> {
    if !m.contains_key(name) {
        None
    } else {
        let e = m[name];
        if local_header_error(d, e) is Some {
            None
        } else if e.0 == METHOD_STORED {
            Some(payload(d, e))
        } else if e.0 == METHOD_DEFLATE {
            inflated(payload(d, e))
        } else {
            None
        }
    }
}

/// The archive entry holding the container document.
pub open spec fn container_entry() -> Seq<char> {
    "META-INF/container.xml"@
}

/// The directory of an archive path: everything before its last `/`, or nothing.
pub open spec fn directory_of(p: Seq<char>) -> Seq<char>
    decreases p.len(),
{
    if p.len() == 0 {
        p
    } else if p.last() == '/' {
        p.drop_last()
    } else {
        directory_of(p.drop_last())
    }
}

/// The tags that chapters are read without.
pub open spec fn default_ignored_tags() -> Seq<Seq<char>> {
    seq!["head"@, "style"@, "script"@, "aside"@, "table"@, "footer"@, "nav"@]
}

/// The classes that chapters are read without.
pub open spec fn default_ignored_classes() -> Seq<Seq<char>> {
    seq!["footnote"@, "aside"@, "nav"@, "toc"@, "ad"@, "advertisement"@]
}

/// The text of a chapter file's bytes.
pub open spec fn chapter_text(b: Seq<u8>) -> Seq<char> {
    extracted_text(utf8_lossy(b), default_ignored_tags(), default_ignored_classes())
}

/// The texts of the spine items `spine` (those the manifest `hrefs` lists), their
/// paths resolved against `dir`; or the path of the first that cannot be read.
pub open spec fn spine_texts(
    d: Seq<u8>,
    m: Map<Seq<char>, (u16, u64, u64)>,
    dir: Seq<char>,
    hrefs: Map<Seq<char>, Seq<char>>,
    spine: Seq<Seq<char>>,
) -> Result<Seq<Seq<char>>, Seq<char>>
    decreases spine.len(),
{
    if spine.len() == 0 {
        Ok(Seq::empty())
    } else if !hrefs.contains_key(spine[0]) {
        spine_texts(d, m, dir, hrefs, spine.drop_first())
    } else {
        let p = resolved_path(dir, hrefs[spine[0]]);
        match entry_read(d, m, p) {
            None => Err(p),
            Some(b) => match spine_texts(d, m, dir, hrefs, spine.drop_first()) {
                Ok(rest) => Ok(seq![chapter_text(b)] + rest),
                Err(q) => Err(q),
            },
        }
    }
}

/// `done` put before what the rest of the spine gives.
pub open spec fn after_done(done: Seq<Seq<char>>, rest: Result<Seq<Seq<char>>, Seq<char>>) -> Result<
    Seq<Seq<char>>,
    Seq<char>,
> {
    match rest {
        Ok(r) => Ok(done + r),
        Err(p) => Err(p),
    }
}

/// Whether `r` is what reading the book in the archive bytes `d` with catalog `m`
/// gives: the container must be readable (else its archive error), must name a
/// package document (else `MissingContainer`), which must be readable (else
/// `MissingOpf` with its path); then every spine item listed in the manifest is read,
/// in order, into a chapter numbered from zero, and the first that cannot be read
/// gives `MissingChapter` with its path.
pub open spec fn epub_outcome(
    d: Seq<u8>,
    m: Map<Seq<char>, (u16, u64, u64)>,
    r: Result<Vec<EpubChapter>, FolioParserError>,
) -> bool {
    match entry_read(d, m, container_entry()) {
        None => {
            &&& r is Err
            &&& (r->Err_0 is ZipError || r->Err_0 is IoError)
            &&& !m.contains_key(container_entry()) ==> (r->Err_0 matches FolioParserError::ZipError {
                msg,
            } && msg@ == "entry not found in archive: "@ + container_entry())
        },
        Some(cb) => match container_fold(xml_events(utf8_lossy(cb), true, false), None) {
            None => r matches Err(FolioParserError::MissingContainer),
            Some(op) => match entry_read(d, m, op) {
                None => r matches Err(FolioParserError::MissingOpf { path }) && path@ == op,
                Some(ob) => {
                    let o = opf_of_events(xml_events(utf8_lossy(ob), true, false));
                    match spine_texts(d, m, directory_of(op), o.hrefs, o.spine) {
                        Err(p) => r matches Err(FolioParserError::MissingChapter { path }) && path@
                            == p,
                        Ok(texts) => r matches Ok(cs) && cs@.len() == texts.len() && forall|j: int|
                            0 <= j < texts.len() ==> {
                                &&& (#[trigger] cs@[j]).text@ == texts[j]
                                &&& cs@[j].title is None
                                &&& cs@[j].spine_index == j as i32
                            },
                    }
                },
            },
        },
    }
}

proof fn lemma_entry_read(a: ZipArchive, name: Seq<char>, r: Result<Vec<u8>, ZipReadError>)
    requires
        !a.entries().contains_key(name) ==> r is Err && r->Err_0 is EntryNotFound
            && r->Err_0->EntryNotFound_0@ == name,
        a.entries().contains_key(name) ==> read_outcome(a.bytes(), a.entries()[name], r),
    ensures
        r is Ok <==> entry_read(a.bytes(), a.entries(), name) is Some,
        r matches Ok(b) ==> entry_read(a.bytes(), a.entries(), name) == Some(b@),
        r matches Err(e) ==> !(e is Io),
{
}

fn directory_of_path(p: &Vec<char>) -> (r: String)
    ensures
        r@ == directory_of(p@),
{
    let mut k = p.len();
    assert(p@.take(p@.len() as int) =~= p@);
    while k > 0 && p[k - 1] != '/'
        invariant
            k <= p@.len(),
            directory_of(p@) == directory_of(p@.take(k as int)),
        decreases k,
    {
        let ghost t = p@.take(k as int);
        assert(t.drop_last() =~= p@.take(k - 1));
        k -= 1;
    }
    if k == 0 {
        assert(p@.take(0) =~= Seq::<char>::empty());
        String::new()
    } else {
        let ghost t = p@.take(k as int);
        assert(t.drop_last() =~= p@.take(k - 1));
        string_from_range(p.as_slice(), 0, k - 1)
    }
}

/// Read a book held in an archive: find the package document through
/// `META-INF/container.xml`, then extract the plain text of each spine item that the
/// manifest lists, in spine order.
pub fn parse_epub_archive(archive: &ZipArchive) -> (r: Result<Vec<EpubChapter>, FolioParserError>)
    ensures
        epub_outcome(archive.bytes(), archive.entries(), r),
{
    let cr = archive.by_name("META-INF/container.xml");
    proof {
        lemma_entry_read(*archive, container_entry(), cr);
    }
    let container_bytes = match cr {
        Ok(b) => b,
        Err(e) => {
            return Err(FolioParserError::from_zip_error(e));
        },
    };
    let container_xml = from_utf8_lossy(container_bytes.as_slice());
    let container = parse_container_xml(container_xml);
    let opf_path = match container.opf_path {
        Some(p) => p,
        None => {
            return Err(FolioParserError::MissingContainer);
        },
    };
    let pc = chars_of(opf_path.as_str());
    let opf_dir = directory_of_path(&pc);
    let orr = archive.by_name(opf_path.as_str());
    proof {
        lemma_entry_read(*archive, opf_path@, orr);
    }
    let opf_bytes = match orr {
        Ok(b) => b,
        Err(_) => {
            return Err(FolioParserError::MissingOpf { path: opf_path });
        },
    };
    let opf_xml = from_utf8_lossy(opf_bytes.as_slice());
    let opf = parse_opf_xml(opf_xml);
    let ghost d = archive.bytes();
    let ghost m = archive.entries();
    let ghost o = opf_view(opf);
    let ghost cb = container_bytes@;
    let ghost op = opf_path@;
    let ghost ob = opf_bytes@;
    let extractor = EpubTextExtractor::new();
    let mut chapters: Vec<EpubChapter> = Vec::new();
    let mut done: Ghost<Seq<Seq<char>>> = Ghost(Seq::empty());
    let spine = &opf.spine_item_refs;
    let mut k: usize = 0;
    assert(spine.deep_view().skip(0) =~= spine.deep_view());
    while k < spine.len()
        invariant
            k <= spine@.len(),
            d == archive.bytes(),
            m == archive.entries(),
            o == opf_view(opf),
            spine.deep_view() == o.spine,
            entry_read(d, m, container_entry()) == Some(cb),
            container_fold(xml_events(utf8_lossy(cb), true, false), None) == Some(op),
            entry_read(d, m, op) == Some(ob),
            o == opf_of_events(xml_events(utf8_lossy(ob), true, false)),
            opf_dir@ == directory_of(op),
            chapters@.len() == done@.len(),
            forall|j: int|
                0 <= j < done@.len() ==> {
                    &&& (#[trigger] chapters@[j]).text@ == done@[j]
                    &&& chapters@[j].title is None
                    &&& chapters@[j].spine_index == j as i32
                },
            spine_texts(d, m, opf_dir@, o.hrefs, o.spine) == after_done(
                done@,
                spine_texts(d, m, opf_dir@, o.hrefs, o.spine.skip(k as int)),
            ),
        decreases spine@.len() - k,
    {
        let ghost rest = o.spine.skip(k as int);
        assert(rest[0] == spine@[k as int]@);
        assert(rest.drop_first() =~= o.spine.skip(k + 1));
        match text_lookup(&opf.hrefs, spine[k].as_str()) {
            Some(href) => {
                let rel = resolve_zip_path(opf_dir.as_str(), href.as_str());
                let br = archive.by_name(rel.as_str());
                proof {
                    lemma_entry_read(*archive, rel@, br);
                }
                match br {
                    Ok(bytes) => {
                        let xhtml = from_utf8_lossy(bytes.as_slice());
                        let text = extractor.extract_plain_text(
                            xhtml,
                            default_epub_text_extraction_options(),
                        );
                        let ghost t = text@;
                        let idx = chapters.len();
                        let si: i32 = #[verifier::truncate] (idx as i32);
                        chapters.push(EpubChapter { spine_index: si, title: None, text });
                        proof {
                            assert(t == chapter_text(bytes@));
                            let nd = done@.push(t);
                            assert(done@ + (seq![t] + Seq::<Seq<char>>::empty()) =~= nd);
                            match spine_texts(d, m, opf_dir@, o.hrefs, rest.drop_first()) {
                                Ok(rr) => {
                                    assert(done@ + (seq![t] + rr) =~= nd + rr);
                                },
                                Err(_) => {},
                            }
                            done@ = nd;
                        }
                    },
                    Err(_) => {
                        assert(spine_texts(d, m, opf_dir@, o.hrefs, rest) == Err::<
                            Seq<Seq<char>>,
                            Seq<char>,
                        >(rel@));
                        return Err(FolioParserError::MissingChapter { path: rel });
                    },
                }
            },
            None => {
                assert(spine_texts(d, m, opf_dir@, o.hrefs, rest) == spine_texts(
                    d,
                    m,
                    opf_dir@,
                    o.hrefs,
                    rest.drop_first(),
                ));
            },
        }
        k += 1;
    }
    assert(o.spine.skip(k as int) =~= Seq::<Seq<char>>::empty());
    assert(done@ + Seq::<Seq<char>>::empty() =~= done@);
    Ok(chapters)
}

} // verus!
