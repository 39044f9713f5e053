use prosodia::epub_text::{default_epub_text_extraction_options, EpubTextExtractionOptions, EpubTextExtractor};
use prosodia::folio::{
    parse_container_xml, parse_epub2_ncx, parse_epub3_nav, parse_epub_archive, parse_opf_xml,
    resolve_zip_path, EpubChapter, FolioParserError, TocEntry,
};
use prosodia::zip_reader::{
    ZipArchive, CENTRAL_DIR_SIGNATURE, EOCD_SIGNATURE, LOCAL_HEADER_SIGNATURE, METHOD_DEFLATE,
    METHOD_STORED,
};

struct TestEntry {
    name: &'static str,
    method: u16,
    data: Vec<u8>,
}

fn deflate_raw(data: &[u8]) -> Vec<u8> {
    miniz_oxide::deflate::compress_to_vec(data, 6)
}

fn build_zip(entries: &[TestEntry]) -> Vec<u8> {
    let mut out = Vec::new();
    let mut records: Vec<(u32, u32, u32)> = Vec::new();
    for e in entries {
        let local_offset = out.len() as u32;
        let stored: Vec<u8> = match e.method {
            METHOD_STORED => e.data.clone(),
            METHOD_DEFLATE => deflate_raw(&e.data),
            _ => e.data.clone(),
        };
        let comp_size = stored.len() as u32;
        let uncomp_size = e.data.len() as u32;
        out.extend_from_slice(&LOCAL_HEADER_SIGNATURE.to_le_bytes());
        out.extend_from_slice(&20u16.to_le_bytes());
        out.extend_from_slice(&0u16.to_le_bytes());
        out.extend_from_slice(&e.method.to_le_bytes());
        out.extend_from_slice(&0u16.to_le_bytes());
        out.extend_from_slice(&0u16.to_le_bytes());
        out.extend_from_slice(&0u32.to_le_bytes());
        out.extend_from_slice(&comp_size.to_le_bytes());
        out.extend_from_slice(&uncomp_size.to_le_bytes());
        out.extend_from_slice(&(e.name.len() as u16).to_le_bytes());
        out.extend_from_slice(&0u16.to_le_bytes());
        out.extend_from_slice(e.name.as_bytes());
        out.extend_from_slice(&stored);
        records.push((local_offset, comp_size, uncomp_size));
    }
    let cd_offset = out.len() as u32;
    for (e, &(local_offset, comp_size, uncomp_size)) in entries.iter().zip(&records) {
        out.extend_from_slice(&CENTRAL_DIR_SIGNATURE.to_le_bytes());
        out.extend_from_slice(&20u16.to_le_bytes());
        out.extend_from_slice(&20u16.to_le_bytes());
        out.extend_from_slice(&0u16.to_le_bytes());
        out.extend_from_slice(&e.method.to_le_bytes());
        out.extend_from_slice(&0u16.to_le_bytes());
        out.extend_from_slice(&0u16.to_le_bytes());
        out.extend_from_slice(&0u32.to_le_bytes());
        out.extend_from_slice(&comp_size.to_le_bytes());
        out.extend_from_slice(&uncomp_size.to_le_bytes());
        out.extend_from_slice(&(e.name.len() as u16).to_le_bytes());
        out.extend_from_slice(&0u16.to_le_bytes());
        out.extend_from_slice(&0u16.to_le_bytes());
        out.extend_from_slice(&0u16.to_le_bytes());
        out.extend_from_slice(&0u16.to_le_bytes());
        out.extend_from_slice(&0u32.to_le_bytes());
        out.extend_from_slice(&local_offset.to_le_bytes());
        out.extend_from_slice(e.name.as_bytes());
    }
    let cd_size = out.len() as u32 - cd_offset;
    out.extend_from_slice(&EOCD_SIGNATURE.to_le_bytes());
    out.extend_from_slice(&0u16.to_le_bytes());
    out.extend_from_slice(&0u16.to_le_bytes());
    out.extend_from_slice(&(entries.len() as u16).to_le_bytes());
    out.extend_from_slice(&(entries.len() as u16).to_le_bytes());
    out.extend_from_slice(&cd_size.to_le_bytes());
    out.extend_from_slice(&cd_offset.to_le_bytes());
    out.extend_from_slice(&0u16.to_le_bytes());
    out
}

fn titles(entries: &[TocEntry]) -> Vec<(String, String, usize)> {
    entries.iter().map(|e| (e.title.clone(), e.href.clone(), e.children.len())).collect()
}

const CONTAINER: &str = r#"<?xml version="1.0"?><container version="1.0" xmlns="urn:oasis:names:tc:opendocument:xmlns:container"><rootfiles><rootfile full-path="OEBPS/content.opf" media-type="application/oebps-package+xml"/></rootfiles></container>"#;

const OPF: &str = r#"<package xmlns="http://www.idpf.org/2007/opf" version="3.0">
 <metadata xmlns:dc="http://purl.org/dc/elements/1.1/">
  <dc:title> My Book </dc:title>
  <dc:creator>Jane Doe</dc:creator>
  <dc:language>en</dc:language>
  <dc:subject>Fiction</dc:subject>
  <dc:subject>Adventure</dc:subject>
  <meta name="cover" content="cover-img"/>
 </metadata>
 <manifest>
  <item id="nav" href="nav.xhtml" media-type="application/xhtml+xml" properties="nav"/>
  <item id="ch1" href="text/ch1.xhtml" media-type="application/xhtml+xml"/>
  <item id="ch2" href="text/../text/ch2.xhtml" media-type="application/xhtml+xml"/>
  <item id="cover-img" href="images/cover.jpg" media-type="image/jpeg"/>
  <item id="ncx" href="toc.ncx" media-type="application/x-dtbncx+xml"/>
 </manifest>
 <spine toc="ncx">
  <itemref idref="ch1"/>
  <itemref idref="nav" linear="no"/>
  <itemref idref="ghost"/>
  <itemref idref="ch2"/>
 </spine>
</package>"#;

const CH1: &str = r#"<html><head><title>T</title><style>p{}</style></head><body><h1>Title</h1><p>First &ldquo;para&rdquo; here.</p><div class="footnote">note</div><p>Second<br/>line</p><aside>skip</aside><p>  spaced  </p></body></html>"#;

const CH2: &str = "<html><body><p>Chapter two.</p></body></html>";

#[test]
fn container_names_the_package_document() {
    let c = parse_container_xml(CONTAINER.to_string());
    assert_eq!(c.opf_path, Some("OEBPS/content.opf".to_string()));
    let none = parse_container_xml("<container><rootfiles/></container>".to_string());
    assert_eq!(none.opf_path, None);
    let prefixed = parse_container_xml(r#"<c:rootfile full-path="a.opf"/><rootfile full-path="b.opf"/>"#.to_string());
    assert_eq!(prefixed.opf_path, Some("b.opf".to_string()));
}

#[test]
fn package_document_metadata_manifest_and_spine() {
    let o = parse_opf_xml(OPF.to_string());
    assert_eq!(o.title, Some("My Book".to_string()));
    assert_eq!(o.author, Some("Jane Doe".to_string()));
    assert_eq!(o.language, Some("en".to_string()));
    assert_eq!(o.publisher, None);
    assert_eq!(o.subjects, vec!["Fiction".to_string(), "Adventure".to_string()]);
    assert_eq!(o.spine_item_refs, vec!["ch1".to_string(), "ghost".to_string(), "ch2".to_string()]);
    assert_eq!(o.hrefs.get("ch1").cloned(), Some("text/ch1.xhtml".to_string()));
    assert_eq!(o.hrefs.get("ghost").cloned(), None);
    assert_eq!(o.media_types.get("cover-img").cloned(), Some("image/jpeg".to_string()));
    assert_eq!(o.spine_toc_id, Some("ncx".to_string()));
    assert_eq!(o.nav_href, Some("nav.xhtml".to_string()));
    assert_eq!(o.ncx_href, Some("toc.ncx".to_string()));
    assert_eq!(o.resolved_cover_href, Some("images/cover.jpg".to_string()));
}

#[test]
fn cover_image_property_wins_over_cover_meta() {
    let xml = r#"<package><metadata><meta name="cover" content="a"/></metadata><manifest><item id="a" href="a.jpg"/><item id="b" href="b.jpg" properties="cover-image"/></manifest></package>"#;
    let o = parse_opf_xml(xml.to_string());
    assert_eq!(o.resolved_cover_href, Some("b.jpg".to_string()));
    assert_eq!(o.ncx_href, None);
}

#[test]
fn epub3_navigation_nests_lists_under_their_item() {
    let nav = r#"<html xmlns="http://www.w3.org/1999/xhtml" xmlns:epub="http://www.idpf.org/2007/ops"><body>
<nav epub:type="toc"><h1>Contents</h1><ol>
<li><a href="ch1.xhtml">Chapter 1</a>
  <ol><li><a href="ch1.xhtml#s1">Section 1.1</a></li></ol>
</li>
<li><a href="ch2.xhtml">Chapter 2</a></li>
</ol></nav>
<nav epub:type="landmarks"><ol><li><a href="cover.xhtml">Cover</a></li></ol></nav>
</body></html>"#;
    let p = parse_epub3_nav(nav.to_string());
    assert_eq!(
        titles(&p.toc_entries),
        vec![
            ("Chapter 1".to_string(), "ch1.xhtml".to_string(), 1),
            ("Chapter 2".to_string(), "ch2.xhtml".to_string(), 0),
        ]
    );
    assert_eq!(
        titles(&p.toc_entries[0].children),
        vec![("Section 1.1".to_string(), "ch1.xhtml#s1".to_string(), 0)]
    );
}

#[test]
fn epub3_navigation_outside_a_toc_nav_is_ignored() {
    let p = parse_epub3_nav(r#"<nav epub:type="page-list"><ol><li><a href="p1">1</a></li></ol></nav>"#.to_string());
    assert!(p.toc_entries.is_empty());
}

#[test]
fn epub2_ncx_nav_points_nest() {
    let ncx = r#"<ncx xmlns="http://www.daisy.org/z3986/2005/ncx/" version="2005-1"><navMap>
<navPoint id="np1" playOrder="1"><navLabel><text> Chapter One </text></navLabel><content src="ch1.xhtml"/>
  <navPoint id="np2" playOrder="2"><navLabel><text>Part A</text></navLabel><content src="ch1.xhtml#a"/></navPoint>
</navPoint>
<navPoint id="np3" playOrder="3"><navLabel><text>Chapter Two</text></navLabel><content src="ch2.xhtml"/></navPoint>
</navMap></ncx>"#;
    let p = parse_epub2_ncx(ncx.to_string());
    assert_eq!(
        titles(&p.toc_entries),
        vec![
            ("Chapter One".to_string(), "ch1.xhtml".to_string(), 1),
            ("Chapter Two".to_string(), "ch2.xhtml".to_string(), 0),
        ]
    );
    assert_eq!(
        titles(&p.toc_entries[0].children),
        vec![("Part A".to_string(), "ch1.xhtml#a".to_string(), 0)]
    );
}

#[test]
fn zip_paths_resolve_dots_and_parents() {
    assert_eq!(resolve_zip_path("OEBPS", "text/ch1.xhtml"), "OEBPS/text/ch1.xhtml");
    assert_eq!(resolve_zip_path("OEBPS/text", "../images/a.png"), "OEBPS/images/a.png");
    assert_eq!(resolve_zip_path("", "./a//b.xhtml"), "a/b.xhtml");
    assert_eq!(resolve_zip_path("a", "../../b"), "b");
    assert_eq!(resolve_zip_path("", ""), "");
}

#[test]
fn plain_text_keeps_blocks_and_drops_ignored_elements() {
    let ex = EpubTextExtractor::new();
    let text = ex.extract_plain_text(CH1.to_string(), default_epub_text_extraction_options());
    assert_eq!(text, "Title\nFirst \u{201c}para\u{201d} here.\nSecond\nline\nspaced");
}

#[test]
fn malformed_markup_falls_back_to_a_tag_scan() {
    let ex = EpubTextExtractor::new();
    let xhtml = r#"<p>Hello &amp; welcome</p><p>Broken <b>tag</p><aside class="x">skip</aside><div class="footnote">fn</div>&#65;&#x42;"#;
    let text = ex.extract_plain_text(xhtml.to_string(), default_epub_text_extraction_options());
    assert_eq!(text, "Hello & welcomeBroken tagAB");
}

#[test]
fn custom_options_ignore_by_tag_and_class() {
    let ex = EpubTextExtractor::new();
    let options = EpubTextExtractionOptions {
        ignored_tags: vec!["em".to_string()],
        ignored_classes: vec!["hide".to_string()],
    };
    let text = ex.extract_plain_text(
        r#"<div><p>a <em>b</em> c</p><p class="x hide">d</p><p>e</p></div>"#.to_string(),
        options,
    );
    assert_eq!(text, "a  c\ne");
}

#[test]
fn tag_decisions_of_the_fallback() {
    let ex = EpubTextExtractor::new();
    let tags = vec!["aside".to_string()];
    let classes = vec!["note".to_string()];
    assert_eq!(ex.should_ignore_tag("aside id=\"1\"", &tags, &classes), ("aside".to_string(), true));
    assert_eq!(ex.should_ignore_tag("span class='a note'", &tags, &classes), ("span".to_string(), true));
    assert_eq!(ex.should_ignore_tag("span class=note", &tags, &classes), ("span".to_string(), false));
    assert_eq!(ex.should_ignore_tag("   ", &tags, &classes), (String::new(), false));
}

#[test]
fn entities_are_decoded_in_order() {
    let ex = EpubTextExtractor::new();
    assert_eq!(ex.decode_html_entities("&amp;lt; &#x263A; &#9731; &#xD800; &eacute;"), "< \u{263a} \u{2603} &#xD800; \u{e9}");
}

fn book(entries: Vec<TestEntry>) -> ZipArchive {
    ZipArchive::from_bytes(build_zip(&entries)).unwrap()
}

fn chapter(text: &str, index: i32) -> (i32, Option<String>, String) {
    (index, None, text.to_string())
}

fn view(cs: &[EpubChapter]) -> Vec<(i32, Option<String>, String)> {
    cs.iter().map(|c| (c.spine_index, c.title.clone(), c.text.clone())).collect()
}

#[test]
fn whole_book_reads_spine_chapters_in_order() {
    let archive = book(vec![
        TestEntry { name: "mimetype", method: METHOD_STORED, data: b"application/epub+zip".to_vec() },
        TestEntry { name: "META-INF/container.xml", method: METHOD_DEFLATE, data: CONTAINER.as_bytes().to_vec() },
        TestEntry { name: "OEBPS/content.opf", method: METHOD_DEFLATE, data: OPF.as_bytes().to_vec() },
        TestEntry { name: "OEBPS/text/ch1.xhtml", method: METHOD_DEFLATE, data: CH1.as_bytes().to_vec() },
        TestEntry { name: "OEBPS/text/ch2.xhtml", method: METHOD_STORED, data: CH2.as_bytes().to_vec() },
    ]);
    let chapters = parse_epub_archive(&archive).unwrap();
    assert_eq!(
        view(&chapters),
        vec![
            chapter("Title\nFirst \u{201c}para\u{201d} here.\nSecond\nline\nspaced", 0),
            chapter("Chapter two.", 1),
        ]
    );
}

#[test]
fn whole_book_errors_name_what_is_missing() {
    let no_container = book(vec![TestEntry { name: "mimetype", method: METHOD_STORED, data: b"x".to_vec() }]);
    match parse_epub_archive(&no_container) {
        Err(FolioParserError::ZipError { msg }) => {
            assert_eq!(msg, "entry not found in archive: META-INF/container.xml")
        }
        other => panic!("unexpected {:?}", other.map(|c| c.len())),
    }
    let no_rootfile = book(vec![TestEntry {
        name: "META-INF/container.xml",
        method: METHOD_STORED,
        data: b"<container/>".to_vec(),
    }]);
    assert!(matches!(parse_epub_archive(&no_rootfile), Err(FolioParserError::MissingContainer)));
    let no_opf = book(vec![TestEntry {
        name: "META-INF/container.xml",
        method: METHOD_STORED,
        data: CONTAINER.as_bytes().to_vec(),
    }]);
    match parse_epub_archive(&no_opf) {
        Err(FolioParserError::MissingOpf { path }) => assert_eq!(path, "OEBPS/content.opf"),
        other => panic!("unexpected {:?}", other.map(|c| c.len())),
    }
    let no_chapter = book(vec![
        TestEntry { name: "META-INF/container.xml", method: METHOD_STORED, data: CONTAINER.as_bytes().to_vec() },
        TestEntry { name: "OEBPS/content.opf", method: METHOD_STORED, data: OPF.as_bytes().to_vec() },
        TestEntry { name: "OEBPS/text/ch1.xhtml", method: METHOD_STORED, data: CH1.as_bytes().to_vec() },
    ]);
    match parse_epub_archive(&no_chapter) {
        Err(FolioParserError::MissingChapter { path }) => assert_eq!(path, "OEBPS/text/ch2.xhtml"),
        other => panic!("unexpected {:?}", other.map(|c| c.len())),
    }
}

#[test]
fn numeric_references_keep_the_text_between_them() {
    let ex = EpubTextExtractor::new();
    assert_eq!(ex.decode_html_entities("a&#65;b&#x42;c"), "aAbBc");
}
