use prosodia::zip_reader::{
    ZipArchive, ZipReadError, CENTRAL_DIR_SIGNATURE, EOCD_SIGNATURE,
    LOCAL_HEADER_SIGNATURE, METHOD_DEFLATE, METHOD_STORED,
};

struct TestEntry {
    name: &'static str,
    method: u16,
    data: Vec<u8>,
}

fn deflate_raw(data: &[u8]) -> Vec<u8> {
    miniz_oxide::deflate::compress_to_vec(data, 6)
}

fn build_zip(entries: &[TestEntry]) -> Vec<u8> {
    let mut out = Vec::new();
    let mut records: Vec<(u32, u32, u32)> = Vec::new();
    for e in entries {
        let local_offset = out.len() as u32;
        let stored: Vec<u8> = match e.method {
            METHOD_STORED => e.data.clone(),
            METHOD_DEFLATE => deflate_raw(&e.data),
            _ => e.data.clone(),
        };
        let comp_size = stored.len() as u32;
        let uncomp_size = e.data.len() as u32;
        out.extend_from_slice(&LOCAL_HEADER_SIGNATURE.to_le_bytes());
        out.extend_from_slice(&20u16.to_le_bytes());
        out.extend_from_slice(&0u16.to_le_bytes());
        out.extend_from_slice(&e.method.to_le_bytes());
        out.extend_from_slice(&0u16.to_le_bytes());
        out.extend_from_slice(&0u16.to_le_bytes());
        out.extend_from_slice(&0u32.to_le_bytes());
        out.extend_from_slice(&comp_size.to_le_bytes());
        out.extend_from_slice(&uncomp_size.to_le_bytes());
        out.extend_from_slice(&(e.name.len() as u16).to_le_bytes());
        out.extend_from_slice(&0u16.to_le_bytes());
        out.extend_from_slice(e.name.as_bytes());
        out.extend_from_slice(&stored);
        records.push((local_offset, comp_size, uncomp_size));
    }
    let cd_offset = out.len() as u32;
    for (e, &(local_offset, comp_size, uncomp_size)) in entries.iter().zip(&records) {
        out.extend_from_slice(&CENTRAL_DIR_SIGNATURE.to_le_bytes());
        out.extend_from_slice(&20u16.to_le_bytes());
        out.extend_from_slice(&20u16.to_le_bytes());
        out.extend_from_slice(&0u16.to_le_bytes());
        out.extend_from_slice(&e.method.to_le_bytes());
        out.extend_from_slice(&0u16.to_le_bytes());
        out.extend_from_slice(&0u16.to_le_bytes());
        out.extend_from_slice(&0u32.to_le_bytes());
        out.extend_from_slice(&comp_size.to_le_bytes());
        out.extend_from_slice(&uncomp_size.to_le_bytes());
        out.extend_from_slice(&(e.name.len() as u16).to_le_bytes());
        out.extend_from_slice(&0u16.to_le_bytes());
        out.extend_from_slice(&0u16.to_le_bytes());
        out.extend_from_slice(&0u16.to_le_bytes());
        out.extend_from_slice(&0u16.to_le_bytes());
        out.extend_from_slice(&0u32.to_le_bytes());
        out.extend_from_slice(&local_offset.to_le_bytes());
        out.extend_from_slice(e.name.as_bytes());
    }
    let cd_size = out.len() as u32 - cd_offset;
    out.extend_from_slice(&EOCD_SIGNATURE.to_le_bytes());
    out.extend_from_slice(&0u16.to_le_bytes());
    out.extend_from_slice(&0u16.to_le_bytes());
    out.extend_from_slice(&(entries.len() as u16).to_le_bytes());
    out.extend_from_slice(&(entries.len() as u16).to_le_bytes());
    out.extend_from_slice(&cd_size.to_le_bytes());
    out.extend_from_slice(&cd_offset.to_le_bytes());
    out.extend_from_slice(&0u16.to_le_bytes());
    out
}

#[test]
fn reads_stored_entry() {
    let payload = b"hello stored world".to_vec();
    let zip = build_zip(&[TestEntry { name: "mimetype", method: METHOD_STORED, data: payload.clone() }]);
    let archive = ZipArchive::from_bytes(zip).unwrap();
    assert_eq!(archive.by_name("mimetype").unwrap(), payload);
}

#[test]
fn reads_deflated_entry() {
    let payload = "<html><body>".repeat(500).into_bytes();
    let zip = build_zip(&[TestEntry { name: "OEBPS/chapter1.xhtml", method: METHOD_DEFLATE, data: payload.clone() }]);
    let archive = ZipArchive::from_bytes(zip).unwrap();
    assert_eq!(archive.by_name("OEBPS/chapter1.xhtml").unwrap(), payload);
}

#[test]
fn reads_multiple_entries_and_skips_directories() {
    let zip = build_zip(&[
        TestEntry { name: "META-INF/container.xml", method: METHOD_DEFLATE, data: b"<container/>".repeat(100) },
        TestEntry { name: "mimetype", method: METHOD_STORED, data: b"application/epub+zip".to_vec() },
    ]);
    let archive = ZipArchive::from_bytes(zip).unwrap();
    assert_eq!(archive.by_name("mimetype").unwrap(), b"application/epub+zip");
    assert_eq!(archive.by_name("META-INF/container.xml").unwrap(), b"<container/>".repeat(100));
}

#[test]
fn missing_entry_errors() {
    let zip = build_zip(&[TestEntry { name: "mimetype", method: METHOD_STORED, data: b"x".to_vec() }]);
    let archive = ZipArchive::from_bytes(zip).unwrap();
    assert!(matches!(archive.by_name("nope"), Err(ZipReadError::EntryNotFound(_))));
}

#[test]
fn garbage_is_rejected() {
    assert!(matches!(ZipArchive::from_bytes(vec![0u8; 8]), Err(ZipReadError::InvalidArchive(_))));
}

#[test]
fn directory_entries_are_not_in_the_catalog() {
    let zip = build_zip(&[
        TestEntry { name: "OEBPS/", method: METHOD_STORED, data: Vec::new() },
        TestEntry { name: "OEBPS/a.txt", method: METHOD_STORED, data: b"a".to_vec() },
    ]);
    let archive = ZipArchive::from_bytes(zip).unwrap();
    assert!(matches!(archive.by_name("OEBPS/"), Err(ZipReadError::EntryNotFound(n)) if n == "OEBPS/"));
    assert_eq!(archive.by_name("OEBPS/a.txt").unwrap(), b"a");
}

#[test]
fn later_entry_with_the_same_name_wins() {
    let zip = build_zip(&[
        TestEntry { name: "x", method: METHOD_STORED, data: b"first".to_vec() },
        TestEntry { name: "x", method: METHOD_STORED, data: b"second".to_vec() },
    ]);
    let archive = ZipArchive::from_bytes(zip).unwrap();
    assert_eq!(archive.by_name("x").unwrap(), b"second");
}

#[test]
fn unsupported_method_and_corrupt_deflate_are_reported() {
    let zip = build_zip(&[
        TestEntry { name: "bz", method: 12, data: b"zz".to_vec() },
        TestEntry { name: "bad", method: METHOD_STORED, data: vec![0xff, 0xff, 0xff] },
    ]);
    let mut zip2 = zip.clone();
    let archive = ZipArchive::from_bytes(zip).unwrap();
    assert!(matches!(archive.by_name("bz"), Err(ZipReadError::UnsupportedCompression(12))));
    // Mark the second entry (stored, 3 bytes of 0xff) as deflate in both headers.
    let local2 = 30 + 2 + 2;
    zip2[local2 + 8] = 8;
    let cd = zip2.len() - 22 - (46 + 3);
    zip2[cd + 10] = 8;
    let archive2 = ZipArchive::from_bytes(zip2).unwrap();
    assert!(matches!(archive2.by_name("bad"), Err(ZipReadError::Decompress(_))));
}

#[test]
fn truncated_and_zip64_archives_are_invalid() {
    let mut zip = build_zip(&[TestEntry { name: "m", method: METHOD_STORED, data: b"x".to_vec() }]);
    let n = zip.len();
    // cd_offset = 0xFFFF_FFFF
    zip[n - 6..n - 2].copy_from_slice(&0xFFFF_FFFFu32.to_le_bytes());
    match ZipArchive::from_bytes(zip) {
        Err(ZipReadError::InvalidArchive(m)) => assert_eq!(m, "ZIP64 archives are not supported"),
        _ => panic!("expected InvalidArchive"),
    }
    let mut no_sig = vec![0u8; 40];
    no_sig[0] = 1;
    match ZipArchive::from_bytes(no_sig) {
        Err(ZipReadError::InvalidArchive(m)) => assert_eq!(m, "end of central directory record not found"),
        _ => panic!("expected InvalidArchive"),
    }
}

#[test]
fn short_eocd_record_is_rejected() {
    let mut data = vec![0u8; 30];
    data[26..30].copy_from_slice(&EOCD_SIGNATURE.to_le_bytes());
    match ZipArchive::from_bytes(data) {
        Err(ZipReadError::InvalidArchive(m)) => assert_eq!(m, "end of central directory record truncated"),
        _ => panic!("expected InvalidArchive"),
    }
    let cut = [vec![0u8; 18], vec![0x50, 0x4b, 0x05, 0x06]].concat();
    assert!(matches!(ZipArchive::from_bytes(cut), Err(ZipReadError::InvalidArchive(_))));
    assert!(ZipArchive::from_bytes(build_zip(&[])).is_ok());
}
