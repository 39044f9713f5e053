//! A small in-memory ZIP reader, enough to pull named entries out of an EPUB.
//!
//! The End Of Central Directory record is located at the tail, the central
//! directory is walked into a catalog of entries, and an entry's bytes are read
//! through its local header and copied (`Stored`) or inflated (`Deflate`).
//! ZIP64 archives are rejected.

use vstd::prelude::*;
use vstd::hash_map::StringHashMap;
use crate::text::{decimal_digits, decimal_text, from_utf8_lossy, joined, starts_with, utf8_lossy};

verus! {

/// Signature of the End Of Central Directory record.
pub const EOCD_SIGNATURE: u32 = 0x0605_4b50;

/// Signature of a central directory entry.
pub const CENTRAL_DIR_SIGNATURE: u32 = 0x0201_4b50;

/// Signature of a local file header.
pub const LOCAL_HEADER_SIGNATURE: u32 = 0x0403_4b50;

/// Fixed size of an EOCD record (without its comment).
pub const EOCD_MIN_SIZE: usize = 22;

/// Fixed size of a central directory entry (without name, extra and comment).
pub const CENTRAL_DIR_FIXED_SIZE: usize = 46;

/// Fixed size of a local file header (without name and extra).
pub const LOCAL_HEADER_FIXED_SIZE: usize = 30;

/// A 32-bit size or offset holding this value marks a ZIP64 archive.
pub const ZIP64_SENTINEL_U32: u32 = 0xFFFF_FFFF;

/// Compression method: stored as is.
pub const METHOD_STORED: u16 = 0;

/// Compression method: raw DEFLATE.
pub const METHOD_DEFLATE: u16 = 8;

/// `miniz_oxide`'s report of a failed inflation.
#[verifier::external_type_specification]
#[verifier::external_body]
pub struct ExDecompressError(miniz_oxide::inflate::DecompressError);

/// An I/O failure while reading an archive from disk.
#[verifier::external_type_specification]
#[verifier::external_body]
pub struct ExIoError(std::io::Error);

/// Why an archive or one of its entries could not be read.
#[derive(Debug)]
pub enum ZipReadError {
    /// The bytes are not a recognizable (non-ZIP64) ZIP archive.
    InvalidArchive(String),
    /// No entry with the requested name exists in the central directory.
    EntryNotFound(String),
    /// The entry uses a compression method other than Stored or Deflate.
    UnsupportedCompression(u16),
    /// DEFLATE inflation failed.
    Decompress(String),
    /// Reading the backing file failed.
    Io(std::io::Error),
}

/// The raw DEFLATE stream `data` inflates to this, or `None` when it is malformed
/// (`miniz_oxide::inflate::decompress_to_vec`).
pub uninterp spec fn inflated(data: Seq<u8>) -> Option<Seq<u8>>;


/// Calls `miniz_oxide::inflate::decompress_to_vec`, which inflates a raw DEFLATE stream.
#[verifier::external_body]
fn decompress_to_vec(data: &[u8]) -> (r: Result<Vec<u8>, miniz_oxide::inflate::DecompressError>)
    ensures
        r is Ok <==> inflated(data@) is Some,
        r is Ok ==> inflated(data@) == Some(r->Ok_0@),
{
    miniz_oxide::inflate::decompress_to_vec(data)
}

/// Describes an inflation failure with its status and the amount inflated so far.
/// The text itself is not stated.
#[verifier::external_body]
fn describe_decompress_error(e: &miniz_oxide::inflate::DecompressError) -> String {
    format!("{:?} after {} bytes", e.status, e.output.len())
}


/// Little-endian `u16` at `o`.
pub open spec fn le16(d: Seq<u8>, o: int) -> int {
    d[o] as int + d[o + 1] as int * 256
}

/// Little-endian `u32` at `o`.
pub open spec fn le32(d: Seq<u8>, o: int) -> int {
    d[o] as int + d[o + 1] as int * 256 + d[o + 2] as int * 65536 + d[o + 3] as int * 16777216
}

/// Read a little-endian `u16` at `offset`.
pub(crate) fn read_u16(data: &[u8], offset: usize) -> (v: u16)
    requires
        offset + 2 <= data@.len(),
    ensures
        v as int == le16(data@, offset as int),
{
    data[offset] as u16 + (data[offset + 1] as u16) * 256
}

/// Read a little-endian `u32` at `offset`.
pub(crate) fn read_u32(data: &[u8], offset: usize) -> (v: u32)
    requires
        offset + 4 <= data@.len(),
    ensures
        v as int == le32(data@, offset as int),
{
    data[offset] as u32 + (data[offset + 1] as u32) * 256 + (data[offset + 2] as u32) * 65536
        + (data[offset + 3] as u32) * 16777216
}

/// What the catalog records of one entry.
pub struct CentralDirEntry {
    pub compression_method: u16,
    pub compressed_size: u64,
    pub local_header_offset: u64,
}

/// Lowest offset the EOCD search looks at.
pub open spec fn eocd_scan_start(len: int) -> int {
    len - if len < 22 + 65535 { len } else { 65557int }
}

/// The EOCD signature is at offset `o`.
pub open spec fn eocd_at(d: Seq<u8>, o: int) -> bool {
    0 <= o && o + 4 <= d.len() && le32(d, o) == EOCD_SIGNATURE
}

/// The EOCD record is the last signature within the search window.
pub open spec fn is_eocd(d: Seq<u8>, o: int) -> bool {
    &&& d.len() >= 22
    &&& eocd_scan_start(d.len() as int) <= o <= d.len() - 4
    &&& eocd_at(d, o)
    &&& forall|p: int| o < p <= d.len() - 4 ==> !#[trigger] eocd_at(d, p)
}

/// No EOCD signature lies in the search window.
pub open spec fn no_eocd(d: Seq<u8>) -> bool {
    d.len() < 22 || forall|p: int|
        eocd_scan_start(d.len() as int) <= p <= d.len() - 4 ==> !#[trigger] eocd_at(d, p)
}

/// The catalog as a map, or the error message that stopped the walk.
pub type CatalogResult = Result<Map<Seq<char>, (u16, u64, u64)>, Seq<char>>;

/// A central directory entry's name ends with `/`: a directory, left out of the catalog.
pub open spec fn directory_name(name: Seq<char>) -> bool {
    name.len() > 0 && name.last() == '/'
}

/// Read the central directory entry at `cursor` into `acc`: the offset of the next
/// entry and the updated catalog, or the message of what is wrong with the entry.
#[verifier::opaque]
pub open spec fn entry_step(d: Seq<u8>, cursor: int, acc: Map<Seq<char>, (u16, u64, u64)>) -> Result<
    (int, Map<Seq<char>, (u16, u64, u64)>),
    Seq<char>,
> {
    if cursor + 46 > d.len() {
        Err("central directory entry truncated"@)
    } else if le32(d, cursor) != CENTRAL_DIR_SIGNATURE {
        Err("bad central directory signature"@)
    } else if le32(d, cursor + 20) == ZIP64_SENTINEL_U32 || le32(d, cursor + 42) == ZIP64_SENTINEL_U32 {
        Err("ZIP64 entry fields are not supported"@)
    } else if cursor + 46 + le16(d, cursor + 28) > d.len() {
        Err("central directory file name truncated"@)
    } else {
        let name_end = cursor + 46 + le16(d, cursor + 28);
        let name = utf8_lossy(d.subrange(cursor + 46, name_end));
        let next = name_end + le16(d, cursor + 30) + le16(d, cursor + 32);
        let acc2 = if directory_name(name) {
            acc
        } else {
            acc.insert(
                name,
                (le16(d, cursor + 10) as u16, le32(d, cursor + 20) as u64, le32(d, cursor + 42) as u64),
            )
        };
        Ok((next, acc2))
    }
}

/// Walk `remaining` central directory entries starting at `cursor`, adding each to `acc`
/// (later entries replace earlier ones of the same name).
pub open spec fn walk_entries(d: Seq<u8>, cursor: int, remaining: nat, acc: Map<
    Seq<char>,
    (u16, u64, u64),
>) -> CatalogResult
    decreases remaining,
{
    if remaining == 0 {
        Ok(acc)
    } else {
        match entry_step(d, cursor, acc) {
            Err(e) => Err(e),
            Ok((next, acc2)) => walk_entries(d, next, (remaining - 1) as nat, acc2),
        }
    }
}

/// The catalog of a whole archive: locate the EOCD, check the central directory
/// bounds, then walk its entries.
pub open spec fn catalog(d: Seq<u8>) -> CatalogResult {
    if d.len() < 22 {
        Err("file smaller than EOCD"@)
    } else if no_eocd(d) {
        Err("end of central directory record not found"@)
    } else {
        let eocd = choose|o: int| is_eocd(d, o);
        if eocd + 20 > d.len() {
            Err("end of central directory record truncated"@)
        } else {
        let total = le16(d, eocd + 10);
        let cd_size = le32(d, eocd + 12);
        let cd_offset = le32(d, eocd + 16);
        if cd_offset == ZIP64_SENTINEL_U32 || cd_size == ZIP64_SENTINEL_U32 {
            Err("ZIP64 archives are not supported"@)
        } else if cd_offset + cd_size > d.len() {
            Err("central directory extends past end of archive"@)
        } else {
            walk_entries(d, cd_offset, total as nat, Map::empty())
        }
        }
    }
}

proof fn lemma_eocd_unique(d: Seq<u8>, o1: int, o2: int)
    requires
        is_eocd(d, o1),
        is_eocd(d, o2),
    ensures
        o1 == o2,
{
    if o1 < o2 {
        assert(!eocd_at(d, o2));
    } else if o2 < o1 {
        assert(!eocd_at(d, o1));
    }
}

/// Scan backward from the end of the data for the EOCD signature.
fn find_eocd(data: &[u8]) -> (r: Result<usize, ZipReadError>)
    ensures
        r is Ok ==> is_eocd(data@, r->Ok_0 as int),
        r is Err ==> no_eocd(data@),
        r is Err ==> r->Err_0 is InvalidArchive,
        r is Err ==> r->Err_0->InvalidArchive_0@ == (if data@.len() < 22 {
            "file smaller than EOCD"@
        } else {
            "end of central directory record not found"@
        }),
{
    let len = data.len();
    if len < EOCD_MIN_SIZE {
        return Err(ZipReadError::InvalidArchive(String::from_str("file smaller than EOCD")));
    }
    let max_back = if len < EOCD_MIN_SIZE + 65535 { len } else { EOCD_MIN_SIZE + 65535 };
    let scan_start = len - max_back;
    let mut offset = len - 4;
    loop
        invariant
            len == data@.len() >= 22,
            scan_start == eocd_scan_start(len as int),
            scan_start <= offset,
            offset <= len - 4,
            forall|p: int| offset < p <= len - 4 ==> !#[trigger] eocd_at(data@, p),
        ensures
            forall|p: int| scan_start <= p <= len - 4 ==> !#[trigger] eocd_at(data@, p),
        decreases offset + 1 - scan_start,
    {
        if read_u32(data, offset) == EOCD_SIGNATURE {
            return Ok(offset);
        }
        if offset == scan_start {
            break;
        }
        offset -= 1;
    }
    Err(ZipReadError::InvalidArchive(String::from_str("end of central directory record not found")))
}

/// What the catalog records of an entry: (method, compressed size, local header
/// offset).
pub open spec fn entry_value(e: CentralDirEntry) -> (u16, u64, u64) {
    (e.compression_method, e.compressed_size, e.local_header_offset)
}

/// A catalog held as a map from entry name to entry, read as plain values.
pub open spec fn catalog_view(m: Map<Seq<char>, CentralDirEntry>) -> Map<Seq<char>, (u16, u64, u64)> {
    m.map_values(|e: CentralDirEntry| entry_value(e))
}

fn invalid(msg: &str) -> (e: ZipReadError)
    ensures
        e is InvalidArchive,
        e->InvalidArchive_0@ == msg@,
{
    ZipReadError::InvalidArchive(String::from_str(msg))
}

/// Parse the EOCD and central directory into a catalog of named entries.
fn parse_central_directory(data: &[u8]) -> (r: Result<StringHashMap<CentralDirEntry>, ZipReadError>)
    ensures
        r is Ok <==> catalog(data@) is Ok,
        r is Ok ==> catalog_view(r->Ok_0@) == catalog(data@)->Ok_0,
        r is Err ==> r->Err_0 is InvalidArchive && r->Err_0->InvalidArchive_0@ == catalog(data@)->Err_0,
{
    let eocd = match find_eocd(data) {
        Ok(o) => o,
        Err(e) => {
            return Err(e);
        },
    };
    proof {
        let o = choose|o: int| is_eocd(data@, o);
        lemma_eocd_unique(data@, o, eocd as int);
    }
    if data.len() - eocd < 20 {
        return Err(invalid("end of central directory record truncated"));
    }
    let dlen = data.len();
    assert(eocd + 20 <= dlen);
    let total_entries = read_u16(data, eocd + 10) as usize;
    let cd_size = read_u32(data, eocd + 12);
    let cd_offset = read_u32(data, eocd + 16);
    if cd_offset == ZIP64_SENTINEL_U32 || cd_size == ZIP64_SENTINEL_U32 {
        return Err(invalid("ZIP64 archives are not supported"));
    }
    let len = data.len() as u64;
    let mut cursor = cd_offset as u64;
    if cursor > len || cd_size as u64 > len - cursor {
        return Err(invalid("central directory extends past end of archive"));
    }
    assert(catalog(data@) == walk_entries(data@, cd_offset as int, total_entries as nat, Map::empty()));
    let mut entries: StringHashMap<CentralDirEntry> = StringHashMap::new();
    assert(catalog_view(entries@) =~= Map::empty());
    let mut k: usize = 0;
    while k < total_entries
        invariant
            k <= total_entries,
            len == data@.len(),
            cursor <= len,
            walk_entries(data@, cursor as int, (total_entries - k) as nat, catalog_view(entries@))
                == catalog(data@),
        decreases total_entries - k,
    {
        let ghost acc = catalog_view(entries@);
        match read_entry(data, cursor, &mut entries) {
            Err(e) => {
                return Err(e);
            },
            Ok(Some(next)) => {
                cursor = next;
                k += 1;
            },
            Ok(None) => {
                let ghost step = entry_step(data@, cursor as int, acc)->Ok_0;
                let ghost rem = (total_entries - k) as nat;
                assert(walk_entries(data@, cursor as int, rem, acc) == walk_entries(
                    data@,
                    step.0,
                    (rem - 1) as nat,
                    step.1,
                ));
                k += 1;
                if k < total_entries {
                    proof {
                        reveal(entry_step);
                        assert(entry_step(data@, step.0, step.1) is Err);
                    }
                    return Err(invalid("central directory entry truncated"));
                }
                return Ok(entries);
            },
        }
    }
    Ok(entries)
}

/// Read the central directory entry at `cursor` into `entries`; the offset of the
/// next entry, or `None` when that offset lies past the end of the data.
fn read_entry(data: &[u8], cursor: u64, entries: &mut StringHashMap<CentralDirEntry>) -> (r: Result<
    Option<u64>,
    ZipReadError,
>)
    requires
        cursor <= data@.len(),
    ensures
        r is Err <==> entry_step(data@, cursor as int, catalog_view(old(entries)@)) is Err,
        r is Err ==> r->Err_0 is InvalidArchive && r->Err_0->InvalidArchive_0@ == entry_step(
            data@,
            cursor as int,
            catalog_view(old(entries)@),
        )->Err_0,
        r is Ok ==> ({
            let (next, acc2) = entry_step(data@, cursor as int, catalog_view(old(entries)@))->Ok_0;
            &&& catalog_view(final(entries)@) == acc2
            &&& r->Ok_0 is Some ==> r->Ok_0->Some_0 as int == next && next <= data@.len()
            &&& r->Ok_0 is None ==> next > data@.len()
        }),
{
    reveal(entry_step);
    let len = data.len() as u64;
    if len - cursor < 46 {
        return Err(invalid("central directory entry truncated"));
    }
    let c = cursor as usize;
    if read_u32(data, c) != CENTRAL_DIR_SIGNATURE {
        return Err(invalid("bad central directory signature"));
    }
    let compression_method = read_u16(data, c + 10);
    let compressed_size = read_u32(data, c + 20);
    let name_len = read_u16(data, c + 28) as u64;
    let extra_len = read_u16(data, c + 30) as u64;
    let comment_len = read_u16(data, c + 32) as u64;
    let local_header_offset = read_u32(data, c + 42);
    if compressed_size == ZIP64_SENTINEL_U32 || local_header_offset == ZIP64_SENTINEL_U32 {
        return Err(invalid("ZIP64 entry fields are not supported"));
    }
    let name_start = cursor + 46;
    if name_len > len - name_start {
        return Err(invalid("central directory file name truncated"));
    }
    let name_end = name_start + name_len;
    let name_bytes = vstd::slice::slice_subrange(data, name_start as usize, name_end as usize);
    let name = from_utf8_lossy(name_bytes);
    let name_chars = crate::text::chars_of(name.as_str());
    let is_dir = name_chars.len() > 0 && name_chars[name_chars.len() - 1] == '/';
    let ghost before = entries@;
    if !is_dir {
        let ghost key = name@;
        let e = CentralDirEntry {
            compression_method,
            compressed_size: compressed_size as u64,
            local_header_offset: local_header_offset as u64,
        };
        entries.insert(name, e);
        assert(catalog_view(entries@) =~= catalog_view(before).insert(key, entry_value(e)));
    }
    if extra_len + comment_len > len - name_end {
        return Ok(None);
    }
    Ok(Some(name_end + extra_len + comment_len))
}

/// Offset of an entry's payload: past its local header's fixed part, name and extra field.
pub open spec fn payload_start(d: Seq<u8>, e: (u16, u64, u64)) -> int {
    e.2 + 30 + le16(d, e.2 + 26) + le16(d, e.2 + 28)
}

/// End of an entry's payload.
pub open spec fn payload_end(d: Seq<u8>, e: (u16, u64, u64)) -> int {
    payload_start(d, e) + e.1
}

/// What is wrong with an entry's local header or payload bounds, if anything.
pub open spec fn local_header_error(d: Seq<u8>, e: (u16, u64, u64)) -> Option<Seq<char>> {
    if e.2 + 30 > d.len() {
        Some("local header offset out of bounds"@)
    } else if le32(d, e.2 as int) != LOCAL_HEADER_SIGNATURE {
        Some("bad local file header signature"@)
    } else if payload_end(d, e) > d.len() {
        Some("entry data extends past end of archive"@)
    } else {
        None
    }
}

/// The (still compressed) payload bytes of an entry.
pub open spec fn payload(d: Seq<u8>, e: (u16, u64, u64)) -> Seq<u8> {
    d.subrange(payload_start(d, e), payload_end(d, e))
}

/// The outcome of reading entry `e` of archive bytes `d`, as `by_name` returns it.
pub open spec fn read_outcome(d: Seq<u8>, e: (u16, u64, u64), r: Result<Vec<u8>, ZipReadError>) -> bool {
    match local_header_error(d, e) {
        Some(msg) => r is Err && r->Err_0 is InvalidArchive && r->Err_0->InvalidArchive_0@ == msg,
        None => if e.0 == METHOD_STORED {
            r is Ok && r->Ok_0@ == payload(d, e)
        } else if e.0 == METHOD_DEFLATE {
            match inflated(payload(d, e)) {
                Some(bytes) => r is Ok && r->Ok_0@ == bytes,
                None => r is Err && r->Err_0 is Decompress,
            }
        } else {
            r is Err && r->Err_0 is UnsupportedCompression && r->Err_0->UnsupportedCompression_0
                == e.0
        },
    }
}

/// An archive held in memory together with its catalog.
pub struct ZipArchive {
    data: Vec<u8>,
    entries: StringHashMap<CentralDirEntry>,
}

impl ZipArchive {
    /// The archive's bytes.
    pub closed spec fn bytes(&self) -> Seq<u8> {
        self.data@
    }

    /// The archive's catalog: name to (compression method, compressed size,
    /// local header offset).
    pub closed spec fn entries(&self) -> Map<Seq<char>, (u16, u64, u64)> {
        catalog_view(self.entries@)
    }

    /// Index an archive already resident in memory.
    pub fn from_bytes(data: Vec<u8>) -> (r: Result<Self, ZipReadError>)
        ensures
            r is Ok <==> catalog(data@) is Ok,
            r is Ok ==> r->Ok_0.bytes() == data@ && r->Ok_0.entries()
                == catalog(data@)->Ok_0,
            r is Err ==> r->Err_0 is InvalidArchive && r->Err_0->InvalidArchive_0@ == catalog(
                data@,
            )->Err_0,
    {
        let entries = match parse_central_directory(data.as_slice()) {
            Ok(e) => e,
            Err(e) => {
                return Err(e);
            },
        };
        Ok(ZipArchive { data, entries })
    }
    /// Read and decompress the entry with full archive path `name`.
    pub fn by_name(&self, name: &str) -> (r: Result<Vec<u8>, ZipReadError>)
        ensures
            !self.entries().contains_key(name@) ==> r is Err && r->Err_0 is EntryNotFound
                && r->Err_0->EntryNotFound_0@ == name@,
            self.entries().contains_key(name@) ==> read_outcome(
                self.bytes(),
                self.entries()[name@],
                r,
            ),
    {
        let entry = match self.entries.get(name) {
            Some(e) => e,
            None => {
                return Err(ZipReadError::EntryNotFound(String::from_str(name)));
            },
        };
        assert(self.entries()[name@] == entry_value(*entry));
        let data = self.data.as_slice();
        let len = data.len() as u64;
        let lho = entry.local_header_offset;
        if lho > len || len - lho < 30 {
            return Err(invalid("local header offset out of bounds"));
        }
        let l = lho as usize;
        if read_u32(data, l) != LOCAL_HEADER_SIGNATURE {
            return Err(invalid("bad local file header signature"));
        }
        let name_len = read_u16(data, l + 26) as u64;
        let extra_len = read_u16(data, l + 28) as u64;
        let after_header = lho + 30;
        if name_len + extra_len > len - after_header {
            return Err(invalid("entry data extends past end of archive"));
        }
        let data_start = after_header + name_len + extra_len;
        if entry.compressed_size > len - data_start {
            return Err(invalid("entry data extends past end of archive"));
        }
        let data_end = data_start + entry.compressed_size;
        let compressed = vstd::slice::slice_subrange(data, data_start as usize, data_end as usize);
        if entry.compression_method == METHOD_STORED {
            Ok(vstd::slice::slice_to_vec(compressed))
        } else if entry.compression_method == METHOD_DEFLATE {
            match decompress_to_vec(compressed) {
                Ok(bytes) => Ok(bytes),
                Err(e) => Err(ZipReadError::Decompress(describe_decompress_error(&e))),
            }
        } else {
            Err(ZipReadError::UnsupportedCompression(entry.compression_method))
        }
    }
}

/// Calls `ToString::to_string` on an I/O error, which gives its `Display` text.
#[verifier::external_body]
pub(crate) fn io_error_text(e: &std::io::Error) -> String {
    e.to_string()
}

impl ZipReadError {
    /// The error's display text.
    pub fn message(&self) -> (s: String)
        ensures
            self matches ZipReadError::InvalidArchive(m) ==> s@ == "invalid zip archive: "@ + m@,
            self matches ZipReadError::EntryNotFound(n) ==> s@ == "entry not found in archive: "@
                + n@,
            self matches ZipReadError::UnsupportedCompression(m) ==> s@
                == "unsupported zip compression method: "@ + decimal_digits(m as nat),
            self matches ZipReadError::Decompress(m) ==> s@ == "zip decompression failed: "@ + m@,
            self matches ZipReadError::Io(_) ==> starts_with(s@, "io error: "@),
    {
        match self {
            ZipReadError::InvalidArchive(m) => joined("invalid zip archive: ", m.as_str()),
            ZipReadError::EntryNotFound(n) => joined("entry not found in archive: ", n.as_str()),
            ZipReadError::UnsupportedCompression(m) => {
                let d = decimal_text(*m as u64);
                joined("unsupported zip compression method: ", d.as_str())
            },
            ZipReadError::Decompress(m) => joined("zip decompression failed: ", m.as_str()),
            ZipReadError::Io(e) => {
                let t = io_error_text(e);
                let s = joined("io error: ", t.as_str());
                assert(s@.take("io error: "@.len() as int) =~= "io error: "@);
                s
            },
        }
    }

}

// ---------------------------------------------------------------------------
// Archives as they are written
// ---------------------------------------------------------------------------

/// An entry to write into an archive: its name bytes, its compression method, and
/// its (possibly compressed) data.
pub struct ZipItem {
    pub name: Seq<u8>,
    pub method: u16,
    pub data: Seq<u8>,
}

/// Byte `k` (0 to 3) of `v` in little-endian order.
pub open spec fn byte_of(v: int, k: int) -> u8 {
    (if k == 0 {
        v % 256
    } else if k == 1 {
        (v / 256) % 256
    } else if k == 2 {
        (v / 65536) % 256
    } else {
        (v / 16777216) % 256
    }) as u8
}

/// Byte `i` of the fixed part of an item's local header: the signature and the
/// name length, the rest zero.
pub open spec fn local_header_byte(item: ZipItem, i: int) -> u8 {
    if i < 4 {
        byte_of(LOCAL_HEADER_SIGNATURE as int, i)
    } else if 26 <= i < 28 {
        byte_of(item.name.len() as int, i - 26)
    } else {
        0
    }
}

/// An item's local header, name and data.
pub open spec fn local_record(item: ZipItem) -> Seq<u8> {
    Seq::new(30, |i: int| local_header_byte(item, i)) + item.name + item.data
}

/// The local records of `items`, one after another from the start of the archive.
pub open spec fn locals(items: Seq<ZipItem>) -> Seq<u8>
    decreases items.len(),
{
    if items.len() == 0 {
        Seq::empty()
    } else {
        locals(items.drop_last()) + local_record(items.last())
    }
}

/// Byte `i` of the fixed part of an item's central directory entry, its local
/// header at `off`: signature, method, compressed size, name length and offset,
/// the rest (extra and comment lengths among them) zero.
pub open spec fn central_header_byte(item: ZipItem, off: int, i: int) -> u8 {
    if i < 4 {
        byte_of(CENTRAL_DIR_SIGNATURE as int, i)
    } else if 10 <= i < 12 {
        byte_of(item.method as int, i - 10)
    } else if 20 <= i < 24 {
        byte_of(item.data.len() as int, i - 20)
    } else if 28 <= i < 30 {
        byte_of(item.name.len() as int, i - 28)
    } else if 42 <= i < 46 {
        byte_of(off, i - 42)
    } else {
        0
    }
}

/// An item's central directory entry and name.
pub open spec fn central_record(item: ZipItem, off: int) -> Seq<u8> {
    Seq::new(46, |i: int| central_header_byte(item, off, i)) + item.name
}

/// The central directory of `items`.
pub open spec fn centrals(items: Seq<ZipItem>) -> Seq<u8>
    decreases items.len(),
{
    if items.len() == 0 {
        Seq::empty()
    } else {
        centrals(items.drop_last()) + central_record(items.last(), locals(items.drop_last()).len() as int)
    }
}

/// Byte `i` of the EOCD record for `count` entries and a central directory of
/// `size` bytes at `off`, without a comment.
pub open spec fn eocd_byte(count: int, size: int, off: int, i: int) -> u8 {
    if i < 4 {
        byte_of(EOCD_SIGNATURE as int, i)
    } else if 8 <= i < 10 {
        byte_of(count, i - 8)
    } else if 10 <= i < 12 {
        byte_of(count, i - 10)
    } else if 12 <= i < 16 {
        byte_of(size, i - 12)
    } else if 16 <= i < 20 {
        byte_of(off, i - 16)
    } else {
        0
    }
}

/// The archive holding `items`: their local records, the central directory, and
/// the EOCD record.
pub open spec fn zip_archive(items: Seq<ZipItem>) -> Seq<u8> {
    locals(items) + centrals(items) + Seq::new(
        22,
        |i: int| eocd_byte(items.len() as int, centrals(items).len() as int, locals(items).len() as int, i),
    )
}

/// Where item `k`'s local record starts.
pub open spec fn item_offset(items: Seq<ZipItem>, k: int) -> int {
    locals(items.take(k)).len() as int
}

/// The catalog that `items` should give: each item by the name its bytes decode
/// to (directories left out, a later item replacing an earlier one of the same name).
pub open spec fn items_catalog(items: Seq<ZipItem>) -> Map<Seq<char>, (u16, u64, u64)>
    decreases items.len(),
{
    if items.len() == 0 {
        Map::empty()
    } else {
        let m = items_catalog(items.drop_last());
        let n = utf8_lossy(items.last().name);
        if directory_name(n) {
            m
        } else {
            m.insert(n, (items.last().method, items.last().data.len() as u64, locals(items.drop_last()).len() as u64))
        }
    }
}

proof fn lemma_bytes_read_back(v: int)
    requires
        0 <= v < 0x1_0000_0000,
    ensures
        byte_of(v, 0) as int + byte_of(v, 1) as int * 256 + byte_of(v, 2) as int * 65536 + byte_of(v, 3) as int
            * 16777216 == v,
        v < 65536 ==> byte_of(v, 0) as int + byte_of(v, 1) as int * 256 == v,
{
    assert(byte_of(v, 0) as int + byte_of(v, 1) as int * 256 + byte_of(v, 2) as int * 65536 + byte_of(v, 3) as int
        * 16777216 == v) by (nonlinear_arith)
        requires
            0 <= v < 0x1_0000_0000,
            byte_of(v, 0) as int == v % 256,
            byte_of(v, 1) as int == (v / 256) % 256,
            byte_of(v, 2) as int == (v / 65536) % 256,
            byte_of(v, 3) as int == (v / 16777216) % 256,
    ;
    assert(v < 65536 ==> byte_of(v, 0) as int + byte_of(v, 1) as int * 256 == v) by (nonlinear_arith)
        requires
            0 <= v,
            byte_of(v, 0) as int == v % 256,
            byte_of(v, 1) as int == (v / 256) % 256,
    ;
}

proof fn lemma_take_step(items: Seq<ZipItem>, k: int)
    requires
        0 <= k < items.len(),
    ensures
        locals(items.take(k + 1)) == locals(items.take(k)) + local_record(items[k]),
        centrals(items.take(k + 1)) == centrals(items.take(k)) + central_record(items[k], item_offset(items, k)),
{
    assert(items.take(k + 1).drop_last() =~= items.take(k));
    assert(items.take(k + 1).last() == items[k]);
}

proof fn lemma_prefixes(items: Seq<ZipItem>, j: int)
    requires
        0 <= j <= items.len(),
    ensures
        locals(items.take(j)).len() <= locals(items).len(),
        locals(items).subrange(0, locals(items.take(j)).len() as int) == locals(items.take(j)),
        centrals(items.take(j)).len() <= centrals(items).len(),
        centrals(items).subrange(0, centrals(items.take(j)).len() as int) == centrals(items.take(j)),
    decreases items.len(),
{
    if j == items.len() {
        assert(items.take(j) =~= items);
        assert(locals(items).subrange(0, locals(items).len() as int) =~= locals(items));
        assert(centrals(items).subrange(0, centrals(items).len() as int) =~= centrals(items));
    } else {
        let d = items.drop_last();
        lemma_prefixes(d, j);
        assert(d.take(j) =~= items.take(j));
        let l = locals(items.take(j));
        let c = centrals(items.take(j));
        assert(locals(items).subrange(0, l.len() as int) =~= locals(d).subrange(0, l.len() as int));
        assert(centrals(items).subrange(0, c.len() as int) =~= centrals(d).subrange(0, c.len() as int));
    }
}

/// Item `k`'s local record lies at its offset, its central entry at the central
/// directory's start plus the entries before it.
proof fn lemma_records_in_place(items: Seq<ZipItem>, k: int)
    requires
        0 <= k < items.len(),
    ensures
        ({
            let z = zip_archive(items);
            let o = item_offset(items, k);
            let lr = local_record(items[k]);
            let c = (locals(items).len() + centrals(items.take(k)).len()) as int;
            let cr = central_record(items[k], o);
            &&& o + lr.len() <= locals(items).len()
            &&& z.subrange(o, o + lr.len()) == lr
            &&& c + cr.len() <= locals(items).len() + centrals(items).len()
            &&& z.subrange(c, c + cr.len()) == cr
        }),
{
    lemma_take_step(items, k);
    lemma_prefixes(items, k + 1);
    let z = zip_archive(items);
    let o = item_offset(items, k);
    let lr = local_record(items[k]);
    let l1 = locals(items.take(k + 1));
    assert(z.subrange(o, o + lr.len()) =~= l1.subrange(o, o + lr.len()));
    assert(l1.subrange(o, o + lr.len()) =~= lr);
    let c1 = centrals(items.take(k + 1));
    let c = (locals(items).len() + centrals(items.take(k)).len()) as int;
    let cr = central_record(items[k], o);
    let ls = locals(items).len() as int;
    assert(z.subrange(c, c + cr.len()) =~= c1.subrange(c - ls, c - ls + cr.len()));
    assert(c1.subrange(c - ls, c - ls + cr.len()) =~= cr);
}

/// An archive of `items` can be written without ZIP64: fewer than 65536 entries,
/// names shorter than 65536 bytes, and fewer than 2^32 - 1 bytes in all.
pub open spec fn writable(items: Seq<ZipItem>) -> bool {
    &&& zip_archive(items).len() < ZIP64_SENTINEL_U32
    &&& items.len() < 65536
    &&& forall|i: int| 0 <= i < items.len() ==> #[trigger] items[i].name.len() < 65536
}

/// Walking the central directory of the archive of `items` from entry `k` on
/// gives the catalog of all the items.
proof fn lemma_walk(items: Seq<ZipItem>, k: int)
    requires
        writable(items),
        0 <= k <= items.len(),
    ensures
        walk_entries(
            zip_archive(items),
            (locals(items).len() + centrals(items.take(k)).len()) as int,
            (items.len() - k) as nat,
            items_catalog(items.take(k)),
        ) == Ok::<Map<Seq<char>, (u16, u64, u64)>, Seq<char>>(items_catalog(items)),
    decreases items.len() - k,
{
    if k == items.len() {
        assert(items.take(k) =~= items);
    } else {
        lemma_records_in_place(items, k);
        lemma_take_step(items, k);
        lemma_walk(items, k + 1);
        let z = zip_archive(items);
        let o = item_offset(items, k);
        let it = items[k];
        let c = (locals(items).len() + centrals(items.take(k)).len()) as int;
        let cr = central_record(it, o);
        assert(it.name.len() < 65536);
        assert forall|i: int| 0 <= i < cr.len() implies #[trigger] z[c + i] == cr[i] by {
            assert(z.subrange(c, c + cr.len())[i] == z[c + i]);
        }
        assert forall|i: int| 0 <= i < 46 implies #[trigger] cr[i] == central_header_byte(it, o, i) by {}
        lemma_bytes_read_back(CENTRAL_DIR_SIGNATURE as int);
        lemma_bytes_read_back(it.method as int);
        lemma_bytes_read_back(it.data.len() as int);
        lemma_bytes_read_back(it.name.len() as int);
        lemma_bytes_read_back(o);
        assert(z[c] == cr[0] && z[c + 1] == cr[1] && z[c + 2] == cr[2] && z[c + 3] == cr[3]);
        assert(le32(z, c) == CENTRAL_DIR_SIGNATURE);
        assert(z[c + 10] == cr[10] && z[c + 11] == cr[11]);
        assert(le16(z, c + 10) == it.method);
        assert(z[c + 20] == cr[20] && z[c + 21] == cr[21] && z[c + 22] == cr[22] && z[c + 23] == cr[23]);
        assert(le32(z, c + 20) == it.data.len());
        assert(z[c + 28] == cr[28] && z[c + 29] == cr[29]);
        assert(le16(z, c + 28) == it.name.len());
        assert(z[c + 30] == cr[30] && z[c + 31] == cr[31] && z[c + 32] == cr[32] && z[c + 33] == cr[33]);
        assert(le16(z, c + 30) == 0 && le16(z, c + 32) == 0);
        assert(z[c + 42] == cr[42] && z[c + 43] == cr[43] && z[c + 44] == cr[44] && z[c + 45] == cr[45]);
        assert(le32(z, c + 42) == o);
        assert(z.subrange(c + 46, c + 46 + it.name.len()) =~= it.name) by {
            assert forall|i: int| 0 <= i < it.name.len() implies z.subrange(c + 46, c + 46 + it.name.len())[i] == it.name[i] by {
                assert(cr[46 + i] == it.name[i]);
            }
        }
        assert(items.take(k + 1).drop_last() =~= items.take(k));
        assert(items.take(k + 1).last() == it);
        reveal(entry_step);
    }
}

/// The archive of `items` is catalogued as `items_catalog(items)`, when nothing in
/// its EOCD record after the signature reads as another signature.
proof fn lemma_catalog_of_written(items: Seq<ZipItem>)
    requires
        writable(items),
        forall|q: int|
            zip_archive(items).len() - 22 < q <= zip_archive(items).len() - 4 ==> !#[trigger] eocd_at(
                zip_archive(items),
                q,
            ),
    ensures
        catalog(zip_archive(items)) == Ok::<Map<Seq<char>, (u16, u64, u64)>, Seq<char>>(items_catalog(items)),
{
    let z = zip_archive(items);
    let l = locals(items).len() as int;
    let c = centrals(items).len() as int;
    let e0 = l + c;
    let n = items.len() as int;
    assert(z.len() == e0 + 22);
    assert forall|i: int| 0 <= i < 22 implies #[trigger] z[e0 + i] == eocd_byte(n, c, l, i) by {}
    lemma_bytes_read_back(EOCD_SIGNATURE as int);
    lemma_bytes_read_back(n);
    lemma_bytes_read_back(c);
    lemma_bytes_read_back(l);
    assert(z[e0] == eocd_byte(n, c, l, 0) && z[e0 + 1] == eocd_byte(n, c, l, 1));
    assert(z[e0 + 2] == eocd_byte(n, c, l, 2) && z[e0 + 3] == eocd_byte(n, c, l, 3));
    assert(eocd_at(z, e0));
    assert(is_eocd(z, e0));
    assert(!no_eocd(z));
    let o = choose|o: int| is_eocd(z, o);
    lemma_eocd_unique(z, o, e0);
    assert(z[e0 + 10] == eocd_byte(n, c, l, 10) && z[e0 + 11] == eocd_byte(n, c, l, 11));
    assert(le16(z, e0 + 10) == n);
    assert(z[e0 + 12] == eocd_byte(n, c, l, 12) && z[e0 + 13] == eocd_byte(n, c, l, 13));
    assert(z[e0 + 14] == eocd_byte(n, c, l, 14) && z[e0 + 15] == eocd_byte(n, c, l, 15));
    assert(le32(z, e0 + 12) == c);
    assert(z[e0 + 16] == eocd_byte(n, c, l, 16) && z[e0 + 17] == eocd_byte(n, c, l, 17));
    assert(z[e0 + 18] == eocd_byte(n, c, l, 18) && z[e0 + 19] == eocd_byte(n, c, l, 19));
    assert(le32(z, e0 + 16) == l);
    lemma_walk(items, 0);
    assert(items.take(0) =~= Seq::<ZipItem>::empty());
}

proof fn lemma_items_catalog_entry(items: Seq<ZipItem>, k: int)
    requires
        0 <= k < items.len(),
        !directory_name(utf8_lossy(items[k].name)),
        forall|j: int| k < j < items.len() ==> utf8_lossy(#[trigger] items[j].name) != utf8_lossy(items[k].name),
    ensures
        items_catalog(items).contains_key(utf8_lossy(items[k].name)),
        items_catalog(items)[utf8_lossy(items[k].name)] == (
            items[k].method,
            items[k].data.len() as u64,
            item_offset(items, k) as u64,
        ),
    decreases items.len(),
{
    let d = items.drop_last();
    if k == items.len() - 1 {
        assert(d =~= items.take(k));
    } else {
        assert forall|j: int| k < j < d.len() implies utf8_lossy(#[trigger] d[j].name) != utf8_lossy(d[k].name) by {
            assert(d[j] == items[j]);
        }
        lemma_items_catalog_entry(d, k);
        assert(d.take(k) =~= items.take(k));
        assert(utf8_lossy(items.last().name) != utf8_lossy(items[k].name)) by {
            assert(items.last() == items[items.len() - 1]);
        }
    }
}

/// An entry written into an archive reads back: in the archive of `items` (written
/// without ZIP64, its EOCD record holding no second signature), the entry `k` (not
/// a directory, and no later entry of the same name) is catalogued under the name
/// its bytes decode to, and reading it (as `ZipArchive::by_name` does, see
/// `read_outcome`) gives its payload: the stored bytes, or what the deflated bytes
/// inflate to.
pub proof fn law_written_entry_reads_back(items: Seq<ZipItem>, k: int, p: Seq<u8>)
    requires
        writable(items),
        forall|q: int|
            zip_archive(items).len() - 22 < q <= zip_archive(items).len() - 4 ==> !#[trigger] eocd_at(
                zip_archive(items),
                q,
            ),
        0 <= k < items.len(),
        !directory_name(utf8_lossy(items[k].name)),
        forall|j: int| k < j < items.len() ==> utf8_lossy(#[trigger] items[j].name) != utf8_lossy(items[k].name),
        (items[k].method == METHOD_STORED && p == items[k].data) || (items[k].method == METHOD_DEFLATE
            && inflated(items[k].data) == Some(p)),
    ensures
        catalog(zip_archive(items)) is Ok,
        catalog(zip_archive(items))->Ok_0.contains_key(utf8_lossy(items[k].name)),
        forall|r: Result<Vec<u8>, ZipReadError>|
            #[trigger] read_outcome(
                zip_archive(items),
                catalog(zip_archive(items))->Ok_0[utf8_lossy(items[k].name)],
                r,
            ) ==> r is Ok && r->Ok_0@ == p,
{
    lemma_catalog_of_written(items);
    lemma_items_catalog_entry(items, k);
    lemma_records_in_place(items, k);
    let z = zip_archive(items);
    let it = items[k];
    let o = item_offset(items, k);
    let lr = local_record(it);
    let e = (it.method, it.data.len() as u64, o as u64);
    assert(it.name.len() < 65536);
    assert forall|i: int| 0 <= i < lr.len() implies #[trigger] z[o + i] == lr[i] by {
        assert(z.subrange(o, o + lr.len())[i] == z[o + i]);
    }
    assert forall|i: int| 0 <= i < 30 implies #[trigger] lr[i] == local_header_byte(it, i) by {}
    lemma_bytes_read_back(LOCAL_HEADER_SIGNATURE as int);
    lemma_bytes_read_back(it.name.len() as int);
    assert(z[o] == lr[0] && z[o + 1] == lr[1] && z[o + 2] == lr[2] && z[o + 3] == lr[3]);
    assert(le32(z, o) == LOCAL_HEADER_SIGNATURE);
    assert(z[o + 26] == lr[26] && z[o + 27] == lr[27] && z[o + 28] == lr[28] && z[o + 29] == lr[29]);
    assert(le16(z, o + 26) == it.name.len() && le16(z, o + 28) == 0);
    assert(local_header_error(z, e) is None);
    assert(payload(z, e) =~= it.data) by {
        assert forall|i: int| 0 <= i < it.data.len() implies payload(z, e)[i] == it.data[i] by {
            assert(lr[30 + it.name.len() + i] == it.data[i]);
        }
    }
}

} // verus!
