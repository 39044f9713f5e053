//! Read-only pronunciation dictionaries stored as flat binary tables.
//!
//! A *silver* table (`PSL1`) maps words to one pronunciation; a *gold* table
//! (`PGL1`) maps words either to one pronunciation or to a list of variants keyed
//! by part-of-speech tag. Keys are sorted by their UTF-8 bytes, so lookups are
//! binary searches.

use vstd::prelude::*;
use vstd::string::StringSliceAdditionalSpecFns;
use vstd::utf8::valid_utf8;
use crate::zip_reader::{le16, le32};
use crate::text::{
    from_utf8,
    all_uppercase, alphabetic_char, chars_all_uppercase, chars_of, is_alphabetic, string_from_chars,
};

verus! {


/// Three-way lexicographic comparison of byte strings: negative, zero or positive.
pub open spec fn lex_order(a: Seq<u8>, b: Seq<u8>) -> int
    decreases a.len(),
{
    if a.len() == 0 && b.len() == 0 {
        0
    } else if a.len() == 0 {
        -1
    } else if b.len() == 0 {
        1
    } else if a[0] < b[0] {
        -1
    } else if a[0] > b[0] {
        1
    } else {
        lex_order(a.drop_first(), b.drop_first())
    }
}

proof fn lemma_lex_order_eq(a: Seq<u8>, b: Seq<u8>)
    ensures
        (lex_order(a, b) == 0) == (a == b),
    decreases a.len(),
{
    if a.len() == 0 && b.len() == 0 {
        assert(a =~= b);
    }
    if a.len() > 0 && b.len() > 0 && a[0] == b[0] {
        lemma_lex_order_eq(a.drop_first(), b.drop_first());
        if a.drop_first() == b.drop_first() {
            assert(a =~= seq![a[0]] + a.drop_first());
            assert(b =~= seq![b[0]] + b.drop_first());
        }
    }
}

proof fn lemma_lex_order_antisym(a: Seq<u8>, b: Seq<u8>)
    ensures
        (lex_order(a, b) < 0) == (lex_order(b, a) > 0),
        -1 <= lex_order(a, b) <= 1,
    decreases a.len(),
{
    if a.len() > 0 && b.len() > 0 && a[0] == b[0] {
        lemma_lex_order_antisym(a.drop_first(), b.drop_first());
    }
}

proof fn lemma_lex_order_trans(a: Seq<u8>, b: Seq<u8>, c: Seq<u8>)
    requires
        lex_order(a, b) < 0,
        lex_order(b, c) < 0,
    ensures
        lex_order(a, c) < 0,
    decreases a.len(),
{
    if a.len() > 0 && b.len() > 0 && c.len() > 0 && a[0] == b[0] && b[0] == c[0] {
        lemma_lex_order_trans(a.drop_first(), b.drop_first(), c.drop_first());
    }
}

/// Compare two byte strings the way `str`'s ordering does: -1, 0 or 1.
fn compare_bytes(a: &[u8], b: &[u8]) -> (r: i8)
    ensures
        r as int == lex_order(a@, b@),
{
    let mut k: usize = 0;
    assert(a@.skip(0) =~= a@);
    assert(b@.skip(0) =~= b@);
    while k < a.len() && k < b.len()
        invariant
            k <= a@.len(),
            k <= b@.len(),
            lex_order(a@, b@) == lex_order(a@.skip(k as int), b@.skip(k as int)),
        decreases a@.len() - k,
    {
        if a[k] < b[k] {
            return -1;
        }
        if a[k] > b[k] {
            return 1;
        }
        assert(a@.skip(k as int).drop_first() =~= a@.skip(k + 1));
        assert(b@.skip(k as int).drop_first() =~= b@.skip(k + 1));
        k += 1;
    }
    if k == a.len() && k == b.len() {
        0
    } else if k == a.len() {
        -1
    } else {
        1
    }
}

/// `len` bytes of `d` at `off`.
pub open spec fn bytes_at(d: Seq<u8>, off: int, len: int) -> Seq<u8> {
    d.subrange(off, off + len)
}

/// `len` bytes at `off` lie within `d` and are valid UTF-8.
pub open spec fn utf8_at(d: Seq<u8>, off: int, len: int) -> bool {
    0 <= off && off + len <= d.len() && valid_utf8(bytes_at(d, off, len))
}

/// The string spelled by `len` bytes of `pool` at `off`.
fn pool_str(pool: &'static [u8], off: usize, len: usize) -> (s: &'static str)
    requires
        utf8_at(pool@, off as int, len as int),
    ensures
        s.spec_bytes() == bytes_at(pool@, off as int, len as int),
{
    let n = pool.len();
    assert(off + len <= n);
    let bytes = vstd::slice::slice_subrange(pool, off, off + len);
    match from_utf8(bytes) {
        Ok(s) => s,
        Err(_) => {
            assert(false);
            ""
        },
    }
}

/// Whether `len` bytes of `d` at `off` lie within `d` and are valid UTF-8.
fn utf8_ok(d: &[u8], off: usize, len: usize) -> (b: bool)
    ensures
        b == utf8_at(d@, off as int, len as int),
{
    let n = d.len();
    if len > n || off > n - len {
        return false;
    }
    let bytes = vstd::slice::slice_subrange(d, off, off + len);
    from_utf8(bytes).is_ok()
}

fn u32_at(d: &[u8], off: usize) -> (v: usize)
    requires
        off + 4 <= d@.len(),
    ensures
        v as int == le32(d@, off as int),
{
    (d[off] as u32 + (d[off + 1] as u32) * 256 + (d[off + 2] as u32) * 65536 + (d[off + 3] as u32)
        * 16777216) as usize
}

fn u16_at(d: &[u8], off: usize) -> (v: usize)
    requires
        off + 2 <= d@.len(),
    ensures
        v as int == le16(d@, off as int),
{
    (d[off] as u16 + (d[off + 1] as u16) * 256) as usize
}

// ---------------------------------------------------------------------------
// Silver tables: "PSL1", entry count, pool size, then 12-byte index entries
// (key offset u32, key length u16, value offset u32, value length u16) and the
// string pool.
// ---------------------------------------------------------------------------

/// Number of entries a silver table declares.
pub open spec fn silver_count(d: Seq<u8>) -> int {
    le32(d, 4)
}

/// Start of a silver table's string pool.
pub open spec fn silver_pool_start(d: Seq<u8>) -> int {
    12 + silver_count(d) * 12
}

/// Key bytes of silver entry `i`.
pub open spec fn silver_key(d: Seq<u8>, i: int) -> Seq<u8> {
    bytes_at(d.skip(silver_pool_start(d)), le32(d, 12 + i * 12), le16(d, 12 + i * 12 + 4))
}

/// Value bytes of silver entry `i`.
pub open spec fn silver_value(d: Seq<u8>, i: int) -> Seq<u8> {
    bytes_at(d.skip(silver_pool_start(d)), le32(d, 12 + i * 12 + 6), le16(d, 12 + i * 12 + 10))
}

/// The key and value of silver entry `i` lie in the pool and are valid UTF-8.
pub open spec fn silver_entry_readable(d: Seq<u8>, i: int) -> bool {
    &&& utf8_at(d.skip(silver_pool_start(d)), le32(d, 12 + i * 12), le16(d, 12 + i * 12 + 4))
    &&& utf8_at(d.skip(silver_pool_start(d)), le32(d, 12 + i * 12 + 6), le16(d, 12 + i * 12 + 10))
}

/// Every index entry and the strings it points to can be read: lookups in such a
/// table never run out of bounds or meet malformed UTF-8.
pub open spec fn silver_readable(d: Seq<u8>) -> bool {
    &&& d.len() >= 12
    &&& silver_pool_start(d) <= d.len()
    &&& forall|i: int| 0 <= i < silver_count(d) ==> #[trigger] silver_entry_readable(d, i)
}

/// Keys strictly increase in byte order.
pub open spec fn silver_sorted(d: Seq<u8>) -> bool {
    forall|i: int, j: int|
        0 <= i < j < silver_count(d) ==> lex_order(#[trigger] silver_key(d, i), #[trigger] silver_key(d, j)) < 0
}

/// Where a binary search of silver entries `[low, high)` finds `q`: the middle
/// entry when its key is `q`, else the search of the half `q` sorts into.
pub open spec fn silver_search(d: Seq<u8>, q: Seq<u8>, low: int, high: int) -> Option<int>
    decreases high - low,
{
    if low >= high {
        None
    } else {
        let mid = low + (high - low) / 2;
        let c = lex_order(q, silver_key(d, mid));
        if c == 0 {
            Some(mid)
        } else if c < 0 {
            silver_search(d, q, low, mid)
        } else {
            silver_search(d, q, mid + 1, high)
        }
    }
}

/// The bytes of an optional string.
pub open spec fn str_bytes(r: Option<&str>) -> Option<Seq<u8>> {
    match r {
        Some(v) => Some(v.spec_bytes()),
        None => None,
    }
}

/// The silver entry a lookup of `q` finds.
pub open spec fn silver_index(d: Seq<u8>, q: Seq<u8>) -> Option<int> {
    silver_search(d, q, 0, silver_count(d))
}

/// The pronunciation a silver lookup of `q` finds.
pub open spec fn silver_lookup(d: Seq<u8>, q: Seq<u8>) -> Option<Seq<u8>> {
    match silver_index(d, q) {
        Some(i) => Some(silver_value(d, i)),
        None => None,
    }
}

/// A silver table's header: magic `PSL1` and a length that matches the declared
/// entry count and pool size.
pub open spec fn silver_header_ok(d: Seq<u8>) -> bool {
    &&& d.len() >= 12
    &&& d.take(4) == "PSL1"@.map_values(|c: char| c as u8)
    &&& d.len() == 12 + le32(d, 4) * 12 + le32(d, 8)
}

/// A silver (single-pronunciation) dictionary over static table bytes.
#[derive(Clone, Copy)]
pub struct BinSilverMap {
    data: &'static [u8],
}

impl BinSilverMap {
    /// The table's bytes.
    pub closed spec fn bytes(&self) -> Seq<u8> {
        self.data@
    }

    /// Wrap table bytes.
    pub fn new(data: &'static [u8]) -> (m: Self)
        ensures
            m.bytes() == data@,
    {
        BinSilverMap { data }
    }

    /// Check the header: magic `PSL1` and a length that matches the declared entry
    /// count and pool size.
    pub fn validate(&self) -> (r: Result<(), &'static str>)
        ensures
            r is Ok <==> silver_header_ok(self.bytes()),
            r is Err ==> r->Err_0@ == (if self.bytes().len() < 12 {
                "Binary too small for PSL1 header"@
            } else if self.bytes().take(4) != "PSL1"@.map_values(|c: char| c as u8) {
                "Invalid PSL1 magic header"@
            } else {
                "PSL1 size mismatch"@
            }),
    {
        let d = self.data;
        if d.len() < 12 {
            return Err("Binary too small for PSL1 header");
        }
        proof {
            reveal_strlit("PSL1");
        }
        let ghost magic = "PSL1"@.map_values(|c: char| c as u8);
        assert(magic =~= seq![0x50u8, 0x53u8, 0x4cu8, 0x31u8]);
        if !(d[0] == 0x50 && d[1] == 0x53 && d[2] == 0x4c && d[3] == 0x31) {
            assert(d@.take(4) != magic) by {
                if d@.take(4) == magic {
                    assert(d@.take(4)[0] == d@[0]);
                    assert(d@.take(4)[3] == d@[3]);
                }
            }
            return Err("Invalid PSL1 magic header");
        }
        assert(d@.take(4) =~= magic);
        let num_entries = u32_at(d, 4) as u64;
        let pool_size = u32_at(d, 8) as u64;
        if d.len() as u64 != 12 + num_entries * 12 + pool_size {
            return Err("PSL1 size mismatch");
        }
        Ok(())
    }

    /// Whether every index entry and the strings it points to can be read.
    pub fn is_readable(&self) -> (b: bool)
        ensures
            b == silver_readable(self.bytes()),
    {
        let d = self.data;
        let ghost ds = d@;
        let dlen = d.len();
        if dlen < 12 {
            return false;
        }
        let n = u32_at(d, 4);
        if (dlen as u64) < 12 + (n as u64) * 12 {
            return false;
        }
        let pool_start = 12 + n * 12;
        let pool = vstd::slice::slice_subrange(d, pool_start, dlen);
        assert(pool@ =~= ds.skip(silver_pool_start(ds)));
        let mut i: usize = 0;
        while i < n
            invariant
                ds == d@,
                ds == self.bytes(),
                dlen == ds.len(),
                dlen >= 12,
                n == silver_count(ds),
                12 + n * 12 <= dlen,
                pool@ == ds.skip(silver_pool_start(ds)),
                i <= n,
                forall|j: int| 0 <= j < i ==> #[trigger] silver_entry_readable(ds, j),
            decreases n - i,
        {
            let off = 12 + i * 12;
            let key_ok = utf8_ok(pool, u32_at(d, off), u16_at(d, off + 4));
            let value_ok = utf8_ok(pool, u32_at(d, off + 6), u16_at(d, off + 10));
            if !key_ok || !value_ok {
                assert(!silver_entry_readable(ds, i as int));
                return false;
            }
            i += 1;
        }
        true
    }

    /// The pronunciation of `query`, found by binary search over the sorted keys.
    pub fn get(&self, query: &str) -> (r: Option<&'static str>)
        requires
            silver_readable(self.bytes()),
        ensures
            str_bytes(r) == silver_lookup(self.bytes(), query.spec_bytes()),
            r is Some ==> exists|i: int|
                0 <= i < silver_count(self.bytes()) && silver_key(self.bytes(), i) == query.spec_bytes()
                    && r->Some_0.spec_bytes() == #[trigger] silver_value(self.bytes(), i),
            silver_sorted(self.bytes()) ==> (r is None <==> forall|i: int|
                0 <= i < silver_count(self.bytes()) ==> #[trigger] silver_key(self.bytes(), i)
                    != query.spec_bytes()),
    {
        let d = self.data;
        let ghost ds = d@;
        let num_entries = u32_at(d, 4);
        let dlen = d.len();
        assert(12 + num_entries * 12 <= dlen);
        let pool_start = 12 + num_entries * 12;
        let pool = vstd::slice::slice_subrange(d, pool_start, d.len());
        assert(pool@ =~= ds.skip(silver_pool_start(ds)));
        let q = query.as_bytes();
        let mut low: usize = 0;
        let mut high = num_entries;
        while low < high
            invariant
                ds == d@,
                ds == self.bytes(),
                silver_readable(ds),
                num_entries == silver_count(ds),
                pool_start == silver_pool_start(ds),
                pool@ == ds.skip(silver_pool_start(ds)),
                q@ == query.spec_bytes(),
                low <= high <= num_entries,
                silver_sorted(ds) ==> forall|t: int|
                    0 <= t < num_entries && #[trigger] silver_key(ds, t) == q@ ==> low <= t < high,
                silver_search(ds, q@, low as int, high as int) == silver_index(ds, q@),
            decreases high - low,
        {
            let mid = low + (high - low) / 2;
            let off = 12 + mid * 12;
            assert(silver_entry_readable(ds, mid as int));
            let key_offset = u32_at(d, off);
            let key_len = u16_at(d, off + 4);
            let plen = pool.len();
            assert(key_offset + key_len <= plen);
            let key = vstd::slice::slice_subrange(pool, key_offset, key_offset + key_len);
            assert(key@ == silver_key(ds, mid as int));
            let c = compare_bytes(q, key);
            if c == 0 {
                proof {
                    lemma_lex_order_eq(q@, key@);
                }
                let val_offset = u32_at(d, off + 6);
                let val_len = u16_at(d, off + 10);
                let v = pool_str(pool, val_offset, val_len);
                assert(v.spec_bytes() == silver_value(ds, mid as int));
                let r = Some(v);
                assert(str_bytes(r) == silver_lookup(ds, q@));
                return r;
            } else if c < 0 {
                proof {
                    assert forall|t: int|
                        0 <= t < num_entries && #[trigger] silver_key(ds, t) == q@ && silver_sorted(ds)
                            implies t < mid by {
                        if t >= mid {
                            if t > mid {
                                assert(lex_order(silver_key(ds, mid as int), silver_key(ds, t)) < 0);
                                lemma_lex_order_antisym(q@, key@);
                            } else {
                                lemma_lex_order_eq(q@, key@);
                            }
                        }
                    }
                }
                high = mid;
            } else {
                proof {
                    assert forall|t: int|
                        0 <= t < num_entries && #[trigger] silver_key(ds, t) == q@ && silver_sorted(ds)
                            implies t > mid by {
                        if t <= mid {
                            if t < mid {
                                assert(lex_order(silver_key(ds, t), silver_key(ds, mid as int)) < 0);
                                lemma_lex_order_antisym(q@, key@);
                            } else {
                                lemma_lex_order_eq(q@, key@);
                            }
                        }
                    }
                }
                low = mid + 1;
            }
        }
        None
    }

    /// Whether `key` has a pronunciation.
    pub fn contains_key(&self, key: &str) -> (b: bool)
        requires
            silver_readable(self.bytes()),
        ensures
            b == (silver_index(self.bytes(), key.spec_bytes()) is Some),
            b ==> exists|i: int|
                0 <= i < silver_count(self.bytes()) && #[trigger] silver_key(self.bytes(), i)
                    == key.spec_bytes(),
            silver_sorted(self.bytes()) ==> (b <==> exists|i: int|
                0 <= i < silver_count(self.bytes()) && #[trigger] silver_key(self.bytes(), i)
                    == key.spec_bytes()),
    {
        self.get(key).is_some()
    }
}

// ---------------------------------------------------------------------------
// Gold tables: "PGL1", entry count, string pool size, value pool size, then
// 14-byte index entries (key offset u32, key length u16, value kind u8, one
// unused byte, value offset u32, value length u16), the string pool and the
// value pool. A kind of 0 is a single pronunciation in the string pool; any
// other kind is a list of `length` 13-byte variant records at `offset` in the
// value pool (tag offset u32, tag length u16, has-value u8, value offset u32,
// value length u16), whose strings are in the string pool.
// ---------------------------------------------------------------------------

/// Tag bytes of variant `j` of a variant list at `offset` in value pool `vp`.
pub open spec fn variant_tag(vp: Seq<u8>, sp: Seq<u8>, offset: int, j: int) -> Seq<u8> {
    bytes_at(sp, le32(vp, offset + j * 13), le16(vp, offset + j * 13 + 4))
}

/// Value bytes of variant `j`, or `None` when the variant records no pronunciation.
pub open spec fn variant_value(vp: Seq<u8>, sp: Seq<u8>, offset: int, j: int) -> Option<Seq<u8>> {
    if vp[offset + j * 13 + 6] == 0 {
        None
    } else {
        Some(bytes_at(sp, le32(vp, offset + j * 13 + 7), le16(vp, offset + j * 13 + 11)))
    }
}

/// Variant record `j` and its strings can be read.
pub open spec fn variant_readable(vp: Seq<u8>, sp: Seq<u8>, offset: int, j: int) -> bool {
    &&& 0 <= offset + j * 13
    &&& offset + j * 13 + 13 <= vp.len()
    &&& utf8_at(sp, le32(vp, offset + j * 13), le16(vp, offset + j * 13 + 4))
    &&& vp[offset + j * 13 + 6] != 0 ==> utf8_at(
        sp,
        le32(vp, offset + j * 13 + 7),
        le16(vp, offset + j * 13 + 11),
    )
}

/// Index of the first of `tags` at or after `j` that equals `q`.
pub open spec fn first_tag(tags: Seq<Seq<u8>>, q: Seq<u8>, j: int) -> Option<int>
    decreases tags.len() - j,
{
    if j < 0 || j >= tags.len() {
        None
    } else if tags[j] == q {
        Some(j)
    } else {
        first_tag(tags, q, j + 1)
    }
}

/// What the first variant tagged `q` records: `None` when no variant has that tag.
pub open spec fn tag_value(tags: Seq<Seq<u8>>, values: Seq<Option<Seq<u8>>>, q: Seq<u8>) -> Option<Option<Seq<u8>>> {
    match first_tag(tags, q, 0) {
        Some(j) => Some(values[j]),
        None => None,
    }
}

/// The bytes of an optional optional string.
pub open spec fn nested_str_bytes(r: Option<Option<&str>>) -> Option<Option<Seq<u8>>> {
    match r {
        Some(Some(v)) => Some(Some(v.spec_bytes())),
        Some(None) => Some(None),
        None => None,
    }
}

/// The variants of one gold entry: part-of-speech tags and their pronunciations.
#[derive(Clone, Copy, Debug, PartialEq)]
pub struct BinVariants {
    data: &'static [u8],
    offset: usize,
    len: usize,
    string_pool: &'static [u8],
}

impl BinVariants {
    /// Every variant record and its strings can be read.
    pub closed spec fn readable(&self) -> bool {
        forall|j: int| 0 <= j < self.len ==> #[trigger] variant_readable(self.data@, self.string_pool@, self.offset as int, j)
    }

    /// The tags, in record order.
    pub closed spec fn tags(&self) -> Seq<Seq<u8>> {
        Seq::new(self.len as nat, |j: int| variant_tag(self.data@, self.string_pool@, self.offset as int, j))
    }

    /// The pronunciations, in record order (`None`: the tag has no pronunciation).
    pub closed spec fn values(&self) -> Seq<Option<Seq<u8>>> {
        Seq::new(self.len as nat, |j: int| variant_value(self.data@, self.string_pool@, self.offset as int, j))
    }

    /// The pronunciation recorded for the first variant tagged `query_tag`: `None`
    /// when no variant has that tag, `Some(None)` when it records no pronunciation.
    pub fn get(&self, query_tag: &str) -> (r: Option<Option<&'static str>>)
        requires
            self.readable(),
        ensures
            nested_str_bytes(r) == tag_value(self.tags(), self.values(), query_tag.spec_bytes()),
            r is None <==> forall|j: int| 0 <= j < self.tags().len() ==> self.tags()[j] != query_tag.spec_bytes(),
            r is Some ==> exists|j: int|
                0 <= j < self.tags().len() && self.tags()[j] == query_tag.spec_bytes()
                    && (forall|k: int| 0 <= k < j ==> self.tags()[k] != query_tag.spec_bytes())
                    && (r->Some_0 is None <==> self.values()[j] is None)
                    && (r->Some_0 is Some ==> self.values()[j] == Some(r->Some_0->Some_0.spec_bytes())),
    {
        let q = query_tag.as_bytes();
        let vp = self.data;
        let sp = self.string_pool;
        let mut i: usize = 0;
        while i < self.len
            invariant
                i <= self.len,
                self.readable(),
                vp@ == self.data@,
                sp@ == self.string_pool@,
                q@ == query_tag.spec_bytes(),
                forall|k: int| 0 <= k < i ==> self.tags()[k] != q@,
                first_tag(self.tags(), q@, i as int) == first_tag(self.tags(), q@, 0),
            decreases self.len - i,
        {
            assert(variant_readable(vp@, sp@, self.offset as int, i as int));
            let vlen = vp.len();
            let item = self.offset + i * 13;
            assert(item + 13 <= vlen);
            let tag_offset = u32_at(vp, item);
            let tag_len = u16_at(vp, item + 4);
            let splen = sp.len();
            assert(tag_offset + tag_len <= splen);
            let tag = vstd::slice::slice_subrange(sp, tag_offset, tag_offset + tag_len);
            assert(tag@ == self.tags()[i as int]);
            let c = compare_bytes(tag, q);
            proof {
                lemma_lex_order_eq(tag@, q@);
            }
            if c == 0 {
                if vp[item + 6] == 0 {
                    assert(self.values()[i as int] is None);
                    return Some(None);
                }
                let val_offset = u32_at(vp, item + 7);
                let val_len = u16_at(vp, item + 11);
                let v = pool_str(sp, val_offset, val_len);
                assert(self.values()[i as int] == Some(v.spec_bytes()));
                return Some(Some(v));
            }
            i += 1;
        }
        None
    }

    /// Whether some variant is tagged `tag`.
    pub fn contains_key(&self, tag: &str) -> (b: bool)
        requires
            self.readable(),
        ensures
            b == (tag_value(self.tags(), self.values(), tag.spec_bytes()) is Some),
            b <==> exists|j: int| 0 <= j < self.tags().len() && self.tags()[j] == tag.spec_bytes(),
    {
        self.get(tag).is_some()
    }
}

/// What a gold entry holds.
#[derive(Clone, Debug, PartialEq)]
pub enum BinLexiconValue {
    /// One pronunciation for every use of the word.
    Single(&'static str),
    /// Pronunciations by part-of-speech tag.
    Variants(BinVariants),
}

/// Number of entries a gold table declares.
pub open spec fn gold_count(d: Seq<u8>) -> int {
    le32(d, 4)
}

/// Start of a gold table's string pool.
pub open spec fn gold_pool_start(d: Seq<u8>) -> int {
    16 + gold_count(d) * 14
}

/// A gold table's string pool.
pub open spec fn gold_pool(d: Seq<u8>) -> Seq<u8> {
    bytes_at(d, gold_pool_start(d), le32(d, 8))
}

/// A gold table's value pool.
pub open spec fn gold_value_pool(d: Seq<u8>) -> Seq<u8> {
    bytes_at(d, gold_pool_start(d) + le32(d, 8), le32(d, 12))
}

/// Offset of gold index entry `i`.
pub open spec fn gold_entry(i: int) -> int {
    16 + i * 14
}

/// Key bytes of gold entry `i`.
pub open spec fn gold_key(d: Seq<u8>, i: int) -> Seq<u8> {
    bytes_at(gold_pool(d), le32(d, gold_entry(i)), le16(d, gold_entry(i) + 4))
}

/// Gold entry `i` holds a single pronunciation.
pub open spec fn gold_single(d: Seq<u8>, i: int) -> bool {
    d[gold_entry(i) + 6] == 0
}

/// Bytes of gold entry `i`'s single pronunciation.
pub open spec fn gold_single_value(d: Seq<u8>, i: int) -> Seq<u8> {
    bytes_at(gold_pool(d), le32(d, gold_entry(i) + 8), le16(d, gold_entry(i) + 12))
}

/// Offset of gold entry `i`'s variant list in the value pool.
pub open spec fn gold_variants_offset(d: Seq<u8>, i: int) -> int {
    le32(d, gold_entry(i) + 8)
}

/// Number of variants of gold entry `i`.
pub open spec fn gold_variants_len(d: Seq<u8>, i: int) -> int {
    le16(d, gold_entry(i) + 12)
}

/// Gold entry `i`, its key and whatever it holds can be read.
pub open spec fn gold_entry_readable(d: Seq<u8>, i: int) -> bool {
    &&& utf8_at(gold_pool(d), le32(d, gold_entry(i)), le16(d, gold_entry(i) + 4))
    &&& gold_single(d, i) ==> utf8_at(gold_pool(d), le32(d, gold_entry(i) + 8), le16(d, gold_entry(i) + 12))
    &&& !gold_single(d, i) ==> forall|j: int|
        0 <= j < gold_variants_len(d, i) ==> #[trigger] variant_readable(
            gold_value_pool(d),
            gold_pool(d),
            gold_variants_offset(d, i),
            j,
        )
}

/// The header, both pools and every entry can be read.
pub open spec fn gold_readable(d: Seq<u8>) -> bool {
    &&& d.len() >= 16
    &&& gold_pool_start(d) + le32(d, 8) + le32(d, 12) <= d.len()
    &&& forall|i: int| 0 <= i < gold_count(d) ==> #[trigger] gold_entry_readable(d, i)
}

/// Keys strictly increase in byte order.
pub open spec fn gold_sorted(d: Seq<u8>) -> bool {
    forall|i: int, j: int|
        0 <= i < j < gold_count(d) ==> lex_order(#[trigger] gold_key(d, i), #[trigger] gold_key(d, j)) < 0
}

/// Where a binary search of gold entries `[low, high)` finds `q`.
pub open spec fn gold_search(d: Seq<u8>, q: Seq<u8>, low: int, high: int) -> Option<int>
    decreases high - low,
{
    if low >= high {
        None
    } else {
        let mid = low + (high - low) / 2;
        let c = lex_order(q, gold_key(d, mid));
        if c == 0 {
            Some(mid)
        } else if c < 0 {
            gold_search(d, q, low, mid)
        } else {
            gold_search(d, q, mid + 1, high)
        }
    }
}

/// The gold entry a lookup of `q` finds.
pub open spec fn gold_index(d: Seq<u8>, q: Seq<u8>) -> Option<int> {
    gold_search(d, q, 0, gold_count(d))
}

/// `v` is what gold entry `i` holds.
pub open spec fn gold_value_is(d: Seq<u8>, i: int, v: BinLexiconValue) -> bool {
    match v {
        BinLexiconValue::Single(s) => gold_single(d, i) && s.spec_bytes() == gold_single_value(d, i),
        BinLexiconValue::Variants(vs) => {
            &&& !gold_single(d, i)
            &&& vs.readable()
            &&& vs.tags() == Seq::new(
                gold_variants_len(d, i) as nat,
                |j: int| variant_tag(gold_value_pool(d), gold_pool(d), gold_variants_offset(d, i), j),
            )
            &&& vs.values() == Seq::new(
                gold_variants_len(d, i) as nat,
                |j: int| variant_value(gold_value_pool(d), gold_pool(d), gold_variants_offset(d, i), j),
            )
        },
    }
}

/// A gold table's header: magic `PGL1` and a length that matches the declared
/// entry count and pool sizes.
pub open spec fn gold_header_ok(d: Seq<u8>) -> bool {
    &&& d.len() >= 16
    &&& d.take(4) == "PGL1"@.map_values(|c: char| c as u8)
    &&& d.len() == 16 + le32(d, 4) * 14 + le32(d, 8) + le32(d, 12)
}

/// A gold (tag-aware) dictionary over static table bytes.
#[derive(Clone, Copy)]
pub struct BinGoldMap {
    data: &'static [u8],
}

impl BinGoldMap {
    /// The table's bytes.
    pub closed spec fn bytes(&self) -> Seq<u8> {
        self.data@
    }

    /// Wrap table bytes.
    pub fn new(data: &'static [u8]) -> (m: Self)
        ensures
            m.bytes() == data@,
    {
        BinGoldMap { data }
    }

    /// Check the header: magic `PGL1` and a length that matches the declared entry
    /// count and pool sizes.
    pub fn validate(&self) -> (r: Result<(), &'static str>)
        ensures
            r is Ok <==> gold_header_ok(self.bytes()),
            r is Err ==> r->Err_0@ == (if self.bytes().len() < 16 {
                "Binary too small for PGL1 header"@
            } else if self.bytes().take(4) != "PGL1"@.map_values(|c: char| c as u8) {
                "Invalid PGL1 magic header"@
            } else {
                "PGL1 size mismatch"@
            }),
    {
        let d = self.data;
        if d.len() < 16 {
            return Err("Binary too small for PGL1 header");
        }
        proof {
            reveal_strlit("PGL1");
        }
        let ghost magic = "PGL1"@.map_values(|c: char| c as u8);
        assert(magic =~= seq![0x50u8, 0x47u8, 0x4cu8, 0x31u8]);
        if !(d[0] == 0x50 && d[1] == 0x47 && d[2] == 0x4c && d[3] == 0x31) {
            assert(d@.take(4) != magic) by {
                if d@.take(4) == magic {
                    assert(d@.take(4)[0] == d@[0]);
                    assert(d@.take(4)[1] == d@[1]);
                    assert(d@.take(4)[3] == d@[3]);
                }
            }
            return Err("Invalid PGL1 magic header");
        }
        assert(d@.take(4) =~= magic);
        let num_entries = u32_at(d, 4) as u64;
        let pool_size = u32_at(d, 8) as u64;
        let val_pool_size = u32_at(d, 12) as u64;
        if d.len() as u64 != 16 + num_entries * 14 + pool_size + val_pool_size {
            return Err("PGL1 size mismatch");
        }
        Ok(())
    }

    /// Whether the header, both pools and every entry can be read.
    pub fn is_readable(&self) -> (b: bool)
        ensures
            b == gold_readable(self.bytes()),
    {
        let d = self.data;
        let ghost ds = d@;
        let dlen = d.len();
        if dlen < 16 {
            return false;
        }
        let n = u32_at(d, 4);
        let pool_size = u32_at(d, 8);
        let val_pool_size = u32_at(d, 12);
        if (dlen as u64) < 16 + (n as u64) * 14 + pool_size as u64 + val_pool_size as u64 {
            return false;
        }
        let pool_start = 16 + n * 14;
        let values_start = pool_start + pool_size;
        let string_pool = vstd::slice::slice_subrange(d, pool_start, values_start);
        let values_pool = vstd::slice::slice_subrange(d, values_start, values_start + val_pool_size);
        assert(string_pool@ =~= gold_pool(ds));
        assert(values_pool@ =~= gold_value_pool(ds));
        let mut i: usize = 0;
        while i < n
            invariant
                ds == d@,
                ds == self.bytes(),
                dlen == ds.len(),
                dlen >= 16,
                n == gold_count(ds),
                16 + n * 14 <= dlen,
                string_pool@ == gold_pool(ds),
                values_pool@ == gold_value_pool(ds),
                i <= n,
                forall|j: int| 0 <= j < i ==> #[trigger] gold_entry_readable(ds, j),
            decreases n - i,
        {
            let off = 16 + i * 14;
            if !utf8_ok(string_pool, u32_at(d, off), u16_at(d, off + 4)) {
                assert(!gold_entry_readable(ds, i as int));
                return false;
            }
            let val_offset = u32_at(d, off + 8);
            let val_len = u16_at(d, off + 12);
            if d[off + 6] == 0 {
                if !utf8_ok(string_pool, val_offset, val_len) {
                    assert(!gold_entry_readable(ds, i as int));
                    return false;
                }
            } else {
                let mut j: usize = 0;
                while j < val_len
                    invariant
                        ds == d@,
                        ds == self.bytes(),
                        i < n,
                        n == gold_count(ds),
                        16 + n * 14 <= dlen,
                        dlen == ds.len(),
                        off == 16 + i * 14,
                        ds[off + 6] != 0,
                        val_offset == gold_variants_offset(ds, i as int),
                        val_len == gold_variants_len(ds, i as int),
                        string_pool@ == gold_pool(ds),
                        values_pool@ == gold_value_pool(ds),
                        j <= val_len,
                        forall|k: int| 0 <= k < j ==> #[trigger] variant_readable(
                            gold_value_pool(ds), gold_pool(ds), val_offset as int, k),
                    decreases val_len - j,
                {
                    let vlen = values_pool.len();
                    if val_offset > vlen || j > (vlen - val_offset) / 13 || vlen - val_offset - j * 13 < 13 {
                        assert(!variant_readable(gold_value_pool(ds), gold_pool(ds), val_offset as int, j as int));
                        assert(!gold_entry_readable(ds, i as int));
                        return false;
                    }
                    let item = val_offset + j * 13;
                    let tag_ok = utf8_ok(string_pool, u32_at(values_pool, item), u16_at(values_pool, item + 4));
                    let value_ok = values_pool[item + 6] == 0 || utf8_ok(
                        string_pool,
                        u32_at(values_pool, item + 7),
                        u16_at(values_pool, item + 11),
                    );
                    if !tag_ok || !value_ok {
                        assert(!variant_readable(gold_value_pool(ds), gold_pool(ds), val_offset as int, j as int));
                        assert(!gold_entry_readable(ds, i as int));
                        return false;
                    }
                    j += 1;
                }
            }
            assert(gold_entry_readable(ds, i as int));
            i += 1;
        }
        true
    }

    /// What gold entry `i` holds.
    fn read_value(&self, string_pool: &'static [u8], values_pool: &'static [u8], i: usize) -> (r:
        BinLexiconValue)
        requires
            gold_readable(self.bytes()),
            0 <= i < gold_count(self.bytes()),
            string_pool@ == gold_pool(self.bytes()),
            values_pool@ == gold_value_pool(self.bytes()),
        ensures
            gold_value_is(self.bytes(), i as int, r),
    {
        let d = self.data;
        let ghost ds = d@;
        assert(gold_entry_readable(ds, i as int));
        let dlen = d.len();
        let num_entries = u32_at(d, 4);
        assert(16 + num_entries * 14 <= dlen);
        let off = 16 + i * 14;
        let val_type = d[off + 6];
        let val_data_offset = u32_at(d, off + 8);
        let val_data_len = u16_at(d, off + 12);
        if val_type == 0 {
            let v = pool_str(string_pool, val_data_offset, val_data_len);
            return BinLexiconValue::Single(v);
        }
        let vs = BinVariants { data: values_pool, offset: val_data_offset, len: val_data_len, string_pool };
        assert(vs.tags() =~= Seq::new(
            gold_variants_len(ds, i as int) as nat,
            |j: int| variant_tag(gold_value_pool(ds), gold_pool(ds), gold_variants_offset(ds, i as int), j),
        ));
        assert(vs.values() =~= Seq::new(
            gold_variants_len(ds, i as int) as nat,
            |j: int| variant_value(gold_value_pool(ds), gold_pool(ds), gold_variants_offset(ds, i as int), j),
        ));
        BinLexiconValue::Variants(vs)
    }

    /// What the table holds for `query`, found by binary search over the sorted keys.
    pub fn get(&self, query: &str) -> (r: Option<BinLexiconValue>)
        requires
            gold_readable(self.bytes()),
        ensures
            r is Some <==> gold_index(self.bytes(), query.spec_bytes()) is Some,
            r is Some ==> gold_value_is(self.bytes(), gold_index(self.bytes(), query.spec_bytes())->Some_0, r->Some_0),
            r is Some ==> exists|i: int|
                0 <= i < gold_count(self.bytes()) && gold_key(self.bytes(), i) == query.spec_bytes()
                    && #[trigger] gold_value_is(self.bytes(), i, r->Some_0),
            gold_sorted(self.bytes()) ==> (r is None <==> forall|i: int|
                0 <= i < gold_count(self.bytes()) ==> #[trigger] gold_key(self.bytes(), i)
                    != query.spec_bytes()),
    {
        let d = self.data;
        let ghost ds = d@;
        let num_entries = u32_at(d, 4);
        let pool_size = u32_at(d, 8);
        let val_pool_size = u32_at(d, 12);
        let dlen = d.len();
        assert(16 + num_entries * 14 + pool_size + val_pool_size <= dlen);
        let pool_start = 16 + num_entries * 14;
        let values_start = pool_start + pool_size;
        let string_pool = vstd::slice::slice_subrange(d, pool_start, values_start);
        let values_pool = vstd::slice::slice_subrange(d, values_start, values_start + val_pool_size);
        assert(string_pool@ =~= gold_pool(ds));
        assert(values_pool@ =~= gold_value_pool(ds));
        let q = query.as_bytes();
        let mut low: usize = 0;
        let mut high = num_entries;
        while low < high
            invariant
                ds == d@,
                ds == self.bytes(),
                gold_readable(ds),
                num_entries == gold_count(ds),
                dlen == ds.len(),
                16 + num_entries * 14 <= dlen,
                string_pool@ == gold_pool(ds),
                values_pool@ == gold_value_pool(ds),
                q@ == query.spec_bytes(),
                low <= high <= num_entries,
                gold_sorted(ds) ==> forall|t: int|
                    0 <= t < num_entries && #[trigger] gold_key(ds, t) == q@ ==> low <= t < high,
                gold_search(ds, q@, low as int, high as int) == gold_index(ds, q@),
            decreases high - low,
        {
            let mid = low + (high - low) / 2;
            assert(gold_entry_readable(ds, mid as int));
            let off = 16 + mid * 14;
            let key_offset = u32_at(d, off);
            let key_len = u16_at(d, off + 4);
            let plen = string_pool.len();
            assert(key_offset + key_len <= plen);
            let key = vstd::slice::slice_subrange(string_pool, key_offset, key_offset + key_len);
            assert(key@ == gold_key(ds, mid as int));
            let c = compare_bytes(q, key);
            if c == 0 {
                proof {
                    lemma_lex_order_eq(q@, key@);
                }
                let r = self.read_value(string_pool, values_pool, mid);
                let res = Some(r);
                assert(gold_key(ds, mid as int) == query.spec_bytes());
                assert(gold_value_is(self.bytes(), mid as int, res->Some_0));
                return res;
            } else if c < 0 {
                proof {
                    assert forall|t: int|
                        0 <= t < num_entries && #[trigger] gold_key(ds, t) == q@ && gold_sorted(ds)
                            implies t < mid by {
                        if t >= mid {
                            if t > mid {
                                assert(lex_order(gold_key(ds, mid as int), gold_key(ds, t)) < 0);
                                lemma_lex_order_antisym(q@, key@);
                            } else {
                                lemma_lex_order_eq(q@, key@);
                            }
                        }
                    }
                }
                high = mid;
            } else {
                proof {
                    assert forall|t: int|
                        0 <= t < num_entries && #[trigger] gold_key(ds, t) == q@ && gold_sorted(ds)
                            implies t > mid by {
                        if t <= mid {
                            if t < mid {
                                assert(lex_order(gold_key(ds, t), gold_key(ds, mid as int)) < 0);
                                lemma_lex_order_antisym(q@, key@);
                            } else {
                                lemma_lex_order_eq(q@, key@);
                            }
                        }
                    }
                }
                low = mid + 1;
            }
        }
        None
    }

    /// Whether `key` is in the table.
    pub fn contains_key(&self, key: &str) -> (b: bool)
        requires
            gold_readable(self.bytes()),
        ensures
            b == (gold_index(self.bytes(), key.spec_bytes()) is Some),
            b ==> exists|i: int|
                0 <= i < gold_count(self.bytes()) && #[trigger] gold_key(self.bytes(), i)
                    == key.spec_bytes(),
            gold_sorted(self.bytes()) ==> (b <==> exists|i: int|
                0 <= i < gold_count(self.bytes()) && #[trigger] gold_key(self.bytes(), i)
                    == key.spec_bytes()),
    {
        self.get(key).is_some()
    }
}

/// What the following tokens tell a lookup: whether the next word starts with a
/// vowel sound (unknown when `None`), and whether the next word is "to".
#[derive(Clone, Copy, Debug, PartialEq, Eq)]
pub struct TokenContext {
    pub future_vowel: Option<bool>,
    pub future_to: bool,
}

impl Default for TokenContext {
    /// No following vowel information, and no following "to".
    fn default() -> (c: Self)
        ensures
            c.future_vowel is None,
            !c.future_to,
    {
        TokenContext { future_vowel: None, future_to: false }
    }
}

/// The maximal runs of alphabetic chars in `s`, in order, for a scan that has
/// collected `cur` of the run in progress.
pub open spec fn alpha_words_from(s: Seq<char>, cur: Seq<char>) -> Seq<Seq<char>>
    decreases s.len(),
{
    if s.len() == 0 {
        if cur.len() > 0 {
            seq![cur]
        } else {
            Seq::empty()
        }
    } else if alphabetic_char(s[0]) {
        alpha_words_from(s.drop_first(), cur.push(s[0]))
    } else if cur.len() > 0 {
        seq![cur] + alpha_words_from(s.drop_first(), Seq::empty())
    } else {
        alpha_words_from(s.drop_first(), Seq::empty())
    }
}

/// The maximal runs of alphabetic chars in `s`, in order (case is kept).
pub open spec fn alpha_words(s: Seq<char>) -> Seq<Seq<char>> {
    alpha_words_from(s, Seq::empty())
}

/// The words of `text`: its maximal runs of alphabetic chars, in order; every other
/// char separates words and is dropped.
pub fn split_lowercase_words(text: &str) -> (words: Vec<String>)
    ensures
        words.deep_view() == alpha_words(text@),
{
    let cs = chars_of(text);
    let mut words: Vec<String> = Vec::new();
    let mut current: Vec<char> = Vec::new();
    let mut k: usize = 0;
    assert(cs@.skip(0) =~= cs@);
    while k < cs.len()
        invariant
            k <= cs@.len(),
            cs@ == text@,
            words.deep_view() + alpha_words_from(cs@.skip(k as int), current@) == alpha_words(
                text@,
            ),
        decreases cs@.len() - k,
    {
        let ghost before = words.deep_view();
        let ghost rest = cs@.skip(k as int);
        assert(rest[0] == cs@[k as int]);
        assert(rest.drop_first() =~= cs@.skip(k + 1));
        let ghost cur0 = current@;
        let c = cs[k];
        if is_alphabetic(c) {
            current.push(c);
            assert(alpha_words_from(rest, cur0) == alpha_words_from(rest.drop_first(), cur0.push(c)));
        } else if current.len() > 0 {
            let s = string_from_chars(current.as_slice());
            words.push(s);
            assert(words.deep_view() =~= before + seq![current@]);
            current = Vec::new();
            assert(words.deep_view() + alpha_words_from(cs@.skip(k + 1), current@) =~= before
                + alpha_words_from(rest, cur0));
        } else {
            assert(cur0 =~= Seq::<char>::empty());
            assert(alpha_words_from(rest, cur0) == alpha_words_from(rest.drop_first(), cur0));
        }
        k += 1;
    }
    let ghost before = words.deep_view();
    assert(cs@.skip(k as int) =~= Seq::<char>::empty());
    if current.len() > 0 {
        let s = string_from_chars(current.as_slice());
        words.push(s);
        assert(words.deep_view() =~= before + seq![current@]);
    } else {
        assert(words.deep_view() =~= before + Seq::<Seq<char>>::empty());
    }
    words
}

/// Non-empty and uppercase throughout.
pub fn is_all_uppercase(s: &str) -> (r: bool)
    ensures
        r == all_uppercase(s@),
{
    let cs = chars_of(s);
    chars_all_uppercase(cs.as_slice())
}

} // verus!
