//! `.safetensors` voice packs: an 8-byte little-endian header length, a JSON header
//! describing each tensor (`dtype`, `shape`, `data_offsets`), then the packed
//! tensor bytes.
//!
//! The tensors are located here; turning their bytes into numbers is left to the
//! caller.

use vstd::prelude::*;
use crate::text::{chars_eq_str, chars_of, joined, starts_with, str_eq};

verus! {

/// Why a voice pack could not be read or used.
#[derive(Debug)]
pub enum VoiceLoaderError {
    Safetensors { msg: String },
    NotTwoDimensional { shape: Vec<u32> },
    ShapeMismatch,
    EmptyBlend,
    MissingVoice { voice: String },
}

/// A JSON parse error.
#[verifier::external_type_specification]
#[verifier::external_body]
pub struct ExJsonError(serde_json::Error);

/// What the header says of one tensor: its name, its `dtype` where that is a
/// string, and its `shape` and `data_offsets` where they are arrays (each item as
/// an unsigned integer where it is one).
pub struct HeaderEntry {
    pub name: String,
    pub dtype: Option<String>,
    pub shape: Option<Vec<Option<u64>>>,
    pub offsets: Option<Vec<Option<u64>>>,
}

/// A header entry in chars and numbers.
pub struct HeaderEntryView {
    pub name: Seq<char>,
    pub dtype: Option<Seq<char>>,
    pub shape: Option<Seq<Option<u64>>>,
    pub offsets: Option<Seq<Option<u64>>>,
}

impl View for HeaderEntry {
    type V = HeaderEntryView;

    open spec fn view(&self) -> HeaderEntryView {
        HeaderEntryView {
            name: self.name@,
            dtype: match self.dtype {
                Some(d) => Some(d@),
                None => None,
            },
            shape: match self.shape {
                Some(s) => Some(s@),
                None => None,
            },
            offsets: match self.offsets {
                Some(o) => Some(o@),
                None => None,
            },
        }
    }
}

/// Whether `serde_json` reads `json` as a JSON value.
pub uninterp spec fn json_parses(json: Seq<u8>) -> bool;

/// The entries of the JSON object `json` holds, in the order `serde_json` keeps them;
/// `None` where it holds another kind of value.
pub uninterp spec fn header_entries(json: Seq<u8>) -> Option<Seq<HeaderEntryView>>;

/// The entries as views.
pub open spec fn entry_views(es: Seq<HeaderEntry>) -> Seq<HeaderEntryView> {
    es.map_values(|e: HeaderEntry| e@)
}

/// Calls `serde_json::from_slice` for a `serde_json::Value` and reads the fields of
/// each entry of the object it holds.
#[verifier::external_body]
fn read_header(json: &[u8]) -> (r: Result<Option<Vec<HeaderEntry>>, serde_json::Error>)
    ensures
        r is Ok == json_parses(json@),
        r matches Ok(o) ==> match o {
            Some(v) => header_entries(json@) == Some(entry_views(v@)),
            None => header_entries(json@) is None,
        },
{
    let v: serde_json::Value = serde_json::from_slice(json)?;
    let nums = |x: Option<&serde_json::Value>| x.and_then(|a| a.as_array()).map(|a| a.iter().map(|n| n.as_u64()).collect());
    Ok(v.as_object().map(|o| o.iter().map(|(k, e)| HeaderEntry {
        name: k.clone(),
        dtype: e.get("dtype").and_then(|d| d.as_str()).map(String::from),
        shape: nums(e.get("shape")),
        offsets: nums(e.get("data_offsets")),
    }).collect()))
}

/// Calls `serde_json::Error`'s `Display`.
#[verifier::external_body]
fn json_error_text(e: &serde_json::Error) -> String {
    e.to_string()
}

/// How a tensor's numbers are stored.
#[derive(Clone, Copy, Debug, PartialEq, Eq, Structural)]
pub enum TensorDtype {
    F32,
    F16,
}

/// A tensor of the pack: its name, how its numbers are stored, its shape, and the
/// byte range of its data.
pub struct TensorSlice {
    pub name: String,
    pub dtype: TensorDtype,
    pub shape: Vec<u32>,
    pub start: usize,
    pub end: usize,
}

/// A tensor slice in chars and numbers.
pub struct TensorView {
    pub name: Seq<char>,
    pub dtype: TensorDtype,
    pub shape: Seq<u32>,
    pub start: int,
    pub end: int,
}

impl View for TensorSlice {
    type V = TensorView;

    open spec fn view(&self) -> TensorView {
        TensorView {
            name: self.name@,
            dtype: self.dtype,
            shape: self.shape@,
            start: self.start as int,
            end: self.end as int,
        }
    }
}

/// The little-endian number of the first eight bytes.
pub open spec fn le64(b: Seq<u8>) -> int {
    b[0] as int + 256 * (b[1] as int + 256 * (b[2] as int + 256 * (b[3] as int + 256 * (b[4] as int + 256 * (
    b[5] as int + 256 * (b[6] as int + 256 * (b[7] as int)))))))
}

/// The items of an array that are unsigned integers, each cut to 32 bits.
pub open spec fn shape_of(items: Seq<Option<u64>>) -> Seq<u32>
    decreases items.len(),
{
    if items.len() == 0 {
        Seq::empty()
    } else {
        let rest = shape_of(items.drop_last());
        match items.last() {
            Some(n) => rest.push(n as u32),
            None => rest,
        }
    }
}

/// An offset item, with 0 for an item that is not an unsigned integer.
pub open spec fn offset_of(o: Option<u64>) -> int {
    match o {
        Some(n) => n as int,
        None => 0,
    }
}

/// What the pack makes of one header entry: nothing for the metadata entry or an
/// incomplete one (no `dtype` string, `shape` array, or two `data_offsets`); else
/// an error when its data runs past the pack or ends before it starts, or for a
/// dtype other than `F32` or `F16`; else the tensor.
pub open spec fn entry_tensor(e: HeaderEntryView, data_start: int, len: int) -> Option<Result<TensorView, ()>> {
    if e.name == "__metadata__"@ {
        None
    } else {
        match (e.dtype, e.shape, e.offsets) {
            (Some(dtype), Some(shape), Some(offsets)) => if offsets.len() != 2 {
                None
            } else {
                let start = data_start + offset_of(offsets[0]);
                let end = data_start + offset_of(offsets[1]);
                if len < end || end < start {
                    Some(Err(()))
                } else if dtype == "F32"@ || dtype == "F16"@ {
                    Some(
                        Ok(
                            TensorView {
                                name: e.name,
                                dtype: if dtype == "F32"@ {
                                    TensorDtype::F32
                                } else {
                                    TensorDtype::F16
                                },
                                shape: shape_of(shape),
                                start: start,
                                end: end,
                            },
                        ),
                    )
                } else {
                    Some(Err(()))
                }
            },
            _ => None,
        }
    }
}

/// The tensors of the first `n` entries, or the first entry that fails.
pub open spec fn tensors_of(es: Seq<HeaderEntryView>, data_start: int, len: int, n: int) -> Result<Seq<TensorView>, int>
    decreases n,
{
    if n <= 0 {
        Ok(Seq::empty())
    } else {
        match tensors_of(es, data_start, len, n - 1) {
            Err(k) => Err(k),
            Ok(ts) => match entry_tensor(es[n - 1], data_start, len) {
                None => Ok(ts),
                Some(Ok(t)) => Ok(ts.push(t)),
                Some(Err(())) => Err(n - 1),
            },
        }
    }
}

/// What the pack `bytes` holds: `Ok` with its tensors (in header order) when it is
/// long enough for its header, the header is a JSON object, and no entry fails.
pub open spec fn pack_reads(bytes: Seq<u8>) -> bool {
    bytes.len() >= 8 && 8 + le64(bytes) <= bytes.len() && json_parses(bytes.subrange(8, 8 + le64(bytes)))
        && header_entries(bytes.subrange(8, 8 + le64(bytes))) is Some && tensors_of(
        header_entries(bytes.subrange(8, 8 + le64(bytes)))->0,
        8 + le64(bytes),
        bytes.len() as int,
        header_entries(bytes.subrange(8, 8 + le64(bytes)))->0.len() as int,
    ) is Ok
}

/// The tensors of a pack that reads.
pub open spec fn pack_tensors(bytes: Seq<u8>) -> Seq<TensorView> {
    let es = header_entries(bytes.subrange(8, 8 + le64(bytes)))->0;
    tensors_of(es, 8 + le64(bytes), bytes.len() as int, es.len() as int)->Ok_0
}

/// The error message for the pack `bytes`, for one that does not read.
pub open spec fn pack_error(bytes: Seq<u8>) -> Seq<char> {
    if bytes.len() < 8 {
        "file too small"@
    } else if 8 + le64(bytes) > bytes.len() {
        "invalid header length"@
    } else if !json_parses(bytes.subrange(8, 8 + le64(bytes))) {
        "failed to parse JSON header: "@
    } else if header_entries(bytes.subrange(8, 8 + le64(bytes))) is None {
        "header is not a JSON object"@
    } else {
        let es = header_entries(bytes.subrange(8, 8 + le64(bytes)))->0;
        let k = tensors_of(es, 8 + le64(bytes), bytes.len() as int, es.len() as int)->Err_0;
        let e = es[k];
        let start = 8 + le64(bytes) + offset_of(e.offsets->0[0]);
        let end = 8 + le64(bytes) + offset_of(e.offsets->0[1]);
        if bytes.len() < end || end < start {
            "data offsets out of bounds"@
        } else {
            "unsupported dtype: "@ + e.dtype->0
        }
    }
}

/// The header is there but is not JSON (its error message then goes on with the
/// parser's own words).
pub open spec fn json_failed(bytes: Seq<u8>) -> bool {
    bytes.len() >= 8 && 8 + le64(bytes) <= bytes.len() && !json_parses(bytes.subrange(8, 8 + le64(bytes)))
}

/// Once an entry fails, the scan stays failed at it.
proof fn lemma_tensors_err_stays(es: Seq<HeaderEntryView>, ds: int, len: int, m: int, n: int)
    requires
        0 <= m <= n,
        tensors_of(es, ds, len, m) is Err,
    ensures
        tensors_of(es, ds, len, n) == tensors_of(es, ds, len, m),
    decreases n - m,
{
    if m < n {
        lemma_tensors_err_stays(es, ds, len, m, n - 1);
    }
}

proof fn lemma_le64_bound(b: Seq<u8>)
    requires
        b.len() >= 8,
    ensures
        0 <= le64(b) < 0x1_0000_0000_0000_0000,
{
    assert(0 <= le64(b) < 0x1_0000_0000_0000_0000) by (nonlinear_arith)
        requires
            b.len() >= 8,
            0 <= b[0] < 256,
            0 <= b[1] < 256,
            0 <= b[2] < 256,
            0 <= b[3] < 256,
            0 <= b[4] < 256,
            0 <= b[5] < 256,
            0 <= b[6] < 256,
            0 <= b[7] < 256,
    ;
}

/// The tensor one header entry gives (see `entry_tensor`).
fn read_entry(e: &HeaderEntry, data_start: usize, len: usize) -> (r: Option<Result<TensorSlice, String>>)
    requires
        data_start <= len,
    ensures
        match r {
            None => entry_tensor(e@, data_start as int, len as int) is None,
            Some(Ok(t)) => entry_tensor(e@, data_start as int, len as int) == Some(Ok::<TensorView, ()>(t@)),
            Some(Err(m)) => entry_tensor(e@, data_start as int, len as int) == Some(Err::<TensorView, ()>(())),
        },
{
    if str_eq(e.name.as_str(), "__metadata__") {
        return None;
    }
    let (dtype, shape, offsets) = match (&e.dtype, &e.shape, &e.offsets) {
        (Some(d), Some(s), Some(o)) => (d, s, o),
        _ => return None,
    };
    if offsets.len() != 2 {
        return None;
    }
    let o0: u64 = match offsets[0] {
        Some(n) => n,
        None => 0,
    };
    let o1: u64 = match offsets[1] {
        Some(n) => n,
        None => 0,
    };
    let room = len - data_start;
    if o1 as u128 > room as u128 || o1 < o0 {
        return Some(Err(String::new()));
    }
    let start = data_start + o0 as usize;
    let end = data_start + o1 as usize;
    let dc = chars_of(dtype.as_str());
    let kind = if chars_eq_str(dc.as_slice(), "F32") {
        TensorDtype::F32
    } else if chars_eq_str(dc.as_slice(), "F16") {
        TensorDtype::F16
    } else {
        return Some(Err(String::new()));
    };
    let mut dims: Vec<u32> = Vec::new();
    let mut k: usize = 0;
    while k < shape.len()
        invariant
            k <= shape@.len(),
            dims@ == shape_of(shape@.take(k as int)),
        decreases shape@.len() - k,
    {
        assert(shape@.take(k + 1).drop_last() =~= shape@.take(k as int));
        match shape[k] {
            Some(n) => dims.push(n as u32),
            None => {},
        }
        k += 1;
    }
    assert(shape@.take(k as int) =~= shape@);
    Some(Ok(TensorSlice { name: String::from_str(e.name.as_str()), dtype: kind, shape: dims, start, end }))
}

/// Locate the tensors of the voice pack `bytes` (see `pack_reads`), or say why
/// they cannot be read.
pub fn parse_safetensors(bytes: &[u8]) -> (r: Result<Vec<TensorSlice>, VoiceLoaderError>)
    ensures
        r is Ok == pack_reads(bytes@),
        r matches Ok(v) ==> v@.map_values(|t: TensorSlice| t@) == pack_tensors(bytes@),
        r matches Err(e) ==> (e matches VoiceLoaderError::Safetensors { msg } && if json_failed(bytes@) {
            starts_with(msg@, pack_error(bytes@))
        } else {
            msg@ == pack_error(bytes@)
        }),
{
    let n = bytes.len();
    if n < 8 {
        return Err(VoiceLoaderError::Safetensors { msg: String::from_str("file too small") });
    }
    let header_len: u64 = bytes[0] as u64 + 256 * (bytes[1] as u64 + 256 * (bytes[2] as u64 + 256 * (bytes[3] as u64
        + 256 * (bytes[4] as u64 + 256 * (bytes[5] as u64 + 256 * (bytes[6] as u64 + 256 * (bytes[7] as u64)))))));
    proof {
        lemma_le64_bound(bytes@);
    }
    if header_len as u128 > (n - 8) as u128 {
        return Err(VoiceLoaderError::Safetensors { msg: String::from_str("invalid header length") });
    }
    let header_end = 8 + header_len as usize;
    let mut json: Vec<u8> = Vec::new();
    let mut k: usize = 8;
    while k < header_end
        invariant
            8 <= k <= header_end <= n == bytes@.len(),
            json@ == bytes@.subrange(8, k as int),
        decreases header_end - k,
    {
        json.push(bytes[k]);
        assert(json@ =~= bytes@.subrange(8, k + 1));
        k += 1;
    }
    let entries = match read_header(json.as_slice()) {
        Err(e) => {
            let t = json_error_text(&e);
            let msg = joined("failed to parse JSON header: ", t.as_str());
            assert(msg@.take("failed to parse JSON header: "@.len() as int) =~= "failed to parse JSON header: "@);
            return Err(VoiceLoaderError::Safetensors { msg });
        },
        Ok(None) => {
            return Err(VoiceLoaderError::Safetensors { msg: String::from_str("header is not a JSON object") });
        },
        Ok(Some(v)) => v,
    };
    let ghost es = entry_views(entries@);
    let mut out: Vec<TensorSlice> = Vec::new();
    let mut i: usize = 0;
    assert(out@.map_values(|t: TensorSlice| t@) =~= Seq::<TensorView>::empty());
    while i < entries.len()
        invariant
            es == entry_views(entries@),
            n == bytes@.len(),
            n >= 8,
            header_end as int == 8 + le64(bytes@),
            json@ == bytes@.subrange(8, header_end as int),
            json_parses(json@),
            header_entries(json@) == Some(es),
            header_end <= n,
            i <= entries@.len(),
            tensors_of(es, header_end as int, n as int, i as int) == Ok::<Seq<TensorView>, int>(
                out@.map_values(|t: TensorSlice| t@),
            ),
        decreases entries@.len() - i,
    {
        assert(es[i as int] == entries@[i as int]@);
        let ghost before = out@.map_values(|t: TensorSlice| t@);
        match read_entry(&entries[i], header_end, n) {
            None => {},
            Some(Ok(t)) => {
                out.push(t);
                assert(out@.map_values(|t: TensorSlice| t@) =~= before.push(t@));
            },
            Some(Err(_)) => {
                let e = &entries[i];
                let o0: u64 = match &e.offsets {
                    Some(o) if o.len() == 2 => match o[0] {
                        Some(x) => x,
                        None => 0,
                    },
                    _ => 0,
                };
                let o1: u64 = match &e.offsets {
                    Some(o) if o.len() == 2 => match o[1] {
                        Some(x) => x,
                        None => 0,
                    },
                    _ => 0,
                };
                if o1 as u128 > (n - header_end) as u128 || o1 < o0 {
                    proof {
                        lemma_tensors_err_stays(es, header_end as int, n as int, i + 1, es.len() as int);
                    }
                    return Err(VoiceLoaderError::Safetensors { msg: String::from_str("data offsets out of bounds") });
                }
                let d = match &e.dtype {
                    Some(d) => d.as_str(),
                    None => "",
                };
                proof {
                    lemma_tensors_err_stays(es, header_end as int, n as int, i + 1, es.len() as int);
                }
                return Err(VoiceLoaderError::Safetensors { msg: joined("unsupported dtype: ", d) });
            },
        }
        i += 1;
    }
    assert(pack_tensors(bytes@) == out@.map_values(|t: TensorSlice| t@));
    Ok(out)
}


/// The shape of a voice pack as a two-dimensional `[rows, cols]`: kept when it has
/// two axes, its middle axis dropped when it has three and that one is 1.
pub open spec fn two_dimensional(shape: Seq<u32>) -> Option<Seq<u32>> {
    if shape.len() == 2 {
        Some(shape)
    } else if shape.len() == 3 && shape[1] == 1 {
        Some(seq![shape[0], shape[2]])
    } else {
        None
    }
}

/// The two-dimensional shape of a voice pack (see `two_dimensional`), or the error
/// naming the shape.
pub fn normalize_shape(shape: Vec<u32>) -> (r: Result<Vec<u32>, VoiceLoaderError>)
    ensures
        match r {
            Ok(s) => two_dimensional(shape@) == Some(s@),
            Err(e) => two_dimensional(shape@) is None && (e matches VoiceLoaderError::NotTwoDimensional {
                shape: s,
            } && s@ == shape@),
        },
{
    if shape.len() == 2 {
        Ok(shape)
    } else if shape.len() == 3 && shape[1] == 1 {
        let s = vec![shape[0], shape[2]];
        assert(s@ =~= seq![shape@[0], shape@[2]]);
        Ok(s)
    } else {
        Err(VoiceLoaderError::NotTwoDimensional { shape })
    }
}

/// The row of a `[rows, cols]` pack an utterance of `phoneme_count` phonemes takes:
/// `phoneme_count - 1`, clamped into the rows.
pub open spec fn style_row(rows: int, phoneme_count: int) -> int {
    let top = if rows - 1 > 0 { rows - 1 } else { 0 };
    if phoneme_count - 1 < 0 {
        0
    } else if phoneme_count - 1 > top {
        top
    } else {
        phoneme_count - 1
    }
}

/// The row an utterance of `phoneme_count` phonemes takes in a pack of `shape`, and
/// the row's length; an error unless the shape has two axes.
pub fn style_row_of(shape: &Vec<u32>, phoneme_count: i64) -> (r: Result<(usize, usize), VoiceLoaderError>)
    ensures
        match r {
            Ok((row, cols)) => shape@.len() == 2 && row as int == style_row(shape@[0] as int, phoneme_count as int)
                && cols == shape@[1],
            Err(e) => shape@.len() != 2 && (e matches VoiceLoaderError::NotTwoDimensional { shape: s } && s@
                == shape@),
        },
{
    if shape.len() != 2 {
        let mut s: Vec<u32> = Vec::new();
        let mut k: usize = 0;
        while k < shape.len()
            invariant
                k <= shape@.len(),
                s@ == shape@.take(k as int),
            decreases shape@.len() - k,
        {
            s.push(shape[k]);
            assert(s@ =~= shape@.take(k + 1));
            k += 1;
        }
        assert(shape@.take(k as int) =~= shape@);
        return Err(VoiceLoaderError::NotTwoDimensional { shape: s });
    }
    let rows = shape[0] as u64;
    let top: u64 = if rows > 0 { rows - 1 } else { 0 };
    let row: u64 = if phoneme_count <= 0 {
        0
    } else if (phoneme_count - 1) as u64 > top {
        top
    } else {
        (phoneme_count - 1) as u64
    };
    (Ok((row as usize, shape[1] as usize)))
}

} // verus!
