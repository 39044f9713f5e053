//! Decisions about model files and graph inputs: which files make a split-graph
//! model directory, which graph input carries the phoneme ids, and how many
//! tokens that input holds.

use vstd::prelude::*;
use crate::epub_text::listed;
use crate::text::{
    chars_eq_str, chars_of, contains_str, contains_sub, ends_with, ends_with_str, starts_with,
    starts_with_str,
};

verus! {

/// The number of flow-matching steps a split-graph recipe uses when its
/// configuration does not say.
pub fn default_timesteps() -> (n: usize)
    ensures
        n == 10,
{
    10
}

/// A TFLite graph file of the given family: its name starts with `prefix` and ends
/// with `.tflite`.
pub open spec fn graph_file(name: Seq<char>, prefix: Seq<char>) -> bool {
    starts_with(name, prefix) && ends_with(name, ".tflite"@)
}

/// Whether the directory entry `name` is a graph file of the family `prefix`.
pub fn is_graph_file(name: &str, prefix: &str) -> (r: bool)
    ensures
        r == graph_file(name@, prefix@),
{
    let cs = chars_of(name);
    starts_with_str(cs.as_slice(), prefix) && ends_with_str(cs.as_slice(), ".tflite")
}

/// Whether a directory with these entries holds a split-graph model: a text-encoder
/// graph, `config.json` and `emb.bin`.
pub open spec fn split_model_listing(is_dir: bool, names: Seq<Seq<char>>) -> bool {
    &&& is_dir
    &&& exists|i: int| 0 <= i < names.len() && graph_file(#[trigger] names[i], "matcha_textenc"@)
    &&& listed(names, "config.json"@)
    &&& listed(names, "emb.bin"@)
}

/// Whether a path that is (`is_dir`) a directory with the entries `entry_names`
/// is a split-graph model home.
pub fn is_split_model_dir(is_dir: bool, entry_names: &Vec<String>) -> (r: bool)
    ensures
        r == split_model_listing(is_dir, entry_names.deep_view()),
{
    if !is_dir {
        return false;
    }
    let mut found = false;
    let mut i: usize = 0;
    while i < entry_names.len()
        invariant
            i <= entry_names@.len(),
            found == exists|j: int|
                0 <= j < i && graph_file(#[trigger] entry_names.deep_view()[j], "matcha_textenc"@),
        decreases entry_names@.len() - i,
    {
        assert(entry_names.deep_view()[i as int] == entry_names@[i as int]@);
        if is_graph_file(entry_names[i].as_str(), "matcha_textenc") {
            found = true;
        }
        i += 1;
    }
    let cfg = chars_of("config.json");
    let emb = chars_of("emb.bin");
    found && crate::epub_text::is_listed(entry_names, cfg.as_slice()) && crate::epub_text::is_listed(
        entry_names,
        emb.as_slice(),
    )
}

/// An input tensor that carries phoneme ids, by its lowercased name.
pub open spec fn phoneme_input(name: Seq<char>) -> bool {
    name == "x"@ || contains_sub(name, "phone"@) || contains_sub(name, "input_ids"@) || contains_sub(
        name,
        "text"@,
    )
}

/// Whether the input tensor named `lower_name` (already lowercased) carries phoneme ids.
pub fn is_phoneme_input_name(lower_name: &str) -> (r: bool)
    ensures
        r == phoneme_input(lower_name@),
{
    let cs = chars_of(lower_name);
    chars_eq_str(cs.as_slice(), "x") || contains_str(cs.as_slice(), "phone") || contains_str(
        cs.as_slice(),
        "input_ids",
    ) || contains_str(cs.as_slice(), "text")
}

/// The token limit of a phoneme input of `byte_size` bytes: its element count
/// (8-byte elements for `int64`, else 4-byte) less the two boundary tokens, never
/// below zero, as an `i32` (truncated).
pub open spec fn tensor_token_limit(byte_size: usize, is_int64: bool) -> i32 {
    let count = byte_size / if is_int64 { 8usize } else { 4usize };
    (if count >= 2 { count - 2 } else { 0 }) as i32
}

/// The token limit of a phoneme input tensor of `byte_size` bytes.
pub fn token_limit_from_tensor(byte_size: usize, is_int64: bool) -> (limit: i32)
    ensures
        limit == tensor_token_limit(byte_size, is_int64),
{
    let element_size: usize = if is_int64 { 8 } else { 4 };
    let count = byte_size / element_size;
    let kept = count.saturating_sub(2);
    #[verifier::truncate]
    (kept as i32)
}

/// A Matcha graph, by the lowercased names of its inputs: one is `x`, one contains
/// `x_lengths`, and one is `scales`.
pub open spec fn matcha_inputs(names: Seq<Seq<char>>) -> bool {
    &&& listed(names, "x"@)
    &&& exists|i: int| 0 <= i < names.len() && contains_sub(#[trigger] names[i], "x_lengths"@)
    &&& listed(names, "scales"@)
}

/// Whether a graph whose inputs have these (lowercased) names is a Matcha model.
pub fn is_matcha_graph(lower_names: &Vec<String>) -> (r: bool)
    ensures
        r == matcha_inputs(lower_names.deep_view()),
{
    let mut found = false;
    let mut i: usize = 0;
    while i < lower_names.len()
        invariant
            i <= lower_names@.len(),
            found == exists|j: int|
                0 <= j < i && contains_sub(#[trigger] lower_names.deep_view()[j], "x_lengths"@),
        decreases lower_names@.len() - i,
    {
        assert(lower_names.deep_view()[i as int] == lower_names@[i as int]@);
        let cs = chars_of(lower_names[i].as_str());
        if contains_str(cs.as_slice(), "x_lengths") {
            found = true;
        }
        i += 1;
    }
    let x = chars_of("x");
    let scales = chars_of("scales");
    found && crate::epub_text::is_listed(lower_names, x.as_slice()) && crate::epub_text::is_listed(
        lower_names,
        scales.as_slice(),
    )
}

/// What a graph input is for, judged by its lowercased name.
#[derive(Clone, Copy, Debug, PartialEq, Eq, Structural)]
pub enum InputRole {
    Phonemes,
    XLengths,
    Scales,
    Style,
    Speed,
    Vat,
    DurationScales,
    F0Bias,
    Unused,
}

/// The role of the input named `n` (lowercased), the first rule that applies
/// deciding: `x` carries phonemes; a name with `x_lengths` the lengths; `scales` the
/// scales; `phone`, `input_ids` or `text` phonemes; `style` or `ref` the style;
/// `speed` or `tempo` the speed, unless it also holds `vat` (then nothing);
/// `vat`, `emotion` or `control` the VAT controls; `duration_scale` or `dur_scale`
/// the duration scales; `f0_bias` or `pitch_bias` the pitch bias.
pub open spec fn input_role(n: Seq<char>) -> InputRole {
    if n == "x"@ {
        InputRole::Phonemes
    } else if contains_sub(n, "x_lengths"@) {
        InputRole::XLengths
    } else if n == "scales"@ {
        InputRole::Scales
    } else if contains_sub(n, "phone"@) || contains_sub(n, "input_ids"@) || contains_sub(n, "text"@) {
        InputRole::Phonemes
    } else if contains_sub(n, "style"@) || contains_sub(n, "ref"@) {
        InputRole::Style
    } else if contains_sub(n, "speed"@) || contains_sub(n, "tempo"@) {
        if contains_sub(n, "vat"@) {
            InputRole::Unused
        } else {
            InputRole::Speed
        }
    } else if contains_sub(n, "vat"@) || contains_sub(n, "emotion"@) || contains_sub(n, "control"@) {
        InputRole::Vat
    } else if contains_sub(n, "duration_scale"@) || contains_sub(n, "dur_scale"@) {
        InputRole::DurationScales
    } else if contains_sub(n, "f0_bias"@) || contains_sub(n, "pitch_bias"@) {
        InputRole::F0Bias
    } else {
        InputRole::Unused
    }
}

/// The role of the graph input named `lower_name` (already lowercased).
pub fn input_role_of(lower_name: &str) -> (r: InputRole)
    ensures
        r == input_role(lower_name@),
{
    let cs = chars_of(lower_name);
    let n = cs.as_slice();
    if chars_eq_str(n, "x") {
        InputRole::Phonemes
    } else if contains_str(n, "x_lengths") {
        InputRole::XLengths
    } else if chars_eq_str(n, "scales") {
        InputRole::Scales
    } else if contains_str(n, "phone") || contains_str(n, "input_ids") || contains_str(n, "text") {
        InputRole::Phonemes
    } else if contains_str(n, "style") || contains_str(n, "ref") {
        InputRole::Style
    } else if contains_str(n, "speed") || contains_str(n, "tempo") {
        if contains_str(n, "vat") {
            InputRole::Unused
        } else {
            InputRole::Speed
        }
    } else if contains_str(n, "vat") || contains_str(n, "emotion") || contains_str(n, "control") {
        InputRole::Vat
    } else if contains_str(n, "duration_scale") || contains_str(n, "dur_scale") {
        InputRole::DurationScales
    } else if contains_str(n, "f0_bias") || contains_str(n, "pitch_bias") {
        InputRole::F0Bias
    } else {
        InputRole::Unused
    }
}

} // verus!
