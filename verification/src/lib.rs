use vstd::prelude::*;

pub mod text;
pub mod pattern;
pub mod segmenter;
pub mod coordinator;
pub mod numbers;
pub mod zip_reader;
pub mod lexicon;
pub mod g2p;
pub mod normalization;
pub mod markup;
pub mod payload;
pub mod tagger;
pub mod xml;
pub mod folio;
pub mod epub_text;
pub mod voice_loader;
pub mod voice_cache;
pub mod safetensors;
pub mod director_annotation;
pub mod model_files;
pub mod bpe;
pub mod tokenizer;
pub mod chunking;
pub mod pipeline;
pub mod synthesis;
pub mod director;
pub mod phonemes;
pub mod dictionary;
pub mod speech;

verus! {

} // verus!
