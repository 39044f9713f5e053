# prosodia

An audiobook narration engine: EPUB reading, text normalization, grapheme-to-phoneme
conversion, prosody direction and speech synthesis.

- `src/` is the verified library (Verus). Each public function states what it
  returns in its `ensures`, over spec functions on sequences, maps and integers;
  laws that span several calls are public proof functions named `law_*`.
  - text and numbers: `text`, `numbers`, `normalization`, `segmenter`, `chunking`
  - phonemes: `lexicon`, `dictionary`, `phonemes`, `g2p`, `tagger`, `speech`,
    `bpe`, `tokenizer`, `pipeline`, `synthesis`
  - books: `zip_reader`, `xml`, `folio`, `epub_text`
  - staging: `coordinator`, `director`, `director_annotation`, `payload`, `markup`
  - voices and models: `voice_loader`, `voice_cache`, `safetensors`, `model_files`
  - calls into `regex`, `serde_json`, `quick-xml`, `miniz_oxide` and
    `html-escape` go through small trusted wrappers whose contracts name what the
    outside crate returns (`pattern`, `xml`, and the top of each module).
- `app/` runs the models (TensorFlow Lite and LiteRT-LM through their C APIs),
  does file and audio I/O, drives the narration threads, and holds the
  floating-point audio and prosody code.
- `tests/` exercise the library on concrete values.
