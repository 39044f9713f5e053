use prosodia::bpe::{byte_to_unicode, unicode_to_byte, BpeError, BpeTokenizer};

fn pvocab(vocab: &[(&str, i32)], merges: &[(u32, &str, &str)]) -> Vec<u8> {
    let mut data = Vec::new();
    data.extend_from_slice(b"PVOC");
    data.extend_from_slice(&1u16.to_le_bytes());
    data.extend_from_slice(&(vocab.len() as u32).to_le_bytes());
    data.extend_from_slice(&(merges.len() as u32).to_le_bytes());
    for (tok, id) in vocab {
        data.extend_from_slice(&id.to_le_bytes());
        data.extend_from_slice(&(tok.len() as u16).to_le_bytes());
        data.extend_from_slice(tok.as_bytes());
    }
    for (rank, a, b) in merges {
        data.extend_from_slice(&rank.to_le_bytes());
        data.extend_from_slice(&(a.len() as u16).to_le_bytes());
        data.extend_from_slice(a.as_bytes());
        data.extend_from_slice(&(b.len() as u16).to_le_bytes());
        data.extend_from_slice(b.as_bytes());
    }
    data
}

#[test]
fn test_bpe_tokenizer_basic() {
    // Construct a mock .pvocab file in memory
    let mut data = Vec::new();
    data.extend_from_slice(b"PVOC"); // magic
    data.extend_from_slice(&1u16.to_le_bytes()); // version
    data.extend_from_slice(&4u32.to_le_bytes()); // vocab count
    data.extend_from_slice(&2u32.to_le_bytes()); // merges count

    // Vocab item 0: "h" -> 0
    data.extend_from_slice(&0i32.to_le_bytes());
    data.extend_from_slice(&1u16.to_le_bytes());
    data.extend_from_slice(b"h");

    // Vocab item 1: "e" -> 1
    data.extend_from_slice(&1i32.to_le_bytes());
    data.extend_from_slice(&1u16.to_le_bytes());
    data.extend_from_slice(b"e");

    // Vocab item 2: "l" -> 2
    data.extend_from_slice(&2i32.to_le_bytes());
    data.extend_from_slice(&1u16.to_le_bytes());
    data.extend_from_slice(b"l");

    // Vocab item 3: "he" -> 3
    data.extend_from_slice(&3i32.to_le_bytes());
    data.extend_from_slice(&2u16.to_le_bytes());
    data.extend_from_slice(b"he");

    // Merge item 0: "h" + "e" -> rank 0
    data.extend_from_slice(&0u32.to_le_bytes());
    data.extend_from_slice(&1u16.to_le_bytes());
    data.extend_from_slice(b"h");
    data.extend_from_slice(&1u16.to_le_bytes());
    data.extend_from_slice(b"e");

    // Merge item 1: "l" + "l" -> rank 1
    data.extend_from_slice(&1u32.to_le_bytes());
    data.extend_from_slice(&1u16.to_le_bytes());
    data.extend_from_slice(b"l");
    data.extend_from_slice(&1u16.to_le_bytes());
    data.extend_from_slice(b"l");

    let tokenizer = BpeTokenizer::new(&data, false, None).unwrap();
    assert_eq!(tokenizer.vocab.get("he"), Some(&3));
    assert_eq!(tokenizer.inverse_vocab.get(&3), Some(&"he".to_string()));
    assert_eq!(tokenizer.merge_rank("h", "e"), Some(0));

    // Test BPE merging: "he" -> merges "h" and "e" into "he"
    let encoded = tokenizer.encode("he");
    assert_eq!(encoded, vec![3]);

    let decoded = tokenizer.decode(&encoded);
    assert_eq!(decoded, "he");
}

#[test]
fn lowest_rank_pair_merges_first_everywhere() {
    let data = pvocab(
        &[("a", 0), ("b", 1), ("ab", 2), ("bb", 3), ("abb", 4)],
        &[(5, "a", "b"), (1, "b", "b"), (0, "a", "bb")],
    );
    let t = BpeTokenizer::new(&data, false, None).unwrap();
    // "abb": (b,b) ranks 1 < (a,b) 5 -> [a, bb]; then (a,bb) rank 0 -> [abb]
    assert_eq!(t.bpe("abb"), vec!["abb".to_string()]);
    assert_eq!(t.bpe("abab"), vec!["ab".to_string(), "ab".to_string()]);
    assert_eq!(t.bpe(""), Vec::<String>::new());
    assert_eq!(t.encode("abb"), vec![4]);
    assert_eq!(t.merge_rank("b", "b"), Some(1));
    assert_eq!(t.merge_rank("b", "a"), None);
}

#[test]
fn unknown_pieces_get_the_unknown_id_or_nothing() {
    let data = pvocab(&[("a", 0)], &[]);
    let with_unk = BpeTokenizer::new(&data, false, Some(99)).unwrap();
    assert_eq!(with_unk.encode("ax"), vec![0, 99]);
    let without = BpeTokenizer::new(&data, false, None).unwrap();
    assert_eq!(without.encode("ax"), vec![0]);
    assert_eq!(without.encode(""), Vec::<i32>::new());
    assert_eq!(without.decode(&[0, 7, 0]), "aa");
}

#[test]
fn byte_level_round_trip_through_the_alphabet() {
    let data = pvocab(&[("\u{120}", 0), ("a", 1), ("\u{120}a", 2)], &[(0, "\u{120}", "a")]);
    let t = BpeTokenizer::new(&data, true, None).unwrap();
    assert_eq!(t.encode(" a"), vec![2]);
    assert_eq!(t.decode(&[2]), " a");
    assert_eq!(t.decode(&[0, 1]), " a");
}

#[test]
fn byte_alphabet_is_a_bijection() {
    assert_eq!(byte_to_unicode(b' '), '\u{120}');
    assert_eq!(byte_to_unicode(b'a'), 'a');
    assert_eq!(byte_to_unicode(0), '\u{100}');
    assert_eq!(byte_to_unicode(127), '\u{121}');
    assert_eq!(byte_to_unicode(173), '\u{143}');
    assert_eq!(unicode_to_byte('\u{120}'), Some(b' '));
    assert_eq!(unicode_to_byte('\u{400}'), None);
    for b in 0..=255u8 {
        assert_eq!(unicode_to_byte(byte_to_unicode(b)), Some(b));
    }
}

#[test]
fn malformed_files_are_reported() {
    assert!(matches!(BpeTokenizer::new(b"PVOC", false, None), Err(BpeError::InvalidSize)));
    let mut bad_magic = pvocab(&[], &[]);
    bad_magic[0] = b'X';
    match BpeTokenizer::new(&bad_magic, false, None) {
        Err(e @ BpeError::InvalidMagic(_)) => {
            assert_eq!(e.message(), "Invalid magic header: expected 'PVOC', got [88, 86, 79, 67]")
        }
        _ => panic!("expected InvalidMagic"),
    }
    let mut v2 = pvocab(&[], &[]);
    v2[4] = 2;
    match BpeTokenizer::new(&v2, false, None) {
        Err(e @ BpeError::UnsupportedVersion(2)) => assert_eq!(e.message(), "Unsupported version: 2"),
        _ => panic!("expected UnsupportedVersion"),
    }
    let mut short_vocab = pvocab(&[("a", 0)], &[]);
    short_vocab.truncate(short_vocab.len() - 1);
    assert!(matches!(BpeTokenizer::new(&short_vocab, false, None), Err(BpeError::MalformedToken)));
    let mut no_record = pvocab(&[], &[]);
    no_record[6] = 1;
    assert!(matches!(BpeTokenizer::new(&no_record, false, None), Err(BpeError::MalformedVocab)));
    let mut bad_utf8 = pvocab(&[("a", 0)], &[]);
    let last = bad_utf8.len() - 1;
    bad_utf8[last] = 0xff;
    assert!(matches!(BpeTokenizer::new(&bad_utf8, false, None), Err(BpeError::InvalidUtf8Vocab(_))));
    let mut short_merge = pvocab(&[], &[(0, "a", "b")]);
    short_merge.truncate(short_merge.len() - 1);
    assert!(matches!(BpeTokenizer::new(&short_merge, false, None), Err(BpeError::MalformedMergePart2)));
}

#[test]
fn stage_tokenizer_wraps_the_core_one() {
    let data = pvocab(&[("h", 0), ("e", 1), ("he", 2)], &[(0, "h", "e")]);
    let t = prosodia::tokenizer::BpeTokenizer::new(data, false, None).unwrap();
    assert_eq!(t.encode("he he".to_string()), vec![2, 2]);
    assert_eq!(t.decode(vec![2, 0]), "heh");
    match prosodia::tokenizer::BpeTokenizer::new(vec![1, 2, 3], false, None) {
        Err(prosodia::tokenizer::TokenizerError::Error { msg }) => {
            assert_eq!(msg, "Invalid file size for .pvocab format")
        }
        Ok(_) => panic!("expected an error"),
    }
}
