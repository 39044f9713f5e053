use prosodia::chunking::{chunk_phonemes, chunk_tokens, DEFAULT_CHUNK_LIMIT};
use prosodia::g2p::TokenPhonemes;

fn tok(phonemes: &str, whitespace: &str) -> TokenPhonemes {
    TokenPhonemes { phonemes: phonemes.to_string(), whitespace: whitespace.to_string() }
}

#[test]
fn short_phonemes_return_single_chunk() {
    assert_eq!(
        chunk_phonemes("hɛˈloʊ wɝˈld".to_string(), DEFAULT_CHUNK_LIMIT),
        vec!["hɛˈloʊ wɝˈld".to_string()]
    );
}

#[test]
fn empty_phonemes_return_no_chunks() {
    assert!(chunk_phonemes(String::new(), DEFAULT_CHUNK_LIMIT).is_empty());
    assert!(chunk_phonemes("   \n  ".to_string(), DEFAULT_CHUNK_LIMIT).is_empty());
}

#[test]
fn input_is_trimmed_before_chunking() {
    assert_eq!(chunk_phonemes("  hello  ".to_string(), DEFAULT_CHUNK_LIMIT), vec!["hello".to_string()]);
}

#[test]
fn long_input_splits_on_break_characters() {
    let word = "abcdefghij";
    let phonemes = vec![word; 8].join(" ");
    let chunks = chunk_phonemes(phonemes.clone(), 25);
    for c in &chunks {
        assert!(c.chars().count() <= 25, "chunk too long: {c:?}");
    }
    let rejoined: Vec<&str> = chunks.iter().flat_map(|c| c.split(' ')).collect();
    assert_eq!(rejoined, vec![word; 8]);
}

#[test]
fn hard_split_when_no_break_character_available() {
    let phonemes = "x".repeat(1200);
    let chunks = chunk_phonemes(phonemes, 510);
    assert_eq!(chunks.len(), 3);
    assert_eq!(chunks[0].chars().count(), 510);
    assert_eq!(chunks[1].chars().count(), 510);
    assert_eq!(chunks[2].chars().count(), 180);
}

#[test]
fn tokens_group_under_limit() {
    let tokens = vec![tok("abc", " "), tok("def", " "), tok("ghi", " "), tok("jkl", "")];
    let chunks = chunk_tokens(tokens, 10);
    assert_eq!(chunks.len(), 2);
    assert_eq!(chunks[0].tokens, vec![tok("abc", " "), tok("def", " ")]);
    assert_eq!(chunks[1].tokens, vec![tok("ghi", " "), tok("jkl", "")]);
}

#[test]
fn single_oversized_token_becomes_its_own_chunk() {
    let tokens = vec![tok("aaaaaaaaaaaa", " "), tok("b", "")];
    let chunks = chunk_tokens(tokens, 10);
    assert_eq!(chunks.len(), 2);
    assert_eq!(chunks[0].tokens.len(), 1);
    assert_eq!(chunks[1].tokens, vec![tok("b", "")]);
}

#[test]
fn empty_token_stream_yields_no_chunks() {
    assert!(chunk_tokens(Vec::new(), DEFAULT_CHUNK_LIMIT).is_empty());
}

#[test]
fn break_search_stops_at_the_halfway_point() {
    // limit 10, floor = start + 5: a space at index 3 is too early, so the cut is hard.
    let chunks = chunk_phonemes("abc defghijklmnop".to_string(), 10);
    assert_eq!(chunks, vec!["abc defghi".to_string(), "jklmnop".to_string()]);
    // A break char at index 7 is past the floor: cut just after it.
    let chunks = chunk_phonemes("abcdefg,hijklmnop".to_string(), 10);
    assert_eq!(chunks, vec!["abcdefg,".to_string(), "hijklmnop".to_string()]);
}

#[test]
fn every_chunk_is_bounded_and_non_empty() {
    let text = "ðə kwɪk, bɹaʊn fɑks — dʒʌmps… oʊvɚ ðə leɪzi dɔɡ!   ".repeat(7);
    for limit in 1..40u32 {
        let chunks = chunk_phonemes(text.clone(), limit);
        for c in &chunks {
            let n = c.chars().count();
            assert!(n > 0 && n <= limit as usize);
            assert_eq!(c.trim(), c);
        }
    }
}
