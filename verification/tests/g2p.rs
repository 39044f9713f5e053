use prosodia::g2p::{fold_left, merge_tokens, resolve_tokens, retokenize, token_context, TokenUnit};
use prosodia::lexicon::TokenContext;
use prosodia::tagger::InternalMToken;

fn tok(text: &str, tag: &str, ws: &str) -> InternalMToken {
    InternalMToken::new(text.to_string(), tag.to_string(), ws.to_string())
}

fn with_phonemes(mut t: InternalMToken, p: &str, rating: i32) -> InternalMToken {
    t.phonemes = Some(p.to_string());
    t.underscore.rating = Some(rating);
    t
}

fn unit_texts(units: &[TokenUnit]) -> Vec<Vec<String>> {
    units
        .iter()
        .map(|u| match u {
            TokenUnit::Token(t) => vec![t.text.clone()],
            TokenUnit::Group(g) => g.iter().map(|t| t.text.clone()).collect(),
        })
        .collect()
}

#[test]
fn fold_left_merges_tail_tokens_into_their_head() {
    let mut tail = with_phonemes(tok("b", "NN", "  "), "bi", 3);
    tail.underscore.is_head = false;
    let head = with_phonemes(tok("a", "NN", " "), "A", 4);
    let folded = fold_left(&[head, tail, tok("c", "NN", "")], "?");
    assert_eq!(folded.len(), 2);
    assert_eq!(folded[0].text, "a b");
    assert_eq!(folded[0].whitespace, "  ");
    assert_eq!(folded[0].phonemes.as_deref(), Some("Abi"));
    assert_eq!(folded[0].underscore.rating, Some(3));
    assert!(folded[0].underscore.is_head);
    assert_eq!(folded[1].text, "c");
}

#[test]
fn merge_tokens_takes_the_heaviest_tag_and_joins_phonemes() {
    let a = with_phonemes(tok("Hello", "NNP", " "), "h\u{259}l\u{2c8}O", 3);
    let mut b = with_phonemes(tok("world", "NN", "!"), "w\u{2c8}\u{25c}\u{279}ld", 4);
    b.underscore.prespace = true;
    b.underscore.num_flags = "n&".to_string();
    let m = merge_tokens(&[a, b], Some("?"));
    assert_eq!(m.text, "Hello world");
    assert_eq!(m.tag, "NNP");
    assert_eq!(m.whitespace, "!");
    assert_eq!(m.phonemes.as_deref(), Some("h\u{259}l\u{2c8}O w\u{2c8}\u{25c}\u{279}ld"));
    assert_eq!(m.underscore.rating, Some(3));
    assert_eq!(m.underscore.num_flags, "&n");
    let unread = merge_tokens(&[tok("x", "NN", ""), tok("y", "NN", "")], Some("?"));
    assert_eq!(unread.phonemes.as_deref(), Some("??"));
    assert_eq!(unread.underscore.rating, None);
    let no_unk = merge_tokens(&[tok("x", "NN", "")], None);
    assert_eq!(no_unk.phonemes, None);
}

#[test]
fn retokenize_splits_words_and_reads_marks() {
    let units = retokenize(&[tok("a2b", "NN", " "), tok("hello-world", "NN", " "), tok(".", ".", "")]);
    assert_eq!(
        unit_texts(&units),
        vec![
            vec!["a".to_string()],
            vec!["2".to_string()],
            vec!["b".to_string()],
            vec!["hello".to_string(), "-".to_string(), "world".to_string()],
            vec![".".to_string()],
        ]
    );
    match &units[1] {
        TokenUnit::Token(t) => assert_eq!(t.underscore.alias.as_deref(), Some("to")),
        _ => panic!("expected a token"),
    }
    match &units[3] {
        TokenUnit::Group(g) => {
            assert!(g[0].underscore.is_head);
            assert!(!g[1].underscore.is_head);
            assert_eq!(g[2].whitespace, " ");
        }
        _ => panic!("expected a group"),
    }
    match &units[4] {
        TokenUnit::Token(t) => {
            assert_eq!(t.phonemes.as_deref(), Some("."));
            assert_eq!(t.underscore.rating, Some(4));
        }
        _ => panic!("expected a token"),
    }
}

#[test]
fn retokenize_carries_currency_to_the_amount() {
    let units = retokenize(&[tok("$", "$", ""), tok("5", "CD", " "), tok("-", ":", "")]);
    match &units[0] {
        TokenUnit::Token(t) => {
            assert_eq!(t.phonemes.as_deref(), Some(""));
            assert_eq!(t.underscore.rating, Some(4));
        }
        _ => panic!("expected a token"),
    }
    match &units[1] {
        TokenUnit::Token(t) => assert_eq!(t.underscore.currency.as_deref(), Some("$")),
        _ => panic!("expected a token"),
    }
    match &units[2] {
        TokenUnit::Token(t) => {
            assert_eq!(t.phonemes.as_deref(), Some("\u{2014}"));
            assert_eq!(t.underscore.rating, Some(3));
        }
        _ => panic!("expected a token"),
    }
}

#[test]
fn token_context_looks_at_the_first_sound() {
    let start = TokenContext { future_vowel: None, future_to: false };
    let c = token_context(&start, Some("\u{2c8}\u{e6}p\u{259}l"), &tok("apple", "NN", ""));
    assert_eq!(c.future_vowel, Some(true));
    assert!(!c.future_to);
    let c = token_context(&start, Some("t\u{2c8}u"), &tok("to", "TO", ""));
    assert_eq!(c.future_vowel, Some(false));
    assert!(c.future_to);
    let c = token_context(&c, Some("!"), &tok("TO", "NN", ""));
    assert_eq!(c.future_vowel, None);
    assert!(!c.future_to);
    let kept = token_context(&TokenContext { future_vowel: Some(true), future_to: true }, None, &tok("x", "NN", ""));
    assert_eq!(kept.future_vowel, Some(true));
}

#[test]
fn resolve_tokens_demotes_the_second_stress_after_a_letter() {
    let mut ts = vec![with_phonemes(tok("a", "NN", ""), "\u{2c8}A", 4), with_phonemes(tok("b", "NN", ""), "b\u{2c8}i", 4)];
    resolve_tokens(&mut ts);
    assert_eq!(ts[1].phonemes.as_deref(), Some("b\u{2cc}i"));
    assert!(!ts[1].underscore.prespace);
}

#[test]
fn resolve_tokens_spaces_out_spaced_text() {
    let mut ts = vec![with_phonemes(tok("a", "NN", " "), "\u{2c8}A", 4), with_phonemes(tok("b", "NN", ""), "b\u{2c8}i", 4)];
    resolve_tokens(&mut ts);
    assert!(ts[1].underscore.prespace);
    assert_eq!(ts[1].phonemes.as_deref(), Some("b\u{2c8}i"));
}

#[test]
fn resolve_tokens_silences_junk() {
    let mut ts = vec![with_phonemes(tok("a", "NN", ""), "\u{2c8}A", 4), tok("'", "''", ""), tok(".", ".", "")];
    resolve_tokens(&mut ts);
    assert_eq!(ts[1].phonemes.as_deref(), Some(""));
    assert_eq!(ts[1].underscore.rating, Some(3));
    assert_eq!(ts[2].phonemes.as_deref(), Some("."));
    assert_eq!(ts[2].underscore.rating, Some(3));
}
