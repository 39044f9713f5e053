use prosodia::dictionary::Lexicon;
use prosodia::speech::ProsodiaSpeech;
use prosodia::tagger::InternalMToken;
use prosodia::lexicon::TokenContext;
use prosodia::phonemes::{apply_stress, StressLevel};

fn u32le(out: &mut Vec<u8>, v: usize) {
    out.extend_from_slice(&(v as u32).to_le_bytes());
}

fn u16le(out: &mut Vec<u8>, v: usize) {
    out.extend_from_slice(&(v as u16).to_le_bytes());
}

/// A silver table of `(key, value)` entries, sorted by key bytes.
fn silver_table(entries: &[(&str, &str)]) -> &'static [u8] {
    let mut sorted: Vec<(&str, &str)> = entries.to_vec();
    sorted.sort_by(|a, b| a.0.as_bytes().cmp(b.0.as_bytes()));
    let mut pool: Vec<u8> = Vec::new();
    let mut index: Vec<u8> = Vec::new();
    for (k, v) in &sorted {
        u32le(&mut index, pool.len());
        u16le(&mut index, k.len());
        pool.extend_from_slice(k.as_bytes());
        u32le(&mut index, pool.len());
        u16le(&mut index, v.len());
        pool.extend_from_slice(v.as_bytes());
    }
    let mut out: Vec<u8> = b"PSL1".to_vec();
    u32le(&mut out, sorted.len());
    u32le(&mut out, pool.len());
    out.extend_from_slice(&index);
    out.extend_from_slice(&pool);
    Box::leak(out.into_boxed_slice())
}

enum Gold<'a> {
    One(&'a str),
    Tagged(Vec<(&'a str, Option<&'a str>)>),
}

/// A gold table of entries, sorted by key bytes.
fn gold_table(entries: Vec<(&str, Gold)>) -> &'static [u8] {
    let mut sorted = entries;
    sorted.sort_by(|a, b| a.0.as_bytes().cmp(b.0.as_bytes()));
    let mut pool: Vec<u8> = Vec::new();
    let mut values: Vec<u8> = Vec::new();
    let mut index: Vec<u8> = Vec::new();
    for (k, g) in &sorted {
        u32le(&mut index, pool.len());
        u16le(&mut index, k.len());
        pool.extend_from_slice(k.as_bytes());
        match g {
            Gold::One(v) => {
                index.push(0);
                index.push(0);
                u32le(&mut index, pool.len());
                u16le(&mut index, v.len());
                pool.extend_from_slice(v.as_bytes());
            }
            Gold::Tagged(vs) => {
                index.push(1);
                index.push(0);
                u32le(&mut index, values.len());
                u16le(&mut index, vs.len());
                for (tag, val) in vs {
                    u32le(&mut values, pool.len());
                    u16le(&mut values, tag.len());
                    pool.extend_from_slice(tag.as_bytes());
                    match val {
                        Some(v) => {
                            values.push(1);
                            u32le(&mut values, pool.len());
                            u16le(&mut values, v.len());
                            pool.extend_from_slice(v.as_bytes());
                        }
                        None => {
                            values.push(0);
                            u32le(&mut values, 0);
                            u16le(&mut values, 0);
                        }
                    }
                }
            }
        }
    }
    let mut out: Vec<u8> = b"PGL1".to_vec();
    u32le(&mut out, sorted.len());
    u32le(&mut out, pool.len());
    u32le(&mut out, values.len());
    out.extend_from_slice(&index);
    out.extend_from_slice(&pool);
    out.extend_from_slice(&values);
    Box::leak(out.into_boxed_slice())
}

fn lexicon(british: bool) -> Lexicon {
    let gold = gold_table(vec![
        ("hello", Gold::One("h\u{259}l\u{2c8}O")),
        (
            "read",
            Gold::Tagged(vec![
                ("VB", Some("\u{279}\u{2c8}id")),
                ("VBD", Some("\u{279}\u{2c8}\u{25b}d")),
                ("DEFAULT", Some("\u{279}\u{2c8}id")),
            ]),
        ),
        ("A", Gold::One("A")),
        ("B", Gold::One("bi")),
        ("forty", Gold::One("f\u{2c8}\u{254}\u{279}\u{27e}i")),
        ("two", Gold::One("t\u{2c8}u")),
        ("to", Gold::One("t\u{2c8}u")),
        ("dollar", Gold::One("d\u{2c8}\u{251}l\u{259}\u{279}")),
        ("cat", Gold::One("k\u{2c8}\u{e6}t")),
        ("book", Gold::One("b\u{2c8}\u{28a}k")),
        ("I", Gold::One("\u{2c8}I")),
        ("a", Gold::One("\u{250}")),
        ("it", Gold::One("\u{26a}t")),
        ("yesterday", Gold::One("j\u{2c8}\u{25b}st\u{259}\u{279}dA")),
        (
            "used",
            Gold::Tagged(vec![("VBD", Some("j\u{2c8}ust")), ("DEFAULT", Some("j\u{2c8}uzd"))]),
        ),
    ]);
    let silver = silver_table(&[("world", "w\u{2c8}\u{25c}\u{279}ld"), ("walk", "w\u{2c8}\u{254}k")]);
    match Lexicon::new(british, gold, silver) {
        Ok(l) => l,
        Err(e) => panic!("tables refused: {e}"),
    }
}

fn ctx() -> TokenContext {
    TokenContext { future_vowel: Some(false), future_to: false }
}

#[test]
fn gold_and_silver_words_are_read_as_recorded() {
    let lex = lexicon(false);
    let (p, r) = lex.lookup("hello", None, None, None);
    assert_eq!(p.as_deref(), Some("h\u{259}l\u{2c8}O"));
    assert_eq!(r, Some(4));
    let (p, r) = lex.lookup("world", None, None, None);
    assert_eq!(p.as_deref(), Some("w\u{2c8}\u{25c}\u{279}ld"));
    assert_eq!(r, Some(3));
    assert_eq!(lex.gold_string("hello").as_deref(), Some("h\u{259}l\u{2c8}O"));
    assert_eq!(lex.gold_string("read").as_deref(), Some("\u{279}\u{2c8}id"));
    assert_eq!(lex.gold_string("missing"), None);
}

#[test]
fn tagged_entries_follow_the_tag_then_its_default() {
    let lex = lexicon(false);
    let (p, _) = lex.lookup("read", Some("VBD"), None, Some(ctx()));
    assert_eq!(p.as_deref(), Some("\u{279}\u{2c8}\u{25b}d"));
    let (p, _) = lex.lookup("read", Some("VBN"), None, Some(ctx()));
    assert_eq!(p.as_deref(), Some("\u{279}\u{2c8}id"));
    let (p, _) = lex.lookup("read", None, None, None);
    assert_eq!(p.as_deref(), Some("\u{279}\u{2c8}id"));
}

#[test]
fn unknown_capitals_are_spelled_letter_by_letter() {
    let lex = lexicon(false);
    let (p, r) = lex.get_nnp("AB");
    assert_eq!(p.as_deref(), Some("\u{2c8}Abi"));
    assert_eq!(r, Some(3));
    assert_eq!(lex.get_nnp("xy"), (None, None));
    let (p, r) = lex.lookup("AB", Some("NNP"), None, None);
    assert_eq!(p.as_deref(), Some("\u{2c8}Abi"));
    assert_eq!(r, Some(3));
}

#[test]
fn stress_weights_move_and_drop_marks() {
    let s = |p: &str, w: StressLevel| apply_stress(Some(p.to_string()), Some(w));
    assert_eq!(s("\u{2c8}h\u{25b}lo", StressLevel::BelowMinusOne).as_deref(), Some("h\u{25b}lo"));
    assert_eq!(s("\u{2c8}h\u{25b}\u{2cc}lo", StressLevel::MinusOne).as_deref(), Some("\u{2cc}h\u{25b}lo"));
    assert_eq!(s("h\u{25b}lo", StressLevel::Half).as_deref(), Some("h\u{2cc}\u{25b}lo"));
    assert_eq!(s("h\u{25b}lo", StressLevel::AboveOne).as_deref(), Some("h\u{2c8}\u{25b}lo"));
    assert_eq!(s("h\u{2cc}\u{25b}lo", StressLevel::AboveOne).as_deref(), Some("h\u{2c8}\u{25b}lo"));
    assert_eq!(s("hmm", StressLevel::Half).as_deref(), Some("hmm"));
    assert_eq!(apply_stress(Some("x".to_string()), None).as_deref(), Some("x"));
    assert_eq!(apply_stress(None, Some(StressLevel::One)), None);
}

#[test]
fn endings_follow_the_last_sound() {
    let us = lexicon(false);
    let gb = lexicon(true);
    let p = |l: &Lexicon, s: &str| l.plural_suffix(Some(s.to_string()));
    assert_eq!(p(&us, "k\u{e6}t").as_deref(), Some("k\u{e6}ts"));
    assert_eq!(p(&us, "d\u{254}\u{261}").as_deref(), Some("d\u{254}\u{261}z"));
    assert_eq!(p(&us, "h\u{254}\u{279}s").as_deref(), Some("h\u{254}\u{279}s\u{1d7b}z"));
    assert_eq!(p(&gb, "h\u{254}\u{2d0}s").as_deref(), Some("h\u{254}\u{2d0}s\u{26a}z"));
    assert_eq!(p(&us, ""), None);
    let e = |l: &Lexicon, s: &str| l.ed_suffix(Some(s.to_string()));
    assert_eq!(e(&us, "w\u{254}k").as_deref(), Some("w\u{254}kt"));
    assert_eq!(e(&us, "p\u{e6}t").as_deref(), Some("p\u{e6}\u{27e}\u{1d7b}d"));
    assert_eq!(e(&gb, "p\u{e6}t").as_deref(), Some("p\u{e6}t\u{26a}d"));
    assert_eq!(e(&us, "w\u{251}nt").as_deref(), Some("w\u{251}nt\u{1d7b}d"));
    assert_eq!(e(&us, "n\u{26a}d").as_deref(), Some("n\u{26a}d\u{1d7b}d"));
    assert_eq!(e(&us, "pl\u{e6}n").as_deref(), Some("pl\u{e6}nd"));
    let i = |l: &Lexicon, s: &str| l.ing_suffix(Some(s.to_string()));
    assert_eq!(i(&us, "sit").as_deref(), Some("si\u{27e}\u{26a}\u{14b}"));
    assert_eq!(i(&gb, "sit").as_deref(), Some("sit\u{26a}\u{14b}"));
    assert_eq!(i(&gb, "b\u{254}\u{2d0}").as_deref(), None);
}

#[test]
fn inflections_are_read_from_known_stems() {
    let lex = lexicon(false);
    let (p, r) = lex.get_word("cats", None, None, ctx());
    assert_eq!(p.as_deref(), Some("k\u{2c8}\u{e6}ts"));
    assert_eq!(r, Some(4));
    let (p, _) = lex.get_word("walked", None, None, ctx());
    assert_eq!(p.as_deref(), Some("w\u{2c8}\u{254}kt"));
    let (p, _) = lex.get_word("Hello", None, None, ctx());
    assert_eq!(p.as_deref(), Some("h\u{259}l\u{2c8}O"));
    assert_eq!(lex.get_word("zzzq", None, None, ctx()), (None, None));
}

#[test]
fn words_read_by_rule() {
    let lex = lexicon(false);
    let sc = |w: &str, tag: Option<&str>, c: TokenContext| lex.get_special_case(w, tag, None, c).0;
    assert_eq!(sc("a", Some("DT"), ctx()).as_deref(), Some("\u{250}"));
    assert_eq!(sc("A", None, ctx()).as_deref(), Some("\u{2c8}A"));
    assert_eq!(sc("I", Some("PRP"), ctx()).as_deref(), Some("\u{2cc}I"));
    assert_eq!(sc("to", None, TokenContext { future_vowel: Some(true), future_to: false }).as_deref(), Some("t\u{28a}"));
    assert_eq!(sc("to", None, TokenContext { future_vowel: None, future_to: false }).as_deref(), Some("t\u{2c8}u"));
    assert_eq!(sc("the", None, TokenContext { future_vowel: Some(true), future_to: false }).as_deref(), Some("\u{f0}i"));
    assert_eq!(sc("in", Some("IN"), ctx()).as_deref(), Some("\u{26a}n"));
    assert_eq!(sc("in", Some("IN"), TokenContext { future_vowel: None, future_to: false }).as_deref(), Some("\u{2c8}\u{26a}n"));
    assert_eq!(sc("by", Some("RB"), ctx()).as_deref(), Some("b\u{2c8}I"));
    assert_eq!(sc("used", Some("VBD"), TokenContext { future_vowel: None, future_to: true }).as_deref(), Some("j\u{2c8}ust"));
    assert_eq!(sc("used", Some("VBD"), ctx()).as_deref(), Some("j\u{2c8}uzd"));
    assert_eq!(sc("A.B.", None, ctx()).as_deref(), Some("\u{2c8}Abi"));
    assert_eq!(sc("hello", None, ctx()), None);
}

#[test]
fn numbers_are_spoken_and_looked_up() {
    let lex = lexicon(false);
    let (p, r) = lex.get_number("42", None, true, "");
    assert_eq!(p.as_deref(), Some("f\u{2c8}\u{254}\u{279}\u{27e}i t\u{2c8}u"));
    assert_eq!(r, Some(4));
    let (p, _) = lex.get_number("42s", None, true, "");
    assert_eq!(p.as_deref(), Some("f\u{2c8}\u{254}\u{279}\u{27e}i t\u{2c8}uz"));
    assert_eq!(lex.get_number("", None, true, ""), (None, None));
}

#[test]
fn currency_amounts_and_number_shapes() {
    assert!(Lexicon::is_currency("12"));
    assert!(Lexicon::is_currency("12.50"));
    assert!(Lexicon::is_currency("12.000"));
    assert!(!Lexicon::is_currency("12.345"));
    assert!(!Lexicon::is_currency("1.2.3"));
    assert!(Lexicon::is_number("42nd", true));
    assert!(Lexicon::is_number("-1,000.5", true));
    assert!(!Lexicon::is_number("-1", false));
    assert!(!Lexicon::is_number("4a2", true));
    assert!(!Lexicon::is_number("abc", true));
    assert_eq!(Lexicon::numeric_if_needed('7'), "7");
    assert_eq!(Lexicon::numeric_if_needed('x'), "x");
}

#[test]
fn tags_weights_and_currency_units() {
    assert_eq!(Lexicon::parent_tag(Some("VBD")).as_deref(), Some("VERB"));
    assert_eq!(Lexicon::parent_tag(Some("NNS")).as_deref(), Some("NOUN"));
    assert_eq!(Lexicon::parent_tag(Some("RBR")).as_deref(), Some("ADV"));
    assert_eq!(Lexicon::parent_tag(Some("JJ")).as_deref(), Some("ADJ"));
    assert_eq!(Lexicon::parent_tag(Some("DT")).as_deref(), Some("DT"));
    assert_eq!(Lexicon::parent_tag(None), None);
    assert_eq!(Lexicon::stress_weight(Some("\u{2c8}A\u{2a7}")), 5);
    assert_eq!(Lexicon::stress_weight(None), 0);
    let lex = lexicon(false);
    assert_eq!(lex.append_currency("t\u{2c8}u", Some("$")), "t\u{2c8}u d\u{2c8}\u{251}l\u{259}\u{279}z");
    assert_eq!(lex.append_currency("t\u{2c8}u", Some("?")), "t\u{2c8}u");
    assert_eq!(lex.append_currency("t\u{2c8}u", None), "t\u{2c8}u");
}

#[test]
fn known_words_and_tokens() {
    let lex = lexicon(false);
    assert!(lex.is_known("hello", None));
    assert!(lex.is_known("walk", None));
    assert!(lex.is_known("x", None));
    assert!(lex.is_known("NASA", None));
    assert!(!lex.is_known("zzq", None));
    let token = InternalMToken::new("cats".to_string(), "NNS".to_string(), String::new());
    let (p, r) = lex.lookup_token(&token, ctx());
    assert_eq!(p.as_deref(), Some("k\u{2c8}\u{e6}ts"));
    assert_eq!(r, Some(4));
    let number = InternalMToken::new("42".to_string(), "CD".to_string(), String::new());
    let r = lex.try_lookup_token(&number, ctx());
    assert_eq!(r.and_then(|x| x.0).as_deref(), Some("f\u{2c8}\u{254}\u{279}\u{27e}i t\u{2c8}u"));
}

#[test]
fn malformed_tables_are_refused() {
    let gold = gold_table(vec![("a", Gold::One("x"))]);
    let silver = silver_table(&[]);
    assert!(Lexicon::new(false, gold, silver).is_ok());
    assert!(Lexicon::new(false, b"PGL1", silver).is_err());
    assert!(Lexicon::new(false, gold, b"XXXX00000000").is_err());
    let mut broken = gold.to_vec();
    let n = broken.len();
    broken[n - 1] = 0xff;
    let broken: &'static [u8] = Box::leak(broken.into_boxed_slice());
    assert!(Lexicon::new(false, broken, silver).is_err());
}

fn speech() -> std::sync::Arc<ProsodiaSpeech> {
    ProsodiaSpeech::new_with_options(lexicon(false), "\u{2753}".to_string(), None)
}

#[test]
fn sentences_are_read_end_to_end() {
    let tokens = speech().process_weighted("I read a book.", &[]).unwrap();
    let texts: Vec<&str> = tokens.iter().map(|t| t.text.as_str()).collect();
    assert_eq!(texts, vec!["I", "read", "a", "book", "."]);
    for t in &tokens {
        assert!(t.phonemes.is_some());
    }
    assert_eq!(tokens[1].tag, "VB");
    assert_eq!(tokens[1].phonemes.as_deref(), Some("\u{279}\u{2c8}id"));
    assert_eq!(tokens[3].phonemes.as_deref(), Some("b\u{2c8}\u{28a}k"));
    assert_eq!(tokens[4].phonemes.as_deref(), Some("."));
}

#[test]
fn past_reading_and_overrides_end_to_end() {
    let tokens = speech().process_weighted("I read it yesterday.", &[]).unwrap();
    assert_eq!(tokens[1].tag, "VBD");
    assert_eq!(tokens[1].phonemes.as_deref(), Some("\u{279}\u{2c8}\u{25b}d"));
    let tokens = speech().process_weighted("a [cat](/dog/) walk", &[None]).unwrap();
    assert_eq!(tokens[1].text, "cat");
    assert_eq!(tokens[1].phonemes.as_deref(), Some("dog"));
    assert_eq!(tokens[2].phonemes.as_deref(), Some("w\u{2c8}\u{254}k"));
}

#[test]
fn unknown_words_read_as_the_unknown_mark() {
    let tokens = speech().process_weighted("zzqx", &[]).unwrap();
    assert_eq!(tokens.len(), 1);
    assert_eq!(tokens[0].phonemes, None);
}
