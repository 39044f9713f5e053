use prosodia::normalization::{link_features, parse_feature, preprocess, FeatureSpan, FeatureSpanKind};
use prosodia::phonemes::{StressLevel, StressWeight};
use prosodia::tagger::{tokenize_and_tag, var_refine_read, InternalMToken};

fn weight(v: f64) -> StressWeight {
    let level = if v > 1.0 {
        StressLevel::AboveOne
    } else if v == 1.0 {
        StressLevel::One
    } else if v > 0.5 {
        StressLevel::BetweenHalfAndOne
    } else if v == 0.5 {
        StressLevel::Half
    } else if v > 0.0 {
        StressLevel::BetweenZeroAndHalf
    } else if v == 0.0 {
        StressLevel::Zero
    } else if v > -0.5 {
        StressLevel::BetweenMinusHalfAndZero
    } else if v == -0.5 {
        StressLevel::MinusHalf
    } else if v > -1.0 {
        StressLevel::BetweenMinusOneAndMinusHalf
    } else if v == -1.0 {
        StressLevel::MinusOne
    } else {
        StressLevel::BelowMinusOne
    };
    StressWeight { level, key: v.to_bits() }
}

fn weights_for(text: &str) -> Vec<Option<StressWeight>> {
    link_features(text).unwrap().iter().map(|f| f.parse::<f64>().ok().map(weight)).collect()
}

fn tags(text: &str) -> Vec<(String, String, String)> {
    tokenize_and_tag(text, &[]).into_iter().map(|t| (t.text, t.tag, t.whitespace)).collect()
}

fn tag_of_read(text: &str) -> String {
    tokenize_and_tag(text, &[]).into_iter().find(|t| t.text == "read").unwrap().tag
}

#[test]
fn test_markdown_preprocessing() {
    let text = "This is [stressed](1.5) and [override](/wˈɜːd/) and [123](#n#).";
    let prep = preprocess(text, &weights_for(text)).unwrap();
    assert_eq!(prep.text, "This is stressed and override and 123.");
    assert_eq!(prep.feature_spans.len(), 3);

    assert_eq!(prep.feature_spans[0].kind, FeatureSpanKind::Stress(weight(1.5)));
    assert_eq!(&prep.text[prep.feature_spans[0].range.clone()], "stressed");

    assert_eq!(prep.feature_spans[1].kind, FeatureSpanKind::PhonemeOverride("wˈɜːd".to_string()));
    assert_eq!(&prep.text[prep.feature_spans[1].range.clone()], "override");

    assert_eq!(prep.feature_spans[2].kind, FeatureSpanKind::NumFlags("n".to_string()));
    assert_eq!(&prep.text[prep.feature_spans[2].range.clone()], "123");
}

#[test]
fn test_tagger_and_homograph_read() {
    assert_eq!(tag_of_read("I will read the book."), "VB");
    assert_eq!(tag_of_read("I read the book yesterday."), "VBD");
    assert_eq!(tag_of_read("I have read the book."), "VBN");
}

#[test]
fn tokens_carry_their_trailing_whitespace() {
    assert_eq!(
        tags("  Hello,  world!"),
        vec![
            ("Hello".to_string(), "NNP".to_string(), "".to_string()),
            (",".to_string(), ",".to_string(), "  ".to_string()),
            ("world".to_string(), "NN".to_string(), "".to_string()),
            ("!".to_string(), ".".to_string(), "".to_string()),
        ]
    );
}

#[test]
fn apostrophes_join_words_and_dashes_run_together() {
    let t = tags("don't -- re_do");
    let texts: Vec<&str> = t.iter().map(|x| x.0.as_str()).collect();
    assert_eq!(texts, vec!["don't", "--", "re", "_", "do"]);
    assert_eq!(t[1].1, "NFP");
}

#[test]
fn quotes_open_after_space_and_close_after_words() {
    let t = tags("say \"hi\" now");
    assert_eq!(t[1], ("\"".to_string(), "``".to_string(), "".to_string()));
    assert_eq!(t[3], ("\"".to_string(), "''".to_string(), " ".to_string()));
    let t = tags("'tis");
    assert_eq!(t[0].1, "``");
}

#[test]
fn read_takes_the_tense_of_its_subject() {
    assert_eq!(tag_of_read("She read it."), "VBD");
    assert_eq!(tag_of_read("John read it."), "VBD");
    assert_eq!(tag_of_read("They read it."), "VB");
    assert_eq!(tag_of_read("They read it long ago."), "VBD");
    assert_eq!(tag_of_read("You must read it."), "VB");
    assert_eq!(tag_of_read("Then read it."), "VBD");
    assert_eq!(tag_of_read("It was read."), "VBN");
}

#[test]
fn features_apply_to_the_tokens_they_cover() {
    let spans = vec![
        FeatureSpan { range: 0..5, kind: FeatureSpanKind::Stress(weight(2.0)) },
        FeatureSpan { range: 6..15, kind: FeatureSpanKind::PhonemeOverride("xy".to_string()) },
        FeatureSpan { range: 16..18, kind: FeatureSpanKind::NumFlags("&".to_string()) },
    ];
    let t = tokenize_and_tag("hello big world 42", &spans);
    assert_eq!(t.len(), 4);
    assert_eq!(t[0].underscore.stress, Some(weight(2.0)));
    assert_eq!(t[1].phonemes, Some("xy".to_string()));
    assert!(t[1].underscore.is_head);
    assert_eq!(t[1].underscore.rating, Some(5));
    assert_eq!(t[2].phonemes, Some(String::new()));
    assert!(!t[2].underscore.is_head);
    assert_eq!(t[3].underscore.num_flags, "&");
    assert_eq!(t[3].underscore.stress, None);
}

#[test]
fn var_refine_read_looks_three_words_back() {
    let mut ts = vec![
        InternalMToken::new("had".to_string(), "VBD".to_string(), " ".to_string()),
        InternalMToken::new("not".to_string(), "NN".to_string(), " ".to_string()),
        InternalMToken::new("yet".to_string(), "CC".to_string(), " ".to_string()),
        InternalMToken::new("really".to_string(), "NN".to_string(), " ".to_string()),
        InternalMToken::new("read".to_string(), "VBD".to_string(), "".to_string()),
    ];
    var_refine_read(&mut ts, 4);
    // `had` is four words back; `really` is a noun subject.
    assert_eq!(ts[4].tag, "VBD");
    ts[1] = InternalMToken::new("has".to_string(), "VBZ".to_string(), " ".to_string());
    var_refine_read(&mut ts, 4);
    assert_eq!(ts[4].tag, "VBN");
}

#[test]
fn features_read_as_weights_phonemes_or_flags() {
    assert_eq!(parse_feature("0.5", Some(weight(0.5))), Some(FeatureSpanKind::Stress(weight(0.5))));
    assert_eq!(parse_feature("/ab/", None), Some(FeatureSpanKind::PhonemeOverride("ab".to_string())));
    assert_eq!(parse_feature("//", None), Some(FeatureSpanKind::PhonemeOverride(String::new())));
    assert_eq!(parse_feature("#a#", None), Some(FeatureSpanKind::NumFlags("a".to_string())));
    assert_eq!(parse_feature("/", None), None);
    assert_eq!(parse_feature("word", None), None);
}

#[test]
fn links_without_features_keep_their_text() {
    let text = "   a [b](c) d [e]() f";
    assert_eq!(link_features(text).unwrap(), vec!["c".to_string(), String::new()]);
    let prep = preprocess(text, &weights_for(text)).unwrap();
    assert_eq!(prep.text, "a b d e f");
    assert!(prep.feature_spans.is_empty());
    let plain = preprocess("no links here", &[]).unwrap();
    assert_eq!(plain.text, "no links here");
}

#[test]
fn span_ranges_count_chars() {
    let text = "é [ü](#x#)";
    let prep = preprocess(text, &weights_for(text)).unwrap();
    assert_eq!(prep.text, "é ü");
    assert_eq!(prep.feature_spans[0].range, 2..3);
}
