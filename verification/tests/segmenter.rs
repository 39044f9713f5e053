use prosodia::segmenter::{split_sentences, NarrationGrouping, SentenceSegmenter};

#[test]
fn test_split_sentences_basic() {
    let text = "Hello world! This is a test. Mr. Smith went to Google.com (or was it yahoo?).";
    let res = split_sentences(text);
    assert_eq!(res.len(), 3);
    assert_eq!(res[0], "Hello world!");
    assert_eq!(res[1], "This is a test.");
    assert_eq!(res[2], "Mr. Smith went to Google.com (or was it yahoo?).");
}

#[test]
fn test_split_sentences_quotes() {
    let text = "He said, \"No way!\" and left. \"What did you say?\" she asked.";
    let res = split_sentences(text);
    assert_eq!(res.len(), 2);
    assert_eq!(res[0], "He said, \"No way!\" and left.");
    assert_eq!(res[1], "\"What did you say?\" she asked.");
}

#[test]
fn test_narration_grouping_sentence() {
    let sents = vec!["One.".to_string(), "Two.".to_string(), "Three.".to_string()];
    let grouping = NarrationGrouping::Sentence;
    let res = grouping.group(&sents);
    assert_eq!(res.len(), 3);
    assert_eq!(res[0], "One.");
    assert_eq!(res[1], "Two.");
    assert_eq!(res[2], "Three.");
}

#[test]
fn test_narration_grouping_paragraph() {
    let sents = vec![
        "Short sentence.".to_string(),
        "Another short sentence.".to_string(),
        "This is a longer sentence to trigger grouping limit.".to_string(),
    ];
    let grouping = NarrationGrouping::Paragraph { target_characters: 30 };
    let res = grouping.group(&sents);
    assert_eq!(res.len(), 2);
    assert_eq!(res[0], "Short sentence. Another short sentence.");
    assert_eq!(res[1], "This is a longer sentence to trigger grouping limit.");
}

#[test]
fn split_sentences_keeps_decimals_initials_and_lowercase_continuations() {
    let res = split_sentences("Pi is 3.14 today. J. R. Tolkien wrote it. Wait... what? Yes!");
    assert_eq!(res, vec!["Pi is 3.14 today.", "J. R. Tolkien wrote it.", "Wait... what?", "Yes!"]);
}

#[test]
fn split_sentences_takes_closing_quotes_and_trailing_period() {
    let res = split_sentences("She left (quietly!). Then rain.");
    assert_eq!(res, vec!["She left (quietly!).", "Then rain."]);
}

#[test]
fn split_sentences_of_blank_text_is_empty() {
    assert!(split_sentences("").is_empty());
    assert!(split_sentences("   \n ").is_empty());
}

#[test]
fn split_sentences_trailing_fragment_is_kept_trimmed() {
    assert_eq!(split_sentences("  No terminal here  "), vec!["No terminal here"]);
}

#[test]
fn segmenter_object_splits_like_the_function() {
    let seg = SentenceSegmenter::new();
    assert_eq!(seg.sentences("A b. C d.".to_string()), vec!["A b.", "C d."]);
}

#[test]
fn paragraph_grouping_every_passage_but_the_last_reaches_the_target() {
    let sents: Vec<String> = vec!["aa.", "bb.", "cc.", "dd.", "e."].into_iter().map(String::from).collect();
    let res = NarrationGrouping::Paragraph { target_characters: 7 }.group(&sents);
    assert_eq!(res, vec!["aa. bb.", "cc. dd.", "e."]);
    assert_eq!(res.join(" "), sents.join(" "));
}
