use prosodia::director_annotation::{align_span_texts, words_match};
use prosodia::g2p::{case_weight, subtokenize};
use prosodia::lexicon::{is_all_uppercase, split_lowercase_words, TokenContext};
use prosodia::model_files::{
    default_timesteps, is_graph_file, is_phoneme_input_name, is_split_model_dir,
    token_limit_from_tensor,
};
use prosodia::tagger::{is_title_case, map_tag};
use prosodia::voice_loader::{count_in_vocab, trim_leading_whitespace, trim_trailing_whitespace};

fn strs(v: &[&str]) -> Vec<String> {
    v.iter().map(|s| s.to_string()).collect()
}

#[test]
fn tags_for_marks_numbers_and_punctuation() {
    assert_eq!(map_tag("$"), "$");
    assert_eq!(map_tag("\u{a3}"), "$");
    assert_eq!(map_tag("#"), "#");
    assert_eq!(map_tag("42"), "CD");
    assert_eq!(map_tag("3rd"), "CD");
    assert_eq!(map_tag(","), ",");
    assert_eq!(map_tag("!"), ".");
    assert_eq!(map_tag("\u{2014}"), ":");
    assert_eq!(map_tag("("), "-LRB-");
    assert_eq!(map_tag(")"), "-RRB-");
    assert_eq!(map_tag("\u{201c}"), "``");
    assert_eq!(map_tag("..."), "NFP");
    assert_eq!(map_tag(""), "NFP");
}

#[test]
fn tags_for_closed_and_open_class_words() {
    assert_eq!(map_tag("The"), "DT");
    assert_eq!(map_tag("THEY"), "PRP");
    assert_eq!(map_tag("to"), "TO");
    assert_eq!(map_tag("Of"), "IN");
    assert_eq!(map_tag("and"), "CC");
    assert_eq!(map_tag("NASA"), "NNP");
    assert_eq!(map_tag("London"), "NNP");
    assert_eq!(map_tag("walked"), "VBD");
    assert_eq!(map_tag("running"), "VBG");
    assert_eq!(map_tag("cats"), "VBZ");
    assert_eq!(map_tag("NASAS"), "VBZ");
    assert_eq!(map_tag("tree"), "NN");
}

#[test]
fn title_case_and_all_uppercase() {
    assert!(is_title_case("London"));
    assert!(!is_title_case("LOndon"));
    assert!(!is_title_case(""));
    assert!(is_all_uppercase("ABC"));
    assert!(!is_all_uppercase("AbC"));
    assert!(!is_all_uppercase(""));
    assert!(prosodia::tagger::is_all_uppercase("NASA"));
}

#[test]
fn words_split_into_lookup_pieces() {
    assert_eq!(subtokenize(""), Vec::<String>::new());
    assert_eq!(subtokenize("don't"), strs(&["don't"]));
    assert_eq!(subtokenize("'tis"), strs(&["'", "tis"]));
    assert_eq!(subtokenize("rock'n'roll"), strs(&["rock'n'roll"]));
    assert_eq!(subtokenize("camelCase"), strs(&["camel", "Case"]));
    assert_eq!(subtokenize("HTMLParser"), strs(&["HTML", "Parser"]));
    assert_eq!(subtokenize("self-driving"), strs(&["self", "-", "driving"]));
    assert_eq!(subtokenize("3.14"), strs(&["3.14"]));
    assert_eq!(subtokenize("1,000"), strs(&["1,000"]));
    assert_eq!(subtokenize("v2"), strs(&["v", "2"]));
    assert_eq!(subtokenize("a_b__c"), strs(&["a", "_", "b", "__", "c"]));
    assert_eq!(subtokenize("x!"), strs(&["x", "!"]));
    assert_eq!(subtokenize("cats''"), strs(&["cats", "''"]));
    assert_eq!(subtokenize("O'Neil"), strs(&["O'Neil"]));
}

#[test]
fn split_pieces_concatenate_to_the_word() {
    for w in ["Hello-World's 3.5x", "a''b", "--x__", "McDonald's", "ABCdef"] {
        let pieces = subtokenize(w);
        assert_eq!(pieces.concat(), w);
        assert!(pieces.iter().all(|p| !p.is_empty()));
    }
}

#[test]
fn case_weight_counts_capitals_twice() {
    assert_eq!(case_weight("ABc"), 5);
    assert_eq!(case_weight(""), 0);
}

#[test]
fn alphabetic_runs_and_token_context() {
    assert_eq!(split_lowercase_words("Hello, World 42x"), strs(&["Hello", "World", "x"]));
    assert_eq!(split_lowercase_words("  "), Vec::<String>::new());
    let c = TokenContext::default();
    assert_eq!(c.future_vowel, None);
    assert!(!c.future_to);
}

#[test]
fn whitespace_is_trimmed_across_token_boundaries() {
    let mut lead = vec![vec![' ', ' '], vec![' ', 'a', ' '], vec!['b']];
    trim_leading_whitespace(&mut lead);
    assert_eq!(lead, vec![vec![], vec!['a', ' '], vec!['b']]);
    let mut trail = vec![vec!['a'], vec![' ', 'b', ' '], vec![' ']];
    trim_trailing_whitespace(&mut trail);
    assert_eq!(trail, vec![vec!['a'], vec![' ', 'b'], vec![]]);
    let mut blank = vec![vec![' '], vec!['\t']];
    trim_leading_whitespace(&mut blank);
    assert_eq!(blank, vec![Vec::<char>::new(), vec![]]);
}

#[test]
fn vocabulary_counts_single_char_keys() {
    assert_eq!(count_in_vocab(&['a', 'b', 'c', 'a'], &strs(&["a", "c", "xy"])), 3);
    assert_eq!(count_in_vocab(&[], &strs(&["a"])), 0);
}

#[test]
fn annotated_words_match_ignoring_case_and_punctuation() {
    assert!(words_match("Hello, world!", "hello   WORLD"));
    assert!(!words_match("Hi there", "Hi where"));
    assert!(words_match("", "...!"));
}

#[test]
fn spans_are_laid_back_onto_the_passage() {
    let spans = strs(&["Hello,", "big world"]);
    assert_eq!(align_span_texts(&spans, "Hello,   big world!"), strs(&["Hello,", "big world!"]));
    let one = strs(&["x"]);
    assert_eq!(align_span_texts(&one, "  all of it  "), strs(&["all of it"]));
}

#[test]
fn split_model_directory_layout() {
    assert_eq!(default_timesteps(), 10);
    assert!(is_graph_file("matcha_textenc_v1.tflite", "matcha_textenc"));
    assert!(!is_graph_file("matcha_textenc_v1.onnx", "matcha_textenc"));
    let full = strs(&["config.json", "emb.bin", "matcha_textenc.tflite", "x"]);
    assert!(is_split_model_dir(true, &full));
    assert!(!is_split_model_dir(false, &full));
    assert!(!is_split_model_dir(true, &strs(&["config.json", "matcha_textenc.tflite"])));
}

#[test]
fn phoneme_inputs_and_their_token_limit() {
    assert!(is_phoneme_input_name("input_ids"));
    assert!(is_phoneme_input_name("x"));
    assert!(is_phoneme_input_name("text_len"));
    assert!(!is_phoneme_input_name("style"));
    assert_eq!(token_limit_from_tensor(2048, false), 510);
    assert_eq!(token_limit_from_tensor(4096, true), 510);
    assert_eq!(token_limit_from_tensor(4, false), 0);
}
