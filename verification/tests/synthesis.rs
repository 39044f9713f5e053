use prosodia::model_files::{input_role_of, InputRole};
use prosodia::model_files::is_matcha_graph;
use prosodia::pipeline::map_styletts2_to_matcha_ipa;
use prosodia::g2p::MToken;
use prosodia::synthesis::{markup_chunk, slot_ranges, spoken_phonemes, tokenize_phonemes, word_spans};

fn vocab() -> Vec<(String, i32)> {
    vec![
        ("h".to_string(), 1),
        ("\u{259}".to_string(), 2),
        ("l".to_string(), 3),
        ("O".to_string(), 4),
        ("o".to_string(), 5),
        ("\u{28a}".to_string(), 6),
        (" ".to_string(), 7),
    ]
}

fn tok(text: &str, tag: &str, ws: &str, phonemes: Option<&str>) -> MToken {
    MToken {
        text: text.to_string(),
        tag: tag.to_string(),
        whitespace: ws.to_string(),
        phonemes: phonemes.map(|p| p.to_string()),
    }
}

#[test]
fn phonemes_become_bounded_ids() {
    assert_eq!(tokenize_phonemes("h\u{259}lO", false, &vocab()), vec![0, 1, 2, 3, 4, 0]);
    assert_eq!(tokenize_phonemes("h\u{259}lO", true, &vocab()), vec![0, 1, 2, 3, 5, 6, 0]);
    assert_eq!(tokenize_phonemes("xyz", false, &vocab()), vec![0, 0]);
}

#[test]
fn tokens_fill_slots_in_order_up_to_the_end_marker() {
    let ts = vec![tok("Hi", "NNP", " ", Some("h\u{259}")), tok("all", "DT", "", Some("lO"))];
    assert_eq!(slot_ranges(&ts, false, &vocab(), 7), vec![(1, 4), (4, 6)]);
    assert_eq!(slot_ranges(&ts, false, &vocab(), 4), vec![(1, 3), (3, 3)]);
    assert_eq!(slot_ranges(&ts, false, &vocab(), 0), vec![(1, 1), (1, 1)]);
}

#[test]
fn words_are_placed_and_punctuation_is_not_stamped() {
    let ts = vec![tok(" Hi", "NNP", " ", Some("h\u{259}")), tok(".", ".", "", Some(".")), tok("x", "NN", "", None)];
    let spans = word_spans(&ts, 10);
    let view: Vec<(u32, u32, Option<String>)> = spans.into_iter().map(|s| (s.start_char, s.end_char, s.word)).collect();
    assert_eq!(view, vec![(10, 14, Some("Hi".to_string())), (14, 15, None), (15, 16, None)]);
}

#[test]
fn spoken_phonemes_join_and_trim() {
    let ts = vec![tok("a", "DT", " ", Some(" \u{259}")), tok("b", "NN", "  ", None)];
    assert_eq!(spoken_phonemes(&ts), "\u{259}");
}

#[test]
fn markup_chunks_carry_each_token_state_to_its_slots() {
    let ts = vec![tok("Hi", "NNP", " ", Some("h\u{259}")), tok("all", "DT", "", Some("Ol"))];
    let c = markup_chunk(&ts, 0, 3, false, &vocab());
    assert_eq!(c.next_offset, 6);
    assert_eq!(c.phonemes, "h\u{259} Ol");
    assert_eq!(c.fed, "h\u{259} Ol");
    assert_eq!(c.slot_states, vec![Some(0), Some(0), Some(0), None, None]);
    let m = markup_chunk(&ts, 0, 3, true, &vocab());
    assert_eq!(m.fed, "h\u{259} o\u{28a}l");
    assert_eq!(m.slot_states, vec![Some(0), Some(0), Some(0), None, None, None]);
    let blank = markup_chunk(&[tok(" ", ":", " ", Some(" "))], 5, 10, false, &vocab());
    assert_eq!(blank.phonemes, "");
    assert_eq!(blank.next_offset, 7);
    assert!(blank.slot_states.is_empty());
}

#[test]
fn matcha_spelling_is_char_by_char_and_settled() {
    let m = map_styletts2_to_matcha_ipa;
    assert_eq!(m("hˈAI"), "hˈeɪaɪ");
    assert_eq!(m("ʤɐᵻᵊ"), "dʒəɪə");
    let a = "bˈOt";
    let b = "ðQWY ʧ";
    assert_eq!(m(&format!("{a}{b}")), format!("{}{}", m(a), m(b)));
    assert_eq!(m(&m(b)), m(b));
    assert!(!m(b).chars().any(|c| "AIOQWYʤʧɐᵻᵊ".contains(c)));
}

#[test]
fn matcha_graphs_are_known_by_their_inputs() {
    let names = |v: &[&str]| v.iter().map(|s| s.to_string()).collect::<Vec<String>>();
    assert!(is_matcha_graph(&names(&["x", "serving_x_lengths:0", "scales"])));
    assert!(!is_matcha_graph(&names(&["x", "scales"])));
    assert!(!is_matcha_graph(&names(&["input_ids", "x_lengths", "scales"])));
    assert!(!is_matcha_graph(&names(&[])));
}

#[test]
fn graph_inputs_are_classified_by_name() {
    assert_eq!(input_role_of("x"), InputRole::Phonemes);
    assert_eq!(input_role_of("serving_x_lengths:0"), InputRole::XLengths);
    assert_eq!(input_role_of("scales"), InputRole::Scales);
    assert_eq!(input_role_of("input_ids"), InputRole::Phonemes);
    assert_eq!(input_role_of("ref_s"), InputRole::Style);
    assert_eq!(input_role_of("speed"), InputRole::Speed);
    assert_eq!(input_role_of("vat_speed"), InputRole::Unused);
    assert_eq!(input_role_of("emotion_vector"), InputRole::Vat);
    assert_eq!(input_role_of("duration_scales"), InputRole::DurationScales);
    assert_eq!(input_role_of("pitch_bias"), InputRole::F0Bias);
    assert_eq!(input_role_of("noise"), InputRole::Unused);
}
