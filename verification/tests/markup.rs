use prosodia::markup::{attribute_updates, markup_layout, AttributeUpdate};

#[derive(Clone, Debug, PartialEq)]
struct State {
    rate: f32,
    pitch: f32,
}

fn apply(attrs: &str, state: &mut State) {
    for u in attribute_updates(attrs).unwrap() {
        match u {
            AttributeUpdate::Rate { text, percent } => {
                if let Ok(v) = text.parse::<f32>() {
                    state.rate = if percent { v / 100.0 } else { v };
                }
            }
            AttributeUpdate::Pitch { text } => {
                if let Ok(v) = text.parse::<f32>() {
                    state.pitch = v;
                }
            }
        }
    }
}

fn parse_markup(input: &str) -> (String, Vec<State>) {
    let layout = markup_layout(input);
    let mut states: Vec<State> = Vec::new();
    for (k, origin) in layout.states.iter().enumerate() {
        let mut s = if k == 0 { State { rate: 1.0, pitch: 0.0 } } else { states[origin.parent].clone() };
        if let Some(a) = &origin.attributes {
            apply(a, &mut s);
        }
        states.push(s);
    }
    let per_char = layout.char_state.iter().map(|&k| states[k].clone()).collect();
    (layout.clean_text, per_char)
}

#[test]
fn test_parse_markup_plain() {
    let (clean_text, character_prosody) = parse_markup("Hello world");
    assert_eq!(clean_text, "Hello world");
    assert_eq!(character_prosody.len(), 11);
    for state in character_prosody {
        assert_eq!(state.rate, 1.0);
        assert_eq!(state.pitch, 0.0);
    }
}

#[test]
fn test_parse_markup_with_tags() {
    let input = "Hello <prosody rate=\"1.5\" pitch=\"+20Hz\">fast and high</prosody> normal";
    let (clean_text, character_prosody) = parse_markup(input);
    assert_eq!(clean_text, "Hello fast and high normal");
    for state in &character_prosody[0..6] {
        assert_eq!(state.rate, 1.0);
        assert_eq!(state.pitch, 0.0);
    }
    for state in &character_prosody[6..19] {
        assert_eq!(state.rate, 1.5);
        assert_eq!(state.pitch, 20.0);
    }
    for state in &character_prosody[19..26] {
        assert_eq!(state.rate, 1.0);
        assert_eq!(state.pitch, 0.0);
    }
}

#[test]
fn tags_nest_and_unknown_tags_copy_their_parent() {
    let layout = markup_layout("a<PROSODY rate=\"50%\">b<em>c</em>d</prosody>e");
    assert_eq!(layout.clean_text, "abcde");
    assert_eq!(layout.char_state, vec![0, 1, 2, 1, 0]);
    assert_eq!(layout.states.len(), 3);
    assert_eq!(layout.states[1].parent, 0);
    assert_eq!(layout.states[1].attributes.as_deref(), Some("rate=\"50%\""));
    assert_eq!(layout.states[2].parent, 1);
    assert_eq!(layout.states[2].attributes, None);
    let (_, states) = parse_markup("a<PROSODY rate=\"50%\">b</prosody>");
    assert_eq!(states[1].rate, 0.5);
}

#[test]
fn stray_brackets_are_text_and_extra_closings_keep_the_default() {
    let layout = markup_layout("</x>1 < 2");
    assert_eq!(layout.clean_text, "1 < 2");
    assert_eq!(layout.char_state, vec![0, 0, 0, 0, 0]);
    let layout = markup_layout("<prosody>x");
    assert_eq!(layout.states[1].attributes, None);
    assert_eq!(layout.char_state, vec![1]);
}

#[test]
fn attributes_read_rate_and_pitch_only() {
    let us = attribute_updates("RATE=\"80%\" volume=\"loud\" Pitch=\"-3HZ\" rate = \"x\"").unwrap();
    assert_eq!(
        us,
        vec![
            AttributeUpdate::Rate { text: "80".to_string(), percent: true },
            AttributeUpdate::Pitch { text: "-3".to_string() },
            AttributeUpdate::Rate { text: "x".to_string(), percent: false },
        ]
    );
    let mut s = State { rate: 1.0, pitch: 0.0 };
    apply("rate=\"2\" rate=\"fast\"", &mut s);
    assert_eq!(s.rate, 2.0);
}
