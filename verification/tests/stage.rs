use prosodia::coordinator::{same_speaker, NarrationQueue, QueueStep};
use prosodia::payload::{directive_blocks, DirectiveBlock};
use prosodia::segmenter::{needs_boundary_pause, NarrationGrouping};

fn block(v: &str, a: &str, t: &str, text: &str) -> DirectiveBlock {
    DirectiveBlock { valence: v.to_string(), arousal: a.to_string(), tension: t.to_string(), text: text.to_string() }
}

fn render(step: QueueStep) -> Option<String> {
    match step {
        QueueStep::Render(p) => Some(p),
        _ => None,
    }
}

#[test]
fn payload_blocks_carry_their_numbers_and_text() {
    let payload = "intro [V: 0.50 A: -0.20 T: 0.10] Hello there. [V: -1.00 A: 0.00 T: 0.90 LK: Bob] Who?";
    assert_eq!(
        directive_blocks(payload).unwrap(),
        vec![block("0.50", "-0.20", "0.10", "Hello there."), block("-1.00", "0.00", "0.90", "Who?")]
    );
}

#[test]
fn payloads_without_readable_blocks_give_nothing() {
    assert_eq!(directive_blocks("no directives"), None);
    assert_eq!(directive_blocks("[V: x] text"), None);
    assert_eq!(directive_blocks("[V: 0.1 A: 0.2 T: 0.3 unclosed"), None);
    let partial = directive_blocks("[V: 0.1 A: 0.2 T: 0.3] one [V: bad] two").unwrap();
    assert_eq!(partial, vec![block("0.1", "0.2", "0.3", "one")]);
}

#[test]
fn test_apply_boundary_mitigations_decision() {
    // A narrator's "He said, " followed by Alice's line takes a pause.
    assert!(needs_boundary_pause("He said, ", &None, &Some("Alice".to_string())));
    assert!(!needs_boundary_pause("He said, ", &Some("Alice".to_string()), &Some("Alice".to_string())));
    assert!(needs_boundary_pause("\u{201c}Stop!\u{201d} ", &Some("Bob".to_string()), &None));
    assert!(!needs_boundary_pause("and then", &None, &Some("Alice".to_string())));
    assert!(!needs_boundary_pause("  \"'", &None, &Some("Alice".to_string())));
}

#[test]
fn speakers_compare_by_name() {
    assert!(same_speaker(&None, &None));
    assert!(same_speaker(&Some("A".to_string()), &Some("A".to_string())));
    assert!(!same_speaker(&Some("A".to_string()), &None));
}

#[test]
fn queue_fetches_groups_and_renders_in_order() {
    let mut q = NarrationQueue::new();
    assert!(matches!(q.next_step(), QueueStep::Fetch));
    q.receive(Some("One. Two.".to_string()), &NarrationGrouping::Sentence);
    assert_eq!(render(q.next_step()).as_deref(), Some("One."));
    assert_eq!(render(q.next_step()).as_deref(), Some("Two."));
    assert!(matches!(q.next_step(), QueueStep::Fetch));
    q.receive(None, &NarrationGrouping::Sentence);
    assert!(matches!(q.next_step(), QueueStep::Finished));
    assert!(q.drained());
    assert_eq!(q.take_emit_index(), 0);
    assert_eq!(q.take_emit_index(), 1);
    assert_eq!(q.emitted, 2);
    assert_eq!(q.take_produce_index(), 0);
}

#[test]
fn stopped_queue_renders_nothing() {
    let mut q = NarrationQueue::new();
    q.receive(Some("One.".to_string()), &NarrationGrouping::Sentence);
    q.stop();
    assert!(matches!(q.next_step(), QueueStep::Stopped));
    assert_eq!(q.chunk_buffer.len(), 1);
}

#[test]
fn speaker_turns_pause_after_the_first_chunk() {
    let mut q = NarrationQueue::new();
    assert!(!q.speaker_turn(&Some("Alice".to_string()), Some("Bob".to_string()), 0));
    assert_eq!(q.last_speaker.as_deref(), Some("Bob"));
    assert!(q.speaker_turn(&None, None, 1));
    assert!(!q.speaker_turn(&None, None, 2));
}

#[test]
fn rendering_ahead_waits_at_the_lookahead_limit() {
    let mut q = NarrationQueue::new();
    q.receive(Some("One. Two. Three.".to_string()), &NarrationGrouping::Sentence);
    assert_eq!(render(q.next_step_ahead(0, 2)).as_deref(), Some("One."));
    assert_eq!(render(q.next_step_ahead(1, 2)).as_deref(), Some("Two."));
    assert!(matches!(q.next_step_ahead(2, 2), QueueStep::Wait));
    assert_eq!(q.chunk_buffer.len(), 1);
    assert_eq!(render(q.next_step_ahead(1, 2)).as_deref(), Some("Three."));
    assert!(matches!(q.next_step_ahead(0, 2), QueueStep::Fetch));
    q.stop();
    assert!(matches!(q.next_step_ahead(5, 2), QueueStep::Stopped));
}
