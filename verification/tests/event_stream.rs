use agendao_server::event_stream::{LiveSnapshotCoalescer, OutputBlockView, StreamEvent};
use agendao_server::live_snapshot::{LiveSnapshotAccumulator, LivePartIdentity, LivePartKind, LivePartPhase};

fn block(text: &str, phase: Option<LivePartPhase>) -> StreamEvent {
    StreamEvent::OutputBlock(OutputBlockView {
        session_id: "s".to_string(),
        id: Some("b".to_string()),
        kind: Some("message".to_string()),
        phase: Some("delta".to_string()),
        role: Some("assistant".to_string()),
        text: Some(text.to_string()),
        detail: None,
        live_identity: phase.map(|phase| LivePartIdentity {
            message_id: "m".to_string(),
            part_key: "p".to_string(),
            part_kind: LivePartKind::AssistantText,
            phase,
        }),
    })
}

fn text_of(e: &StreamEvent) -> Option<String> {
    match e {
        StreamEvent::OutputBlock(b) => b.text.clone(),
        _ => None,
    }
}

#[test]
fn coalescer_turns_deltas_into_full_snapshots() {
    let mut c = LiveSnapshotCoalescer::new();
    let first = c.coalesce(block("Hel", Some(LivePartPhase::Append)));
    assert_eq!(text_of(&first).as_deref(), Some("Hel"));
    let second = c.coalesce(block("lo", Some(LivePartPhase::Append)));
    assert_eq!(text_of(&second).as_deref(), Some("Hello"));
    match &second {
        StreamEvent::OutputBlock(b) => {
            assert_eq!(b.phase.as_deref(), Some("full"));
            assert!(matches!(b.live_identity.as_ref().map(|i| i.phase), Some(LivePartPhase::Snapshot)));
        }
        _ => panic!("expected a block"),
    }
    let end = c.coalesce(block("", Some(LivePartPhase::End)));
    assert_eq!(text_of(&end).as_deref(), Some(""));
    let again = c.coalesce(block("New", Some(LivePartPhase::Append)));
    assert_eq!(text_of(&again).as_deref(), Some("New"));
}

#[test]
fn coalescer_counts_blocks_without_identity_only_with_telemetry() {
    let mut plain = LiveSnapshotCoalescer::new();
    plain.coalesce(block("x", None));
    assert_eq!(plain.missing_identities(), None);

    let mut counted = LiveSnapshotCoalescer::with_telemetry();
    assert_eq!(counted.missing_identities(), Some(0));
    let passed = counted.coalesce(block("x", None));
    assert_eq!(text_of(&passed).as_deref(), Some("x"));
    counted.coalesce(block("y", Some(LivePartPhase::Append)));
    counted.coalesce(StreamEvent::Usage { session_id: None });
    counted.coalesce(block("z", None));
    assert_eq!(counted.missing_identities(), Some(2));
}

#[test]
fn an_updated_part_is_held_until_it_ends() {
    let mut acc = LiveSnapshotAccumulator::new();
    assert!(acc.is_empty());
    let id = |phase| LivePartIdentity { message_id: "m".to_string(), part_key: "p".to_string(), part_kind: LivePartKind::AssistantText, phase };
    assert_eq!(acc.update("s", &id(LivePartPhase::Append), "Hel"), Some("Hel".to_string()));
    assert!(acc.contains_key("s:m:p"));
    assert!(!acc.is_empty());
    assert_eq!(acc.len(), 1);
    assert_eq!(acc.update("s", &id(LivePartPhase::Snapshot), "Hello"), Some("Hello".to_string()));
    assert_eq!(acc.update("s", &id(LivePartPhase::End), ""), None);
    assert!(acc.is_empty());
}
