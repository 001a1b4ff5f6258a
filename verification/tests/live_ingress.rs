use agendao_server::api_error::ApiError;
use agendao_server::live_ingress::{
    append_if_present, drain, merge_batch_parts, open, order_batch_items, stage_step, supports, BatchItem,
    IngressInfo, LiveBatch, StageNext, StageOutcome, StagePoint,
};

fn ingress(session: &str, turn: &str, received: i64, key: Option<&str>) -> IngressInfo {
    IngressInfo {
        session_id: session.to_string(),
        source: "web".to_string(),
        context_key: Some("session_prompt".to_string()),
        command: None,
        turn_id: turn.to_string(),
        received_at_ms: received,
        idempotency_key: key.map(str::to_string),
    }
}

#[test]
fn live_web_ingress_batch_merges_parts_in_order() {
    let mut slot: Option<LiveBatch<&str>> = None;
    let now_ms = 1_000;
    let owner = open(&mut slot, ingress("s", "web_1", now_ms, None), vec!["first"], now_ms)
        .expect("leader batch should open");
    assert_eq!(owner, "web_1");
    assert!(append_if_present(&mut slot, ingress("s", "web_2", now_ms + 10, None), vec!["second"], now_ms + 10));

    let batch = drain(&mut slot, &owner).expect("batch should drain");
    assert!(slot.is_none());
    let items = order_batch_items(batch.items);
    let parts = merge_batch_parts(items);
    assert_eq!(parts, vec!["first", "second"]);
}

#[test]
fn live_web_ingress_batch_does_not_accept_command_turns() {
    let mut slot: Option<LiveBatch<&str>> = None;
    let mut command = ingress("s", "web_cmd", 1_000, None);
    command.command = Some("new".to_string());
    assert!(!supports(&command));
    assert!(!append_if_present(&mut slot, ingress_with_command(), vec!["/new"], 1_000));
    assert!(open(&mut slot, command, vec!["/new"], 1_000).is_none());
    assert!(slot.is_none());
}

fn ingress_with_command() -> IngressInfo {
    let mut i = ingress("s", "web_cmd", 1_000, None);
    i.command = Some("new".to_string());
    i
}

#[test]
fn stale_or_foreign_batches_are_dropped() {
    let mut slot: Option<LiveBatch<&str>> = None;
    let owner = open(&mut slot, ingress("s", "t1", 0, None), vec!["a"], 0).unwrap();
    assert!(!append_if_present(&mut slot, ingress("s", "t2", 251, None), vec!["b"], 251));
    assert!(slot.is_none());
    assert!(drain(&mut slot, &owner).is_none());

    let owner = open(&mut slot, ingress("s", "t3", 0, None), vec!["a"], 0).unwrap();
    assert!(!append_if_present(&mut slot, ingress("other", "t4", 10, None), vec!["b"], 10));
    assert!(slot.is_none());
    let _ = owner;
}

#[test]
fn drain_keeps_a_batch_owned_by_another_turn() {
    let mut slot: Option<LiveBatch<&str>> = None;
    open(&mut slot, ingress("s", "t1", 0, None), vec!["a"], 0).unwrap();
    assert!(drain(&mut slot, "t9").is_none());
    assert!(slot.is_some());
}

#[test]
fn batch_items_order_by_receipt_then_turn_and_skip_repeated_keys() {
    let items = vec![
        BatchItem { ingress: ingress("s", "b", 20, Some("k1")), parts: vec!["late"] },
        BatchItem { ingress: ingress("s", "a", 10, Some("k1")), parts: vec!["early"] },
        BatchItem { ingress: ingress("s", "c", 20, None), parts: vec!["tie"] },
        BatchItem { ingress: ingress("s", "a2", 10, Some("k2")), parts: vec!["second", "part"] },
    ];
    let ordered = order_batch_items(items);
    let turns: Vec<_> = ordered.iter().map(|i| i.ingress.turn_id.clone()).collect();
    assert_eq!(turns, vec!["a", "a2", "b", "c"]);
    assert_eq!(merge_batch_parts(ordered), vec!["early", "second", "part", "tie"]);
}

fn finished(next: StageNext) -> Result<StageOutcome, ApiError> {
    match next {
        StageNext::Finish(result) => result,
        StageNext::Reserve => panic!("expected staging to finish"),
    }
}

#[test]
fn staging_reserves_then_leads_and_later_prompts_follow() {
    let mut slot: Option<LiveBatch<&str>> = None;
    let step = stage_step(StagePoint::Arrived, "s", true, &mut slot, ingress("s", "t1", 1_000, None), vec!["a"], 1_000);
    assert!(matches!(step.next, StageNext::Reserve));
    assert!(step.persist && !step.release);
    assert!(slot.is_none());

    let step = stage_step(StagePoint::ReservationGranted, "s", true, &mut slot, ingress("s", "t1", 1_000, None), vec!["a"], 1_000);
    assert_eq!(finished(step.next), Ok(StageOutcome::Leader("t1".to_string())));
    assert!(step.persist && !step.release);
    assert_eq!(slot.as_ref().map(|b| b.owner_turn_id.as_str()), Some("t1"));

    let step = stage_step(StagePoint::Arrived, "s", true, &mut slot, ingress("s", "t2", 1_100, None), vec!["b"], 1_100);
    assert_eq!(finished(step.next), Ok(StageOutcome::Follower));
    assert_eq!(slot.as_ref().map(|b| b.items.len()), Some(2));
}

#[test]
fn staging_answers_refusals_and_missing_sessions() {
    let mut slot: Option<LiveBatch<&str>> = None;
    let mut other = ingress("s", "t1", 0, None);
    other.source = "api".to_string();
    let step = stage_step(StagePoint::Arrived, "s", true, &mut slot, other, vec!["a"], 0);
    assert_eq!(finished(step.next), Ok(StageOutcome::Bypass));
    assert!(!step.persist);

    let step = stage_step(StagePoint::Arrived, "gone", false, &mut slot, ingress("gone", "t1", 0, None), vec!["a"], 0);
    assert_eq!(finished(step.next), Err(ApiError::SessionNotFound("gone".to_string())));

    let step = stage_step(
        StagePoint::ReservationRefused("session is busy".to_string()),
        "s",
        true,
        &mut slot,
        ingress("s", "t1", 0, None),
        vec!["a"],
        0,
    );
    assert_eq!(finished(step.next), Err(ApiError::BadRequest("session is busy".to_string())));
    assert!(!step.persist);

    let step = stage_step(StagePoint::ReservationGranted, "s", false, &mut slot, ingress("s", "t1", 0, None), vec!["a"], 0);
    assert!(step.release);
    assert_eq!(finished(step.next), Err(ApiError::SessionNotFound("s".to_string())));
    assert!(slot.is_none());
}

#[test]
fn a_prompt_that_joins_after_its_reservation_releases_it() {
    let mut slot: Option<LiveBatch<&str>> = None;
    open(&mut slot, ingress("s", "t1", 0, None), vec!["a"], 0).unwrap();
    let step = stage_step(StagePoint::ReservationGranted, "s", true, &mut slot, ingress("s", "t2", 5, None), vec!["b"], 5);
    assert_eq!(finished(step.next), Ok(StageOutcome::Follower));
    assert!(step.release && step.persist);
    assert_eq!(slot.as_ref().map(|b| b.items.len()), Some(2));
}
