use sglang_srt::recurrent_state::{RecurrentStateSlotError, RecurrentStateSlots};
use sglang_srt::types::RequestId;

#[test]
fn batch_assignment_reuses_requests_and_released_slots() {
    let mut slots = RecurrentStateSlots::new(2).expect("slot pool should initialize");
    let first = slots
        .assign_batch(&[RequestId::from("request-a"), RequestId::from("request-b")])
        .expect("first batch should fit");
    assert_eq!(first.slots(), &[0, 1]);
    assert_eq!(first.newly_assigned(), &[0, 1]);

    let reused = slots
        .assign_batch(&[RequestId::from("request-b")])
        .expect("existing request should reuse its slot");
    assert_eq!(reused.slots(), &[1]);
    assert!(reused.newly_assigned().is_empty());

    assert_eq!(slots.release(&RequestId::from("request-a")), Some(0));
    let replacement = slots
        .assign_batch(&[RequestId::from("request-c")])
        .expect("released slot should be reusable");
    assert_eq!(replacement.slots(), &[0]);
    assert_eq!(replacement.newly_assigned(), &[0]);
}

#[test]
fn batch_assignment_is_atomic_on_duplicate_or_exhaustion() {
    let mut slots = RecurrentStateSlots::new(1).expect("slot pool should initialize");
    let duplicate = slots
        .assign_batch(&[RequestId::from("same"), RequestId::from("same")])
        .expect_err("duplicate requests must fail");
    assert_eq!(
        duplicate,
        RecurrentStateSlotError::DuplicateRequest("same".to_string())
    );

    let exhausted = slots
        .assign_batch(&[RequestId::from("first"), RequestId::from("second")])
        .expect_err("oversized batch must fail without partial assignment");
    assert_eq!(
        exhausted,
        RecurrentStateSlotError::Exhausted {
            capacity: 1,
            assigned: 0,
            requested: 2,
        }
    );
    let assigned = slots
        .assign_batch(&[RequestId::from("second")])
        .expect("failed batch must leave the only slot available");
    assert_eq!(assigned.slots(), &[0]);
}

#[test]
fn slot_pools_need_room() {
    assert_eq!(
        RecurrentStateSlots::new(0).expect_err("no slots"),
        RecurrentStateSlotError::ZeroCapacity
    );
    let mut slots = RecurrentStateSlots::new(2).expect("pool");
    assert_eq!(slots.release(&RequestId::from("unknown")), None);
}
