use nuclei::completion_handler::CompletionHandler;
use nuclei::submission_handler::{settle, SubmissionHandler};

#[test]
fn empty_slot_takes_dispatcher() {
    let mut slot: Option<u32> = None;
    assert!(SubmissionHandler::<()>::handle_read(&mut slot, 7));
    assert_eq!(slot, Some(7));
}

#[test]
fn in_flight_operation_is_not_replaced() {
    let mut slot: Option<u32> = Some(1);
    assert!(!SubmissionHandler::<()>::handle_write(&mut slot, 2));
    assert_eq!(slot, Some(1));
    assert!(!CompletionHandler::<()>::handle_read(&mut slot, 3));
    assert_eq!(slot, Some(1));
}

#[test]
fn completed_operation_frees_slot() {
    let mut slot: Option<u32> = None;
    SubmissionHandler::<()>::handle_read(&mut slot, 1);
    assert_eq!(settle(&mut slot, Some(10usize)), Some(10));
    assert_eq!(slot, None);
    assert!(SubmissionHandler::<()>::handle_read(&mut slot, 2));
    assert_eq!(slot, Some(2));
}

#[test]
fn pending_operation_stays_for_next_poll() {
    let mut slot: Option<u32> = None;
    CompletionHandler::<()>::handle_read(&mut slot, 1);
    assert_eq!(settle::<u32, usize>(&mut slot, None), None);
    assert_eq!(slot, Some(1));
    assert!(!SubmissionHandler::<()>::handle_read(&mut slot, 2));
    assert_eq!(slot, Some(1));
}
