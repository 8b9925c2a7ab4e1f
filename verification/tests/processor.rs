use nuclei::processor::{Attempt, ConnectFailure, ConnectStart, ConnectStep, Processor, Wakeup};

const EAGAIN: i32 = 11;
const EWOULDBLOCK: i32 = 11;
const NOT_READY: i32 = EAGAIN | EWOULDBLOCK;
const EINPROGRESS: i32 = 115;
const EPOLLERR: i32 = 0x8;

#[test]
fn success_ends_operation() {
    assert_eq!(Processor::on_attempt(Ok::<usize, i32>(5), NOT_READY), Attempt::Done(Ok(5)));
}

#[test]
fn would_block_waits_for_readiness() {
    assert_eq!(Processor::on_attempt(Err::<usize, i32>(EAGAIN), NOT_READY), Attempt::AwaitReadiness);
}

#[test]
fn other_error_ends_operation() {
    assert_eq!(Processor::on_attempt(Err::<usize, i32>(32), NOT_READY), Attempt::Done(Err(32)));
}

#[test]
fn error_sharing_a_bit_with_retry_mask_waits() {
    // The test is on bits: EBADF (9) and ECONNRESET (104) share bits with EAGAIN (11).
    assert_eq!(Processor::on_attempt(Err::<usize, i32>(9), NOT_READY), Attempt::AwaitReadiness);
    assert_eq!(Processor::on_attempt(Err::<usize, i32>(104), NOT_READY), Attempt::AwaitReadiness);
    // EPIPE (32) shares none.
    assert_eq!(Processor::on_attempt(Err::<usize, i32>(32), NOT_READY), Attempt::Done(Err(32)));
}

#[test]
fn error_event_fetches_socket_error() {
    assert_eq!(Processor::on_readiness(0x1 | EPOLLERR, EPOLLERR), Wakeup::TakeError);
    assert_eq!(Processor::on_readiness(0x1, EPOLLERR), Wakeup::TryAgain);
}

#[test]
fn in_progress_connect_is_started() {
    assert_eq!(Processor::connect_started(Err(EINPROGRESS), EINPROGRESS), ConnectStart::InProgress);
    // ECONNREFUSED reported at once fails the connect.
    assert_eq!(Processor::connect_started(Err(111), EINPROGRESS), ConnectStart::Failed(111));
    assert_eq!(Processor::connect_started(Ok(()), EINPROGRESS), ConnectStart::Connected);
}

#[test]
fn connect_loop_takes_first_connection() {
    let mut tail: Option<i32> = None;
    let outcomes = vec![Err(1), Err(2), Ok("conn"), Err(3)];
    let mut result = None;
    for o in outcomes {
        match Processor::processor_connect(tail, o) {
            ConnectStep::Connected(c) => {
                result = Some(c);
                break;
            }
            ConnectStep::Next(t) => tail = t,
        }
    }
    assert_eq!(result, Some("conn"));
}

#[test]
fn connect_loop_reports_last_error() {
    let mut tail: Option<i32> = None;
    for o in vec![Err::<(), i32>(1), Err(2)] {
        match Processor::processor_connect(tail, o) {
            ConnectStep::Connected(_) => panic!("no address connects"),
            ConnectStep::Next(t) => tail = t,
        }
    }
    assert_eq!(Processor::connect_exhausted(tail), ConnectFailure::Attempt(2));
    assert_eq!(Processor::connect_exhausted::<i32>(None), ConnectFailure::NoAddress);
}
