use futures::channel::oneshot::Sender;
use nuclei::epoll::{CtlOp, SysProactor};

const IN: i32 = 0x1;
const OUT: i32 = 0x4;
const ERR: i32 = 0x8;

#[test]
fn fresh_descriptor_is_added() {
    let p: SysProactor<u32> = SysProactor::new();
    assert_eq!(p.interest_op(5, IN), CtlOp::Add { fd: 5, events: IN });
}

#[test]
fn registered_descriptor_is_modified_with_union() {
    let mut p: SysProactor<u32> = SysProactor::new();
    assert_eq!(p.register_io(5, IN, Ok::<(), i32>(()), 1), Ok(()));
    assert_eq!(p.interest_op(5, OUT), CtlOp::Modify { fd: 5, events: IN | OUT });
}

#[test]
fn failed_control_operation_changes_nothing() {
    let mut p: SysProactor<u32> = SysProactor::new();
    assert_eq!(p.register_io(5, IN, Err::<(), i32>(9), 1), Err(9));
    assert_eq!(p.interest_op(5, IN), CtlOp::Add { fd: 5, events: IN });
    let d = p.dequeue_events(5, IN);
    assert!(d.woken.is_empty());
    assert_eq!(d.ctl, None);
}

#[test]
fn readiness_wakes_matching_waiters_in_order() {
    let mut p: SysProactor<u32> = SysProactor::new();
    p.register_io(3, IN, Ok::<(), i32>(()), 10).unwrap();
    p.register_io(3, OUT, Ok::<(), i32>(()), 11).unwrap();
    p.register_io(3, IN, Ok::<(), i32>(()), 12).unwrap();
    // First waiter waits on IN, the later ones on IN | OUT.
    let d = p.dequeue_events(3, OUT);
    assert_eq!(d.events, OUT);
    assert_eq!(d.woken, vec![11, 12]);
    assert_eq!(d.ctl, Some(CtlOp::Modify { fd: 3, events: IN }));
    let d = p.dequeue_events(3, IN);
    assert_eq!(d.woken, vec![10]);
    assert_eq!(d.ctl, Some(CtlOp::Delete { fd: 3 }));
    // Nothing is left of descriptor 3.
    assert_eq!(p.interest_op(3, IN), CtlOp::Add { fd: 3, events: IN });
}

#[test]
fn unrelated_readiness_keeps_waiter() {
    let mut p: SysProactor<u32> = SysProactor::new();
    p.register_io(4, IN, Ok::<(), i32>(()), 1).unwrap();
    let d = p.dequeue_events(4, ERR);
    assert!(d.woken.is_empty());
    assert_eq!(d.ctl, Some(CtlOp::Modify { fd: 4, events: IN }));
    let d = p.dequeue_events(4, IN | ERR);
    assert_eq!(d.woken, vec![1]);
    assert_eq!(d.ctl, Some(CtlOp::Delete { fd: 4 }));
}

#[test]
fn unknown_descriptor_is_ignored() {
    let mut p: SysProactor<u32> = SysProactor::new();
    let d = p.dequeue_events(42, IN);
    assert!(d.woken.is_empty());
    assert_eq!(d.ctl, None);
}

#[test]
fn wait_skips_waker_and_dispatches_reports() {
    let mut p: SysProactor<u32> = SysProactor::new();
    p.register_io(6, IN, Ok::<(), i32>(()), 60).unwrap();
    p.register_io(7, OUT, Ok::<(), i32>(()), 70).unwrap();
    let out = p.wait(&vec![(0, IN), (7, OUT), (6, IN)]);
    assert_eq!(out.len(), 2);
    assert_eq!(out[0].events, OUT);
    assert_eq!(out[0].woken, vec![70]);
    assert_eq!(out[0].ctl, Some(CtlOp::Delete { fd: 7 }));
    assert_eq!(out[1].woken, vec![60]);
    assert_eq!(out[1].ctl, Some(CtlOp::Delete { fd: 6 }));
}

#[test]
fn wait_with_only_waker_handles_nothing() {
    let mut p: SysProactor<u32> = SysProactor::new();
    p.register_io(6, IN, Ok::<(), i32>(()), 60).unwrap();
    let out = p.wait(&vec![(0, IN)]);
    assert!(out.is_empty());
    let d = p.dequeue_events(6, IN);
    assert_eq!(d.woken, vec![60]);
}

#[test]
fn completion_channel_receives_readiness() {
    let mut p: SysProactor<Sender<i32>> = SysProactor::new();
    let mut rx = p.register_completion(9, IN | OUT, Ok::<(), i32>(())).unwrap().into_receiver();
    assert_eq!(rx.try_recv(), Ok(None));
    assert_eq!(p.complete_events(9, OUT), Some(CtlOp::Modify { fd: 9, events: IN }));
    assert_eq!(rx.try_recv(), Ok(Some(OUT)));
}

#[test]
fn failed_control_operation_makes_no_channel() {
    let mut p: SysProactor<Sender<i32>> = SysProactor::new();
    assert!(matches!(p.register_completion(9, IN, Err::<(), i32>(4)), Err(4)));
    assert_eq!(p.interest_op(9, IN), CtlOp::Add { fd: 9, events: IN });
}

#[test]
fn completed_reports_reach_their_channels() {
    let mut p: SysProactor<Sender<i32>> = SysProactor::new();
    let mut a = p.register_completion(6, IN, Ok::<(), i32>(())).unwrap().into_receiver();
    let mut b = p.register_completion(7, OUT, Ok::<(), i32>(())).unwrap().into_receiver();
    let ctls = p.complete_reports(&vec![(0, IN), (7, OUT | ERR), (6, IN)]);
    assert_eq!(
        ctls,
        vec![Some(CtlOp::Delete { fd: 7 }), Some(CtlOp::Delete { fd: 6 })]
    );
    assert_eq!(b.try_recv(), Ok(Some(OUT | ERR)));
    assert_eq!(a.try_recv(), Ok(Some(IN)));
}

#[test]
fn dropped_receiver_does_not_disturb_completion() {
    let mut p: SysProactor<Sender<i32>> = SysProactor::new();
    let rx = p.register_completion(3, IN, Ok::<(), i32>(())).unwrap().into_receiver();
    drop(rx);
    assert_eq!(p.complete_events(3, IN), Some(CtlOp::Delete { fd: 3 }));
}

#[test]
fn full_readiness_undoes_registration() {
    let mut p: SysProactor<u32> = SysProactor::new();
    p.register_io(8, IN | OUT, Ok::<(), i32>(()), 80).unwrap();
    let d = p.dequeue_events(8, IN | OUT | ERR);
    assert_eq!(d.woken, vec![80]);
    assert_eq!(d.ctl, Some(CtlOp::Delete { fd: 8 }));
    assert_eq!(p.interest_op(8, OUT), CtlOp::Add { fd: 8, events: OUT });
    let d = p.dequeue_events(8, IN);
    assert!(d.woken.is_empty());
    assert_eq!(d.ctl, None);
}
