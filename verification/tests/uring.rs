use crossbeam_channel::Sender;
use nuclei::iouring::SysProactor;

#[test]
fn ids_are_handed_out_in_order() {
    let mut p: SysProactor<&str> = SysProactor::new();
    assert_eq!(p.register_io("a"), 0);
    assert_eq!(p.register_io("b"), 1);
    assert_eq!(p.register_io("c"), 2);
}

#[test]
fn multishot_completion_keeps_sender() {
    let mut p: SysProactor<&str> = SysProactor::new();
    let id = p.register_io("accept");
    assert_eq!(p.cqe_completion_multi(id), Some(&"accept"));
    assert_eq!(p.cqe_completion_multi(id), Some(&"accept"));
    assert_eq!(p.cqe_completion_single(id), Some("accept"));
    assert_eq!(p.cqe_completion_single(id), None);
    assert_eq!(p.cqe_completion_multi(id), None);
}

#[test]
fn unknown_user_data_completes_nothing() {
    let mut p: SysProactor<&str> = SysProactor::new();
    p.register_io("x");
    assert_eq!(p.cqe_completion_single(99), None);
    assert_eq!(p.cqe_completion_single(0), Some("x"));
}

#[test]
fn completion_flags_decide_multishot_and_stop() {
    // IORING_CQE_F_MORE is 2, IORING_CQE_F_SOCK_NONEMPTY is 4.
    assert_eq!(SysProactor::<u8>::cqe_flags(0), (false, true));
    assert_eq!(SysProactor::<u8>::cqe_flags(2), (true, true));
    assert_eq!(SysProactor::<u8>::cqe_flags(4), (false, true));
    assert_eq!(SysProactor::<u8>::cqe_flags(6), (true, false));
    assert_eq!(SysProactor::<u8>::cqe_flags(7), (true, false));
}

#[test]
fn single_completion_reaches_channel_and_frees_id() {
    let mut p: SysProactor<Sender<i32>> = SysProactor::new();
    let (id, rx) = p.register_completion();
    let rx = rx.into_receiver();
    assert_eq!(id, 0);
    assert!(p.complete_entry(id, 42, 0));
    assert_eq!(rx.try_recv(), Ok(42));
    assert!(p.cqe_completion_single(id).is_none());
}

#[test]
fn multishot_completions_reach_channel_in_order() {
    let mut p: SysProactor<Sender<i32>> = SysProactor::new();
    let (_, _) = p.register_completion();
    let (id, rx) = p.register_completion();
    let rx = rx.into_receiver();
    assert_eq!(id, 1);
    // More completions follow and the socket still has data: keep reaping.
    assert!(!p.complete_entry(id, 7, 6));
    // More completions follow but the socket is drained: stop.
    assert!(p.complete_entry(id, 8, 2));
    // The last completion takes the sender out.
    assert!(p.complete_entry(id, -1, 0));
    assert_eq!(rx.try_recv(), Ok(7));
    assert_eq!(rx.try_recv(), Ok(8));
    assert_eq!(rx.try_recv(), Ok(-1));
    assert!(p.cqe_completion_multi(id).is_none());
}

#[test]
fn completion_for_unknown_id_is_dropped() {
    let mut p: SysProactor<Sender<i32>> = SysProactor::new();
    let (id, rx) = p.register_completion();
    let rx = rx.into_receiver();
    assert!(p.complete_entry(id + 5, 3, 0));
    assert!(rx.try_recv().is_err());
    assert!(p.cqe_completion_multi(id).is_some());
}

#[test]
fn reaping_pass_stops_at_first_stopping_entry() {
    let mut p: SysProactor<Sender<i32>> = SysProactor::new();
    let (a, ra) = p.register_completion();
    let ra = ra.into_receiver();
    let (b, rb) = p.register_completion();
    let rb = rb.into_receiver();
    // A multishot entry with the socket still non-empty, then the last
    // entry of `b`, which stops the pass; the entry after it is left.
    let entries = vec![(a, 1, 6), (b, 2, 0), (a, 3, 6)];
    assert_eq!(p.complete_entries(&entries), (2, true));
    assert_eq!(ra.try_recv(), Ok(1));
    assert!(ra.try_recv().is_err());
    assert_eq!(rb.try_recv(), Ok(2));
    assert!(p.cqe_completion_multi(a).is_some());
    assert!(p.cqe_completion_multi(b).is_none());
}

#[test]
fn reaping_pass_without_stop_consumes_every_entry() {
    let mut p: SysProactor<Sender<i32>> = SysProactor::new();
    let (a, ra) = p.register_completion();
    let ra = ra.into_receiver();
    assert_eq!(p.complete_entries(&vec![(a, 4, 6), (a, 5, 6)]), (2, false));
    assert_eq!(p.complete_entries(&vec![]), (0, false));
    assert_eq!(ra.try_recv(), Ok(4));
    assert_eq!(ra.try_recv(), Ok(5));
}

#[test]
fn further_receiver_handle_sees_completions() {
    let mut p: SysProactor<Sender<i32>> = SysProactor::new();
    let (id, ch) = p.register_completion();
    let rx = ch.get_rx();
    assert!(p.complete_entry(id, 17, 0));
    assert_eq!(rx.try_recv(), Ok(17));
}
