//! Decisions of the kqueue proactor backend on the receipts and events
//! that `kevent` returns, and the interest registry as that backend uses it:
//! events are `usize` bit sets, and a readiness report is dequeued with the
//! flags of its event.
use futures::channel::oneshot::Sender;
use vstd::prelude::*;

use crate::registry::{Interests, Registry};

verus! {

/// A receipt or event whose error flag is set carries an error number in
/// its data; zero and the tolerated numbers are no error.
pub open spec fn is_receipt_error(flags: u16, data: i64, ev_error: u16, tolerated: Seq<i64>) -> bool {
    flags & ev_error != 0 && data != 0 && !tolerated.contains(data)
}

/// What a returned kqueue event asks for.
#[derive(Clone, Copy, Debug, PartialEq, Eq, Structural)]
pub enum KqueueReport {
    /// The wait fails with this error number.
    Fail(i64),
    /// The waker fired: drain it and do not count the event.
    Waker,
    /// Readiness for a registered descriptor: dequeue it with these flags.
    Ready { ident: usize, flags: u16 },
}

/// The error number of the first receipt in `receipts` (flags, data) that
/// reports an error, if any.
pub open spec fn first_receipt_error(receipts: Seq<(u16, i64)>, ev_error: u16, tolerated: Seq<i64>) -> Option<i64>
    decreases receipts.len(),
{
    if receipts.len() == 0 {
        None
    } else if is_receipt_error(receipts[0].0, receipts[0].1, ev_error, tolerated) {
        Some(receipts[0].1)
    } else {
        first_receipt_error(receipts.drop_first(), ev_error, tolerated)
    }
}

fn tolerates(tolerated: &Vec<i64>, data: i64) -> (r: bool)
    ensures
        r == tolerated@.contains(data),
{
    let mut i: usize = 0;
    while i < tolerated.len()
        invariant
            0 <= i <= tolerated.len(),
            forall|j: int| 0 <= j < i ==> tolerated@[j] != data,
        decreases tolerated.len() - i,
    {
        if tolerated[i] == data {
            return true;
        }
        i = i + 1;
    }
    false
}

/// Whether one receipt reports an error: its error flag `ev_error`
/// (`EV_ERROR`) is set and its data is an error number that is neither zero
/// nor tolerated (`ENOENT`, and `EPIPE` when registering).
pub fn receipt_error(flags: u16, data: i64, ev_error: u16, tolerated: &Vec<i64>) -> (r: Option<i64>)
    ensures
        r == (if is_receipt_error(flags, data, ev_error, tolerated@) {
            Some(data)
        } else {
            None::<i64>
        }),
{
    if flags & ev_error != 0 && data != 0 && !tolerates(tolerated, data) {
        Some(data)
    } else {
        None
    }
}

/// Checks the receipts of a registration change in order and returns the
/// error number of the first one that reports an error.
pub fn first_error(receipts: &Vec<(u16, i64)>, ev_error: u16, tolerated: &Vec<i64>) -> (r: Option<i64>)
    ensures
        r == first_receipt_error(receipts@, ev_error, tolerated@),
{
    let mut i: usize = 0;
    assert(receipts@.skip(0) =~= receipts@);
    while i < receipts.len()
        invariant
            0 <= i <= receipts.len(),
            first_receipt_error(receipts@, ev_error, tolerated@) == first_receipt_error(
                receipts@.skip(i as int),
                ev_error,
                tolerated@,
            ),
        decreases receipts.len() - i,
    {
        assert(receipts@.skip(i as int).drop_first() =~= receipts@.skip(i + 1));
        let (flags, data) = receipts[i];
        match receipt_error(flags, data, ev_error, tolerated) {
            Some(e) => {
                return Some(e);
            },
            None => {},
        }
        i = i + 1;
    }
    None
}

/// Classifies an event returned by a wait: an event reporting an error
/// fails the wait, an event of the waker's descriptor `waker` is the
/// waker, any other is readiness of its descriptor.
pub fn classify_event(ident: usize, flags: u16, data: i64, waker: usize, ev_error: u16, tolerated: &Vec<i64>) -> (r:
    KqueueReport)
    ensures
        r == (if is_receipt_error(flags, data, ev_error, tolerated@) {
            KqueueReport::Fail(data)
        } else if ident == waker {
            KqueueReport::Waker
        } else {
            KqueueReport::Ready { ident, flags }
        }),
{
    match receipt_error(flags, data, ev_error, tolerated) {
        Some(e) => KqueueReport::Fail(e),
        None => if ident == waker {
            KqueueReport::Waker
        } else {
            KqueueReport::Ready { ident, flags }
        },
    }
}

/// The events of one wait handled in order: readiness reports of registered
/// descriptors (ident, flags) are collected, waker events are skipped, and
/// the first event that reports an error ends the wait with its error
/// number; the reports collected before it have been handled by then.
pub open spec fn wait_outcome(
    events: Seq<(usize, u16, i64)>,
    waker: usize,
    ev_error: u16,
    tolerated: Seq<i64>,
) -> (Seq<(usize, u16)>, Option<i64>)
    decreases events.len(),
{
    if events.len() == 0 {
        (Seq::empty(), None)
    } else {
        let (ident, flags, data) = events[0];
        let rest = wait_outcome(events.drop_first(), waker, ev_error, tolerated);
        if is_receipt_error(flags, data, ev_error, tolerated) {
            (Seq::empty(), Some(data))
        } else if ident == waker {
            rest
        } else {
            (seq![(ident, flags)] + rest.0, rest.1)
        }
    }
}

/// Handles the events (ident, flags, data) of one wait in order, as
/// `classify_event` classifies each: returns the readiness reports to
/// dequeue, in order, and the error number that fails the wait, if an event
/// reports one; no event after the failing one is looked at. Without a
/// failure the number of reports is the count the wait returns.
pub fn wait_events(events: &Vec<(usize, u16, i64)>, waker: usize, ev_error: u16, tolerated: &Vec<i64>) -> (r: (
    Vec<(usize, u16)>,
    Option<i64>,
))
    ensures
        (r.0@, r.1) == wait_outcome(events@, waker, ev_error, tolerated@),
{
    let mut ready: Vec<(usize, u16)> = Vec::new();
    let mut i: usize = 0;
    assert(events@.skip(0) =~= events@);
    while i < events.len()
        invariant
            0 <= i <= events.len(),
            ({
                let rest = wait_outcome(events@.skip(i as int), waker, ev_error, tolerated@);
                wait_outcome(events@, waker, ev_error, tolerated@) == (ready@ + rest.0, rest.1)
            }),
        decreases events.len() - i,
    {
        assert(events@.skip(i as int).drop_first() =~= events@.skip(i + 1));
        let (ident, flags, data) = events[i];
        match classify_event(ident, flags, data, waker, ev_error, tolerated) {
            KqueueReport::Fail(e) => {
                assert(ready@ + Seq::<(usize, u16)>::empty() =~= ready@);
                return (ready, Some(e));
            },
            KqueueReport::Waker => {},
            KqueueReport::Ready { ident, flags } => {
                let ghost rest = wait_outcome(events@.skip(i + 1), waker, ev_error, tolerated@);
                assert(ready@ + (seq![(ident, flags)] + rest.0) =~= ready@.push((ident, flags)) + rest.0);
                ready.push((ident, flags));
            },
        }
        i = i + 1;
    }
    assert(ready@ + Seq::<(usize, u16)>::empty() =~= ready@);
    (ready, None)
}

/// The receipts are checked in order and every one of them counts, the
/// last included: when receipt `k` is the first whose error flag is set and
/// whose data is an error number neither zero nor tolerated, its number is
/// the result; when there is no such receipt there is no error.
pub proof fn law_first_failing_receipt_is_reported(
    receipts: Seq<(u16, i64)>,
    ev_error: u16,
    tolerated: Seq<i64>,
    k: int,
)
    requires
        0 <= k <= receipts.len(),
        forall|j: int|
            0 <= j < k ==> !(#[trigger] receipts[j].0 & ev_error != 0 && receipts[j].1 != 0
                && !tolerated.contains(receipts[j].1)),
        k < receipts.len() ==> (receipts[k].0 & ev_error != 0 && receipts[k].1 != 0
            && !tolerated.contains(receipts[k].1)),
    ensures
        first_receipt_error(receipts, ev_error, tolerated) == if k < receipts.len() {
            Some(receipts[k].1)
        } else {
            None
        },
    decreases k,
{
    if k > 0 {
        let rest = receipts.drop_first();
        assert(!(receipts[0].0 & ev_error != 0 && receipts[0].1 != 0 && !tolerated.contains(
            receipts[0].1,
        )));
        assert forall|j: int| 0 <= j < k - 1 implies !(#[trigger] rest[j].0 & ev_error != 0
            && rest[j].1 != 0 && !tolerated.contains(rest[j].1)) by {
            assert(rest[j] == receipts[j + 1]);
        }
        law_first_failing_receipt_is_reported(rest, ev_error, tolerated, k - 1);
    }
}

/// Events whose flags do not carry the error flag never fail a wait,
/// whatever their data: when no event carries it and none is the waker's,
/// every event is a readiness report, in order, and the wait succeeds.
pub proof fn law_unflagged_events_are_dispatched(
    events: Seq<(usize, u16, i64)>,
    waker: usize,
    ev_error: u16,
    tolerated: Seq<i64>,
)
    requires
        forall|i: int| 0 <= i < events.len() ==> #[trigger] events[i].1 & ev_error == 0 && events[i].0 != waker,
    ensures
        wait_outcome(events, waker, ev_error, tolerated) == (
            events.map_values(|e: (usize, u16, i64)| (e.0, e.1)),
            None::<i64>,
        ),
    decreases events.len(),
{
    if events.len() > 0 {
        let rest = events.drop_first();
        assert forall|i: int| 0 <= i < rest.len() implies #[trigger] rest[i].1 & ev_error == 0
            && rest[i].0 != waker by {
            assert(rest[i] == events[i + 1]);
        }
        law_unflagged_events_are_dispatched(rest, waker, ev_error, tolerated);
        assert(events[0].1 & ev_error == 0 && events[0].0 != waker);
        assert(seq![(events[0].0, events[0].1)] + rest.map_values(|e: (usize, u16, i64)| (e.0, e.1))
            =~= events.map_values(|e: (usize, u16, i64)| (e.0, e.1)));
    }
}

/// A wait fails at its first failing event, an event whose error flag is
/// set and whose data is an error number neither zero nor tolerated: its
/// number is the failure, and the readiness reports before it are those
/// collected, the events after it are not looked at.
pub proof fn law_wait_fails_at_first_failing_event(
    events: Seq<(usize, u16, i64)>,
    waker: usize,
    ev_error: u16,
    tolerated: Seq<i64>,
    k: int,
)
    requires
        0 <= k < events.len(),
        forall|j: int| 0 <= j < k ==> #[trigger] events[j].1 & ev_error == 0 && events[j].0 != waker,
        events[k].1 & ev_error != 0,
        events[k].2 != 0,
        !tolerated.contains(events[k].2),
    ensures
        wait_outcome(events, waker, ev_error, tolerated) == (
            events.take(k).map_values(|e: (usize, u16, i64)| (e.0, e.1)),
            Some(events[k].2),
        ),
    decreases k,
{
    let rest = events.drop_first();
    if k == 0 {
        assert(events.take(0).map_values(|e: (usize, u16, i64)| (e.0, e.1)) =~= Seq::<
            (usize, u16),
        >::empty());
    } else {
        assert forall|j: int| 0 <= j < k - 1 implies #[trigger] rest[j].1 & ev_error == 0
            && rest[j].0 != waker by {
            assert(rest[j] == events[j + 1]);
        }
        assert(rest[k - 1] == events[k]);
        law_wait_fails_at_first_failing_event(rest, waker, ev_error, tolerated, k - 1);
        assert(events[0].1 & ev_error == 0 && events[0].0 != waker);
        assert(seq![(events[0].0, events[0].1)] + rest.take(k - 1).map_values(
            |e: (usize, u16, i64)| (e.0, e.1),
        ) =~= events.take(k).map_values(|e: (usize, u16, i64)| (e.0, e.1)));
    }
}

/// Interest registry of the kqueue proactor, generic over the waiter type
/// (the completion sender of a pending operation).
pub type SysProactor<W> = Registry<usize, W>;

/// A control operation on the kqueue.
pub type CtlOp = crate::registry::CtlOp<usize>;

/// State after the readiness reports (ident, flags) were dequeued in order.
pub open spec fn after_ready<W>(s: Interests<usize, W>, ready: Seq<(usize, u16)>) -> Interests<usize, W>
    decreases ready.len(),
{
    if ready.len() == 0 {
        s
    } else {
        let rep = ready.last();
        after_ready(s, ready.drop_last()).dequeue(rep.0 as i32, rep.1 as usize)
    }
}

/// The control operations that dequeuing the readiness reports in order
/// asks for, one per report.
pub open spec fn ready_ctls<W>(s: Interests<usize, W>, ready: Seq<(usize, u16)>) -> Seq<Option<CtlOp>>
    decreases ready.len(),
{
    if ready.len() == 0 {
        Seq::empty()
    } else {
        let rep = ready.last();
        ready_ctls(s, ready.drop_last()).push(
            after_ready(s, ready.drop_last()).dequeue_ctl(rep.0 as i32, rep.1 as usize),
        )
    }
}

/// The completions that dequeuing the readiness reports in order hands
/// out: every woken waiter of each report with the report's flags as its
/// events.
pub open spec fn ready_deliveries<W>(s: Interests<usize, W>, ready: Seq<(usize, u16)>) -> Seq<(W, usize)>
    decreases ready.len(),
{
    if ready.len() == 0 {
        Seq::empty()
    } else {
        let rep = ready.last();
        let evts = rep.1 as usize;
        ready_deliveries(s, ready.drop_last()) + after_ready(s, ready.drop_last()).woken(
            rep.0 as i32,
            evts,
        ).map_values(|w: W| (w, evts))
    }
}

impl Registry<usize, Sender<usize>> {
    /// Handles the events (ident, flags, data) of one wait of the kqueue:
    /// every readiness report that `wait_events` collects is dequeued, in
    /// order, for descriptor `ident` with its flags as the events, and the
    /// channel of each woken waiter is completed with them, in order. Returns the
    /// control operation of each dequeued report, in order, and the error
    /// number that fails the wait, if an event reports one. Without a
    /// failure the number of control operations is the count the wait
    /// returns.
    pub fn complete_wait(
        &mut self,
        events: &Vec<(usize, u16, i64)>,
        waker: usize,
        ev_error: u16,
        tolerated: &Vec<i64>,
    ) -> (r: (Vec<Option<CtlOp>>, Option<i64>))
        ensures
            ({
                let (ready, failure) = wait_outcome(events@, waker, ev_error, tolerated@);
                &&& r.1 == failure
                &&& final(self)@ == after_ready(old(self)@, ready)
                &&& r.0@ == ready_ctls(old(self)@, ready)
                &&& final(self).delivered() == old(self).delivered() + ready_deliveries(
                    old(self)@,
                    ready,
                )
            }),
            old(self)@.wf() ==> final(self)@.wf(),
    {
        let ghost pre = self@;
        let ghost pre_log = self.delivered();
        let (ready, failure) = wait_events(events, waker, ev_error, tolerated);
        let mut ctls: Vec<Option<CtlOp>> = Vec::new();
        let mut i: usize = 0;
        while i < ready.len()
            invariant
                0 <= i <= ready.len(),
                self@ == after_ready(pre, ready@.take(i as int)),
                ctls@ == ready_ctls(pre, ready@.take(i as int)),
                pre.wf() ==> self@.wf(),
                self.delivered() == pre_log + ready_deliveries(pre, ready@.take(i as int)),
            decreases ready.len() - i,
        {
            assert(ready@.take(i + 1).drop_last() =~= ready@.take(i as int));
            let (ident, flags) = ready[i];
            let d = self.dequeue_events(ident as i32, flags as usize);
            let ctl = self.deliver(d);
            assert(self.delivered() =~= pre_log + ready_deliveries(pre, ready@.take(i + 1)));
            ctls.push(ctl);
            i = i + 1;
        }
        assert(ready@.take(ready.len() as int) =~= ready@);
        (ctls, failure)
    }
}

} // verus!
