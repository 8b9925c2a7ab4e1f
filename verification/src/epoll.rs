//! The interest registry as the epoll backend uses it.
//!
//! Events are `i32` bit sets. A descriptor is registered with its own
//! number as the report data; the waker is registered with data zero, so a
//! report whose data is zero comes from the waker.
use futures::channel::oneshot::Sender;
use vstd::prelude::*;

use crate::registry::{deliveries, outcome_of, Dequeued, Interests, Registry};

verus! {

/// Interest registry of the epoll proactor, generic over the waiter type
/// (the completion sender of a pending operation).
pub type SysProactor<W> = Registry<i32, W>;

/// A control operation on the epoll instance.
pub type CtlOp = crate::registry::CtlOp<i32>;

/// Reports whose data is not the waker's zero.
pub open spec fn is_user_report(rep: (u64, i32)) -> bool {
    rep.0 != 0
}

/// State after the reports of one wait were handled in order; a report
/// whose data is zero comes from the waker and is skipped.
pub open spec fn after_reports<W>(s: Interests<i32, W>, ready: Seq<(u64, i32)>) -> Interests<i32, W>
    decreases ready.len(),
{
    if ready.len() == 0 {
        s
    } else {
        let t = after_reports(s, ready.drop_last());
        let rep = ready.last();
        if rep.0 == 0 {
            t
        } else {
            t.dequeue(rep.0 as i32, rep.1)
        }
    }
}

/// What the reports of one wait produce, one entry per report that is not
/// the waker's: the reported events, the woken waiters and the control
/// operation.
pub open spec fn report_outcomes<W>(s: Interests<i32, W>, ready: Seq<(u64, i32)>) -> Seq<
    (i32, Seq<W>, Option<CtlOp>),
>
    decreases ready.len(),
{
    if ready.len() == 0 {
        Seq::empty()
    } else {
        let prev = report_outcomes(s, ready.drop_last());
        let t = after_reports(s, ready.drop_last());
        let rep = ready.last();
        if rep.0 == 0 {
            prev
        } else {
            prev.push((rep.1, t.woken(rep.0 as i32, rep.1), t.dequeue_ctl(rep.0 as i32, rep.1)))
        }
    }
}

/// A wait handles exactly the reports that do not come from the waker: it
/// produces one outcome per such report, which is the count it returns.
pub proof fn law_wait_counts_user_reports<W>(s: Interests<i32, W>, ready: Seq<(u64, i32)>)
    ensures
        report_outcomes(s, ready).len() == ready.filter(|rep: (u64, i32)| is_user_report(rep)).len(),
    decreases ready.len(),
{
    reveal(Seq::filter);
    if ready.len() > 0 {
        law_wait_counts_user_reports(s, ready.drop_last());
    }
}

/// A report whose data is not zero is handled for the descriptor its data
/// names: the registry changes as dequeuing the reported events on that
/// descriptor does, and the outcome is those events, the waiters they wake
/// there and the control operation the descriptor needs.
pub proof fn law_report_goes_to_its_descriptor<W>(s: Interests<i32, W>, data: u64, evts: i32)
    requires
        data != 0,
    ensures
        after_reports(s, seq![(data, evts)]) == s.dequeue(data as i32, evts),
        report_outcomes(s, seq![(data, evts)]) == seq![
            (evts, s.woken(data as i32, evts), s.dequeue_ctl(data as i32, evts)),
        ],
{
    let r = seq![(data, evts)];
    assert(r.drop_last() =~= Seq::<(u64, i32)>::empty());
    assert(r.last() == (data, evts));
    assert(after_reports(s, r.drop_last()) == s);
    assert(report_outcomes(s, r.drop_last()) == Seq::<(i32, Seq<W>, Option<CtlOp>)>::empty());
    assert(report_outcomes(s, r) =~= seq![
        (evts, s.woken(data as i32, evts), s.dequeue_ctl(data as i32, evts)),
    ]);
}

/// A waiter registered on a descriptor `fd > 0` that had no waiters, for
/// events that meet the reported ones, is woken by the report carrying
/// `fd` as its data, and alone.
pub proof fn law_report_wakes_waiter_of_its_descriptor<W>(
    s: Interests<i32, W>,
    fd: i32,
    events: i32,
    w: W,
    evts: i32,
)
    requires
        fd > 0,
        !s.waiters.contains_key(fd),
        events & evts != 0,
    ensures
        report_outcomes(s.register(fd, events, w), seq![(fd as u64, evts)]).len() == 1,
        report_outcomes(s.register(fd, events, w), seq![(fd as u64, evts)])[0].1 == seq![w],
{
    let t = s.register(fd, events, w);
    assert((fd as u64) as i32 == fd) by (bit_vector)
        requires
            fd > 0,
    ;
    assert((fd as u64) != 0);
    law_report_goes_to_its_descriptor(t, fd as u64, evts);
    let m = s.combined(fd, events);
    if s.registered.contains_key(fd) {
        let r = s.registered[fd];
        assert((r | events) & evts != 0) by (bit_vector)
            requires
                events & evts != 0,
        ;
    }
    let ws = t.waiters_of(fd);
    assert(ws =~= seq![(m, w)]);
    let pf = |x: (i32, W)| crate::registry::fires(x.0, evts);
    reveal(Seq::filter);
    assert(seq![(m, w)].drop_last() =~= Seq::<(i32, W)>::empty());
    assert(ws.filter(pf) =~= seq![(m, w)]);
    assert(ws.filter(pf).map_values(|x: (i32, W)| x.1) =~= seq![w]);
}

/// A wait whose reports all come from the waker changes nothing.
pub proof fn law_waker_reports_change_nothing<W>(s: Interests<i32, W>, ready: Seq<(u64, i32)>)
    requires
        forall|i: int| 0 <= i < ready.len() ==> #[trigger] ready[i].0 == 0,
    ensures
        after_reports(s, ready) == s,
        report_outcomes(s, ready).len() == 0,
    decreases ready.len(),
{
    if ready.len() > 0 {
        law_waker_reports_change_nothing(s, ready.drop_last());
    }
}

impl<W> Registry<i32, W> {
    /// Handles the readiness reports (data, events) of one wait of the
    /// epoll instance, in order: reports whose data is zero come from the
    /// waker and are skipped, every other report is dequeued for the
    /// descriptor its data names. The number of handled reports is the
    /// length of the result.
    pub fn wait(&mut self, ready: &Vec<(u64, i32)>) -> (r: Vec<Dequeued<i32, W>>)
        ensures
            final(self)@ == after_reports(old(self)@, ready@),
            r@.map_values(|d: Dequeued<i32, W>| outcome_of(d)) == report_outcomes(old(self)@, ready@),
            old(self)@.wf() ==> final(self)@.wf(),
            final(self).delivered() == old(self).delivered(),
    {
        let ghost pre = self@;
        let mut out: Vec<Dequeued<i32, W>> = Vec::new();
        let mut i: usize = 0;
        while i < ready.len()
            invariant
                0 <= i <= ready.len(),
                self@ == after_reports(pre, ready@.take(i as int)),
                out@.map_values(|d: Dequeued<i32, W>| outcome_of(d)) == report_outcomes(
                    pre,
                    ready@.take(i as int),
                ),
                pre.wf() ==> self@.wf(),
                self.delivered() == old(self).delivered(),
            decreases ready.len() - i,
        {
            assert(ready@.take(i + 1).drop_last() =~= ready@.take(i as int));
            let (data, evts) = ready[i];
            if data != 0 {
                let ghost before = out@.map_values(|d: Dequeued<i32, W>| outcome_of(d));
                let d = self.dequeue_events(data as i32, evts);
                out.push(d);
                assert(out@.map_values(|d: Dequeued<i32, W>| outcome_of(d)) =~= before.push(
                    outcome_of(d),
                ));
            }
            i = i + 1;
        }
        assert(ready@.take(ready.len() as int) =~= ready@);
        out
    }
}

impl Registry<i32, Sender<i32>> {
    /// Handles the readiness reports of one wait as `wait` describes,
    /// completing the channel of every woken waiter, in order, with the
    /// events of the report that woke it. The result holds the control
    /// operation of each handled report, in order; its length is the number
    /// of handled reports.
    pub fn complete_reports(&mut self, ready: &Vec<(u64, i32)>) -> (r: Vec<Option<CtlOp>>)
        ensures
            final(self)@ == after_reports(old(self)@, ready@),
            r@ == report_outcomes(old(self)@, ready@).map_values(
                |o: (i32, Seq<Sender<i32>>, Option<CtlOp>)| o.2,
            ),
            r.len() == ready@.filter(|rep: (u64, i32)| is_user_report(rep)).len(),
            final(self).delivered() == old(self).delivered() + deliveries(
                report_outcomes(old(self)@, ready@),
            ),
            old(self)@.wf() ==> final(self)@.wf(),
    {
        let ghost pre = self@;
        let ghost pre_log = self.delivered();
        let handled = self.wait(ready);
        let ghost post = self@;
        let ghost outs = handled@.map_values(|d: Dequeued<i32, Sender<i32>>| outcome_of(d));
        let mut ctls: Vec<Option<CtlOp>> = Vec::new();
        for d in it: handled.into_iter()
            invariant
                outs == it.seq().map_values(|d: Dequeued<i32, Sender<i32>>| outcome_of(d)),
                ctls@ == outs.take(it.index()).map_values(
                    |o: (i32, Seq<Sender<i32>>, Option<CtlOp>)| o.2,
                ),
                self@ == post,
                self.delivered() == pre_log + deliveries(outs.take(it.index())),
        {
            let ghost i = it.index();
            assert(outs.take(i + 1).drop_last() =~= outs.take(i));
            assert(outs[i] == outcome_of(d));
            let ctl = self.deliver(d);
            assert(self.delivered() =~= pre_log + deliveries(outs.take(i + 1)));
            ctls.push(ctl);
            assert(ctls@ =~= outs.take(i + 1).map_values(
                |o: (i32, Seq<Sender<i32>>, Option<CtlOp>)| o.2,
            ));
        }
        assert(outs.take(outs.len() as int) =~= outs);
        proof {
            law_wait_counts_user_reports(pre, ready@);
        }
        ctls
    }
}

} // verus!
