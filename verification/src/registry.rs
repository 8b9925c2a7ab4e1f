//! Interest registry of the readiness-based proactor backends.
//!
//! For every file descriptor the registry keeps the union of the readiness
//! events it is registered for, and the list of waiters that are to be
//! completed when one of their events fires. The registry decides which
//! control operation the event queue needs; the caller applies it. The
//! epoll backend encodes events as `i32` bit sets, the kqueue backend as
//! `usize` bit sets.
use futures::channel::oneshot::Sender;
use std::collections::HashMap;
use vstd::prelude::*;

use crate::oneshot::{completion_channel, send_readiness, CompletionChan};

verus! {

broadcast use vstd::std_specs::hash::group_hash_axioms;

/// A bit set of readiness events.
pub trait EventMask: Copy + Sized {
    /// The events of both sets.
    spec fn join(self, other: Self) -> Self;

    /// The events of `self` that are not in `other`.
    spec fn without(self, other: Self) -> Self;

    /// The two sets share an event.
    spec fn meets(self, other: Self) -> bool;

    /// The set holds no event.
    spec fn clear(self) -> bool;

    /// The set without events.
    spec fn nothing() -> Self;

    /// Computes `self.join(other)`.
    fn or(self, other: Self) -> (r: Self)
        ensures
            r == self.join(other),
    ;

    /// Computes `self.without(other)`.
    fn and_not(self, other: Self) -> (r: Self)
        ensures
            r == self.without(other),
    ;

    /// Computes `self.meets(other)`.
    fn overlaps(self, other: Self) -> (r: bool)
        ensures
            r == self.meets(other),
    ;

    /// Computes `self.clear()`.
    fn is_zero(self) -> (r: bool)
        ensures
            r == self.clear(),
    ;

    /// A set covers itself.
    proof fn lemma_covers_self(m: Self)
        ensures
            m.without(m).clear(),
    ;

    /// What a set covers, a larger set covers too.
    proof fn lemma_covers_join(r: Self, e: Self, x: Self)
        requires
            x.without(r).clear(),
        ensures
            x.without(r.join(e)).clear(),
    ;

    /// What the empty set covers, every set covers.
    proof fn lemma_covers_from_nothing(e: Self, x: Self)
        requires
            x.without(Self::nothing()).clear(),
        ensures
            x.without(e).clear(),
    ;

    /// A set that holds no event covers what the empty set covers.
    proof fn lemma_covers_clear(r: Self, x: Self)
        requires
            x.without(r).clear(),
            r.clear(),
        ensures
            x.without(Self::nothing()).clear(),
    ;

    /// Taking events out of a set keeps it covering what misses them.
    proof fn lemma_covers_without(r: Self, e: Self, x: Self)
        requires
            x.without(r).clear(),
            !x.meets(e),
        ensures
            x.without(r.without(e)).clear(),
    ;

    /// A set that is not empty meets every set that covers a set covering
    /// it.
    proof fn lemma_covered_meets(r: Self, e: Self, x: Self)
        requires
            x.without(r).clear(),
            r.without(e).clear(),
            !x.clear(),
        ensures
            x.meets(e),
    ;
}

impl EventMask for i32 {
    open spec fn join(self, other: i32) -> i32 {
        self | other
    }

    open spec fn without(self, other: i32) -> i32 {
        self & !other
    }

    open spec fn meets(self, other: i32) -> bool {
        self & other != 0
    }

    open spec fn clear(self) -> bool {
        self == 0
    }

    open spec fn nothing() -> i32 {
        0
    }

    fn or(self, other: i32) -> (r: i32) {
        self | other
    }

    fn and_not(self, other: i32) -> (r: i32) {
        self & !other
    }

    fn overlaps(self, other: i32) -> (r: bool) {
        self & other != 0
    }

    fn is_zero(self) -> (r: bool) {
        self == 0
    }

    proof fn lemma_covers_self(m: i32) {
        assert(m & !m == 0) by (bit_vector);
    }

    proof fn lemma_covers_join(r: i32, e: i32, x: i32) {
        assert(x & !r == 0 ==> x & !(r | e) == 0) by (bit_vector);
    }

    proof fn lemma_covers_from_nothing(e: i32, x: i32) {
        assert(x & !0i32 == 0 ==> x & !e == 0) by (bit_vector);
    }

    proof fn lemma_covers_clear(r: i32, x: i32) {
    }

    proof fn lemma_covers_without(r: i32, e: i32, x: i32) {
        assert(x & !r == 0 && x & e == 0 ==> x & !(r & !e) == 0) by (bit_vector);
    }

    proof fn lemma_covered_meets(r: i32, e: i32, x: i32) {
        assert(x & !r == 0 && r & !e == 0 && x != 0 ==> x & e != 0) by (bit_vector);
    }
}

impl EventMask for usize {
    open spec fn join(self, other: usize) -> usize {
        self | other
    }

    open spec fn without(self, other: usize) -> usize {
        self & !other
    }

    open spec fn meets(self, other: usize) -> bool {
        self & other != 0
    }

    open spec fn clear(self) -> bool {
        self == 0
    }

    open spec fn nothing() -> usize {
        0
    }

    fn or(self, other: usize) -> (r: usize) {
        self | other
    }

    fn and_not(self, other: usize) -> (r: usize) {
        self & !other
    }

    fn overlaps(self, other: usize) -> (r: bool) {
        self & other != 0
    }

    fn is_zero(self) -> (r: bool) {
        self == 0
    }

    proof fn lemma_covers_self(m: usize) {
        assert(m & !m == 0) by (bit_vector);
    }

    proof fn lemma_covers_join(r: usize, e: usize, x: usize) {
        assert(x & !r == 0 ==> x & !(r | e) == 0) by (bit_vector);
    }

    proof fn lemma_covers_from_nothing(e: usize, x: usize) {
        assert(x & !0usize == 0 ==> x & !e == 0) by (bit_vector);
    }

    proof fn lemma_covers_clear(r: usize, x: usize) {
    }

    proof fn lemma_covers_without(r: usize, e: usize, x: usize) {
        assert(x & !r == 0 && x & e == 0 ==> x & !(r & !e) == 0) by (bit_vector);
    }

    proof fn lemma_covered_meets(r: usize, e: usize, x: usize) {
        assert(x & !r == 0 && r & !e == 0 && x != 0 ==> x & e != 0) by (bit_vector);
    }
}

/// A control operation that the registry asks the caller to apply to the
/// kernel event queue.
#[derive(Clone, Copy, Debug, PartialEq, Eq, Structural)]
pub enum CtlOp<M> {
    /// Start watching `fd` for `events`.
    Add { fd: i32, events: M },
    /// Watch `fd` for `events` from now on.
    Modify { fd: i32, events: M },
    /// Stop watching `fd`.
    Delete { fd: i32 },
}

/// `mask` holds every event of `sub`.
pub open spec fn covers<M: EventMask>(mask: M, sub: M) -> bool {
    sub.without(mask).clear()
}

/// A waiter interested in `mask` is completed by readiness `evts`.
pub open spec fn fires<M: EventMask>(mask: M, evts: M) -> bool {
    mask.meets(evts)
}

/// The waiters of a list that stay after readiness `evts`, in their order.
pub open spec fn kept_waiters<M: EventMask, W>(ws: Seq<(M, W)>, evts: M) -> Seq<(M, W)> {
    ws.filter(|w: (M, W)| !fires(w.0, evts))
}

/// The waiters of a list that readiness `evts` completes, in their order.
pub open spec fn woken_waiters<M: EventMask, W>(ws: Seq<(M, W)>, evts: M) -> Seq<W> {
    ws.filter(|w: (M, W)| fires(w.0, evts)).map_values(|w: (M, W)| w.1)
}

/// Abstract state of the registry.
pub struct Interests<M, W> {
    /// Registered readiness interest of each watched descriptor.
    pub registered: Map<i32, M>,
    /// Pending waiters of each descriptor, each with the interest it waits on.
    pub waiters: Map<i32, Seq<(M, W)>>,
}

impl<M: EventMask, W> Interests<M, W> {
    /// Interest registered for `fd`, empty when `fd` is not watched.
    pub open spec fn interest(self, fd: i32) -> M {
        if self.registered.contains_key(fd) {
            self.registered[fd]
        } else {
            M::nothing()
        }
    }

    /// Waiters of `fd`, empty when it has none.
    pub open spec fn waiters_of(self, fd: i32) -> Seq<(M, W)> {
        if self.waiters.contains_key(fd) {
            self.waiters[fd]
        } else {
            Seq::empty()
        }
    }

    /// Every listed descriptor has a waiter, and every waiter waits on a
    /// part of the interest registered for its descriptor.
    pub open spec fn wf(self) -> bool {
        &&& forall|fd: i32| #[trigger] self.waiters.contains_key(fd) ==> self.waiters[fd].len() > 0
        &&& forall|fd: i32, i: int|
            self.waiters.contains_key(fd) && 0 <= i < self.waiters[fd].len() ==> covers(
                self.interest(fd),
                #[trigger] self.waiters[fd][i].0,
            )
    }

    /// Interest of `fd` once `events` are added to it.
    pub open spec fn combined(self, fd: i32, events: M) -> M {
        if self.registered.contains_key(fd) {
            self.registered[fd].join(events)
        } else {
            events
        }
    }

    /// Control operation that registering `events` for `fd` needs.
    pub open spec fn interest_op(self, fd: i32, events: M) -> CtlOp<M> {
        if self.registered.contains_key(fd) {
            CtlOp::Modify { fd, events: self.registered[fd].join(events) }
        } else {
            CtlOp::Add { fd, events }
        }
    }

    /// State after a waiter registered for `events` on `fd`; the waiter
    /// waits on the whole interest of `fd`.
    pub open spec fn register(self, fd: i32, events: M, waiter: W) -> Interests<M, W> {
        let m = self.combined(fd, events);
        Interests {
            registered: self.registered.insert(fd, m),
            waiters: self.waiters.insert(fd, self.waiters_of(fd).push((m, waiter))),
        }
    }

    /// State after readiness `evts` was reported for `fd`.
    pub open spec fn dequeue(self, fd: i32, evts: M) -> Interests<M, W> {
        let left = self.registered[fd].without(evts);
        let kept = kept_waiters(self.waiters[fd], evts);
        Interests {
            registered: if !self.registered.contains_key(fd) {
                self.registered
            } else if left.clear() {
                self.registered.remove(fd)
            } else {
                self.registered.insert(fd, left)
            },
            waiters: if !self.waiters.contains_key(fd) {
                self.waiters
            } else if kept.len() == 0 {
                self.waiters.remove(fd)
            } else {
                self.waiters.insert(fd, kept)
            },
        }
    }

    /// Control operation that readiness `evts` on `fd` needs.
    pub open spec fn dequeue_ctl(self, fd: i32, evts: M) -> Option<CtlOp<M>> {
        let left = self.registered[fd].without(evts);
        if !self.registered.contains_key(fd) {
            None
        } else if left.clear() {
            Some(CtlOp::Delete { fd })
        } else {
            Some(CtlOp::Modify { fd, events: left })
        }
    }

    /// Waiters that readiness `evts` on `fd` completes, in registration order.
    pub open spec fn woken(self, fd: i32, evts: M) -> Seq<W> {
        woken_waiters(self.waiters_of(fd), evts)
    }
}

/// What handling one readiness report produced.
pub struct Dequeued<M, W> {
    /// The reported readiness, to be delivered to each woken waiter.
    pub events: M,
    /// Completed waiters, in registration order.
    pub woken: Vec<W>,
    /// Control operation to apply to the event queue, if any.
    pub ctl: Option<CtlOp<M>>,
}

/// The summary of a handled report: its events, woken waiters and control
/// operation.
pub open spec fn outcome_of<M, W>(d: Dequeued<M, W>) -> (M, Seq<W>, Option<CtlOp<M>>) {
    (d.events, d.woken@, d.ctl)
}

/// Interest registry, generic over the event encoding and over the waiter
/// (the completion sender of a pending operation).
pub struct Registry<M, W> {
    registered: HashMap<i32, M>,
    completions: HashMap<i32, Vec<(M, W)>>,
    delivered: Ghost<Seq<(W, M)>>,
}

impl<M, W> Registry<M, W> {
    /// Every send the registry itself made to a waiter, in order, whether
    /// or not its receiver still took the value: the waiter and the events
    /// it was sent.
    pub closed spec fn delivered(&self) -> Seq<(W, M)> {
        self.delivered@
    }
}

/// The completions that handled reports hand out, in order: every woken
/// waiter of each report with the report's events.
pub open spec fn deliveries<M, W>(outs: Seq<(M, Seq<W>, Option<CtlOp<M>>)>) -> Seq<(W, M)>
    decreases outs.len(),
{
    if outs.len() == 0 {
        Seq::empty()
    } else {
        let o = outs.last();
        deliveries(outs.drop_last()) + o.1.map_values(|w: W| (w, o.0))
    }
}

impl<M, W> View for Registry<M, W> {
    type V = Interests<M, W>;

    closed spec fn view(&self) -> Interests<M, W> {
        Interests {
            registered: self.registered@,
            waiters: self.completions@.map_values(|v: Vec<(M, W)>| v@),
        }
    }
}

proof fn lemma_filter_push<A>(s: Seq<A>, a: A, p: spec_fn(A) -> bool)
    ensures
        s.push(a).filter(p) == if p(a) {
            s.filter(p).push(a)
        } else {
            s.filter(p)
        },
{
    assert(s.push(a).drop_last() =~= s);
    reveal(Seq::filter);
}

proof fn lemma_filter_all<A>(s: Seq<A>, p: spec_fn(A) -> bool)
    requires
        forall|i: int| 0 <= i < s.len() ==> p(#[trigger] s[i]),
    ensures
        s.filter(p) == s,
    decreases s.len(),
{
    reveal(Seq::filter);
    if s.len() > 0 {
        lemma_filter_all(s.drop_last(), p);
        assert(s.drop_last().push(s.last()) =~= s);
    }
}

proof fn lemma_filter_none<A>(s: Seq<A>, p: spec_fn(A) -> bool)
    requires
        forall|i: int| 0 <= i < s.len() ==> !p(#[trigger] s[i]),
    ensures
        s.filter(p).len() == 0,
    decreases s.len(),
{
    reveal(Seq::filter);
    if s.len() > 0 {
        lemma_filter_none(s.drop_last(), p);
    }
}

/// The control operation that a registration asks for carries exactly the
/// interest that the registry records for the descriptor afterwards: the
/// union of what it was watched for and the new events.
pub proof fn law_interest_op_matches_registration<M: EventMask, W>(
    s: Interests<M, W>,
    fd: i32,
    events: M,
    waiter: W,
)
    ensures
        ({
            let after = s.register(fd, events, waiter);
            match s.interest_op(fd, events) {
                CtlOp::Add { fd: f, events: e } => !s.registered.contains_key(fd) && f == fd && e
                    == after.registered[fd],
                CtlOp::Modify { fd: f, events: e } => s.registered.contains_key(fd) && f == fd && e
                    == after.registered[fd],
                CtlOp::Delete { .. } => false,
            }
        }),
{
}

/// A registered waiter is completed by the next readiness report on its
/// descriptor that meets the descriptor's interest, after every earlier
/// waiter that report completes; a report that misses the interest leaves
/// it waiting.
pub proof fn law_registered_waiter_is_woken<M: EventMask, W>(
    s: Interests<M, W>,
    fd: i32,
    events: M,
    waiter: W,
    evts: M,
)
    ensures
        ({
            let after = s.register(fd, events, waiter);
            let m = s.combined(fd, events);
            after.woken(fd, evts) == if fires(m, evts) {
                s.woken(fd, evts).push(waiter)
            } else {
                s.woken(fd, evts)
            }
        }),
{
    let after = s.register(fd, events, waiter);
    let m = s.combined(fd, events);
    let pf = |w: (M, W)| fires(w.0, evts);
    assert(after.waiters_of(fd) == s.waiters_of(fd).push((m, waiter)));
    lemma_filter_push(s.waiters_of(fd), (m, waiter), pf);
    if fires(m, evts) {
        assert(s.waiters_of(fd).filter(pf).push((m, waiter)).map_values(|w: (M, W)| w.1)
            =~= s.waiters_of(fd).filter(pf).map_values(|w: (M, W)| w.1).push(waiter));
    }
}

/// Readiness that covers the whole interest of a descriptor, in a
/// well-formed registry whose waiters on it all wait on some event,
/// completes every waiter of the descriptor in registration order, asks
/// for the descriptor to be deleted from the event queue, and leaves no
/// trace of it in the registry.
pub proof fn law_full_readiness_forgets_descriptor<M: EventMask, W>(s: Interests<M, W>, fd: i32, evts: M)
    requires
        s.wf(),
        s.registered.contains_key(fd),
        covers(evts, s.registered[fd]),
        forall|i: int| 0 <= i < s.waiters_of(fd).len() ==> !(#[trigger] s.waiters_of(fd)[i]).0.clear(),
    ensures
        !s.dequeue(fd, evts).registered.contains_key(fd),
        !s.dequeue(fd, evts).waiters.contains_key(fd),
        s.woken(fd, evts) == s.waiters_of(fd).map_values(|w: (M, W)| w.1),
        s.dequeue_ctl(fd, evts) == Some(CtlOp::<M>::Delete { fd }),
{
    let ws = s.waiters_of(fd);
    let r = s.registered[fd];
    assert forall|i: int| 0 <= i < ws.len() implies fires(#[trigger] ws[i].0, evts) by {
        M::lemma_covered_meets(r, evts, ws[i].0);
    }
    lemma_filter_all(ws, |w: (M, W)| fires(w.0, evts));
    lemma_filter_none(ws, |w: (M, W)| !fires(w.0, evts));
}

/// Registering a waiter on a descriptor the registry does not know, then
/// a readiness report that covers the registered events, completes that
/// waiter, asks for the descriptor to be deleted and gives back the
/// registry as it was, provided the waiter waits on some event.
pub proof fn law_full_readiness_undoes_registration<M: EventMask, W>(
    s: Interests<M, W>,
    fd: i32,
    events: M,
    waiter: W,
    evts: M,
)
    requires
        !s.registered.contains_key(fd),
        !s.waiters.contains_key(fd),
        !events.clear(),
        covers(evts, events),
    ensures
        s.register(fd, events, waiter).dequeue(fd, evts) == s,
        s.register(fd, events, waiter).woken(fd, evts) == seq![waiter],
        s.register(fd, events, waiter).dequeue_ctl(fd, evts) == Some(CtlOp::<M>::Delete { fd }),
{
    let after = s.register(fd, events, waiter);
    let ws = after.waiters_of(fd);
    assert(ws =~= seq![(events, waiter)]);
    M::lemma_covers_self(events);
    M::lemma_covered_meets(events, evts, events);
    lemma_filter_all(ws, |w: (M, W)| fires(w.0, evts));
    lemma_filter_none(ws, |w: (M, W)| !fires(w.0, evts));
    assert(ws.map_values(|w: (M, W)| w.1) =~= seq![waiter]);
    assert(after.dequeue(fd, evts).registered =~= s.registered);
    assert(after.dequeue(fd, evts).waiters =~= s.waiters);
}

/// A readiness report for a descriptor that the registry does not know
/// changes nothing, completes nobody and asks for no control operation.
pub proof fn law_unknown_descriptor_is_ignored<M: EventMask, W>(s: Interests<M, W>, fd: i32, evts: M)
    requires
        !s.registered.contains_key(fd),
        !s.waiters.contains_key(fd),
    ensures
        s.dequeue(fd, evts) == s,
        s.woken(fd, evts).len() == 0,
        s.dequeue_ctl(fd, evts) is None,
{
    lemma_filter_none(Seq::<(M, W)>::empty(), |w: (M, W)| fires(w.0, evts));
}

impl<M: EventMask, W> Registry<M, W> {
    /// An empty registry.
    pub fn new() -> (r: Self)
        ensures
            r@.registered == Map::<i32, M>::empty(),
            r@.waiters == Map::<i32, Seq<(M, W)>>::empty(),
            r@.wf(),
            r.delivered() == Seq::<(W, M)>::empty(),
    {
        let r = Registry {
            registered: HashMap::new(),
            completions: HashMap::new(),
            delivered: Ghost(Seq::empty()),
        };
        assert(r@.waiters =~= Map::<i32, Seq<(M, W)>>::empty());
        r
    }

    /// The control operation that registering `events` for `fd` needs:
    /// `Add` for a descriptor that is not watched yet, otherwise `Modify`
    /// with the union of its interest and `events`.
    pub fn interest_op(&self, fd: i32, events: M) -> (op: CtlOp<M>)
        ensures
            op == self@.interest_op(fd, events),
    {
        match self.registered.get(&fd) {
            Some(reg) => CtlOp::Modify { fd, events: reg.or(events) },
            None => CtlOp::Add { fd, events },
        }
    }

    /// Registers a waiter for `events` on `fd`, once the control operation
    /// that `interest_op` named has been applied with outcome `ctl`.
    ///
    /// On a failed control operation nothing changes and its error is
    /// returned. Otherwise the interest of `fd` grows by `events` and the
    /// waiter is appended to the waiters of `fd`, waiting on that whole
    /// interest.
    pub fn register_io<E>(&mut self, fd: i32, events: M, ctl: Result<(), E>, waiter: W) -> (r: Result<
        (),
        E,
    >)
        ensures
            match ctl {
                Ok(()) => r is Ok && final(self)@ == old(self)@.register(fd, events, waiter),
                Err(e) => r == Err::<(), E>(e) && final(self)@ == old(self)@,
            },
            old(self)@.wf() ==> final(self)@.wf(),
            final(self).delivered() == old(self).delivered(),
    {
        match ctl {
            Err(e) => {
                return Err(e);
            },
            Ok(()) => {},
        }
        let ghost pre = self@;
        let m = match self.registered.get(&fd) {
            Some(reg) => reg.or(events),
            None => events,
        };
        self.registered.insert(fd, m);
        let mut list = match self.completions.remove(&fd) {
            Some(l) => l,
            None => Vec::new(),
        };
        assert(list@ == pre.waiters_of(fd));
        list.push((m, waiter));
        self.completions.insert(fd, list);
        let ghost post = pre.register(fd, events, waiter);
        assert(self@.waiters =~= post.waiters);
        assert(self@.registered =~= post.registered);
        proof {
            if pre.wf() {
                M::lemma_covers_self(m);
                assert forall|f: i32, i: int|
                    post.waiters.contains_key(f) && 0 <= i < post.waiters[f].len() implies covers(
                    post.interest(f),
                    #[trigger] post.waiters[f][i].0,
                ) by {
                    if f == fd && i < pre.waiters_of(fd).len() {
                        let x = pre.waiters[fd][i].0;
                        assert(post.waiters[f][i] == pre.waiters[fd][i]);
                        if pre.registered.contains_key(fd) {
                            M::lemma_covers_join(pre.registered[fd], events, x);
                        } else {
                            M::lemma_covers_from_nothing(events, x);
                        }
                    }
                }
            }
        }
        Ok(())
    }

    /// Handles readiness `evts` reported for `fd`.
    ///
    /// The reported events leave the interest of `fd`: when nothing is left
    /// the descriptor is to be deleted from the event queue, otherwise it is
    /// to be modified to the remaining interest. Every waiter whose interest
    /// meets `evts` is completed and removed, in registration order; the
    /// others stay, in their order, and a descriptor left without waiters
    /// is forgotten.
    pub fn dequeue_events(&mut self, fd: i32, evts: M) -> (r: Dequeued<M, W>)
        ensures
            final(self)@ == old(self)@.dequeue(fd, evts),
            r.events == evts,
            r.woken@ == old(self)@.woken(fd, evts),
            r.ctl == old(self)@.dequeue_ctl(fd, evts),
            old(self)@.wf() ==> final(self)@.wf(),
            final(self).delivered() == old(self).delivered(),
    {
        let ghost pre = self@;
        let mut ctl: Option<CtlOp<M>> = None;
        match self.registered.remove(&fd) {
            Some(mask) => {
                let left = mask.and_not(evts);
                if left.is_zero() {
                    ctl = Some(CtlOp::Delete { fd });
                } else {
                    self.registered.insert(fd, left);
                    ctl = Some(CtlOp::Modify { fd, events: left });
                }
            },
            None => {},
        }
        let mut woken: Vec<W> = Vec::new();
        match self.completions.remove(&fd) {
            Some(list) => {
                let ghost ws = list@;
                let ghost pk = |w: (M, W)| !fires(w.0, evts);
                let ghost pf = |w: (M, W)| fires(w.0, evts);
                let mut kept: Vec<(M, W)> = Vec::new();
                for w in it: list.into_iter()
                    invariant
                        it.seq() == ws,
                        pk == (|w: (M, W)| !fires(w.0, evts)),
                        pf == (|w: (M, W)| fires(w.0, evts)),
                        kept@ == ws.take(it.index()).filter(pk),
                        woken@ == ws.take(it.index()).filter(pf).map_values(|w: (M, W)| w.1),
                {
                    let ghost i = it.index();
                    assert(w == ws[i]);
                    let ghost pre_kept = ws.take(i).filter(pk);
                    let ghost pre_fired = ws.take(i).filter(pf);
                    assert(ws.take(i + 1).filter(pk) == if pk(ws[i]) {
                        pre_kept.push(ws[i])
                    } else {
                        pre_kept
                    }) by {
                        assert(ws.take(i + 1).drop_last() =~= ws.take(i));
                        reveal(Seq::filter);
                    }
                    assert(ws.take(i + 1).filter(pf) == if pf(ws[i]) {
                        pre_fired.push(ws[i])
                    } else {
                        pre_fired
                    }) by {
                        assert(ws.take(i + 1).drop_last() =~= ws.take(i));
                        reveal(Seq::filter);
                    }
                    if w.0.overlaps(evts) {
                        woken.push(w.1);
                        assert(pre_fired.push(ws[i]).map_values(|w: (M, W)| w.1) =~= pre_fired.map_values(
                            |w: (M, W)| w.1,
                        ).push(ws[i].1));
                    } else {
                        kept.push(w);
                    }
                }
                assert(ws.take(ws.len() as int) =~= ws);
                if kept.len() > 0 {
                    self.completions.insert(fd, kept);
                }
            },
            None => {},
        }
        let ghost post = pre.dequeue(fd, evts);
        assert(self@.registered =~= post.registered);
        assert(self@.waiters =~= post.waiters);
        proof {
            if pre.wf() {
                assert forall|f: i32| #[trigger] post.waiters.contains_key(f) implies post.waiters[f].len() > 0 by {}
                assert forall|f: i32, i: int|
                    post.waiters.contains_key(f) && 0 <= i < post.waiters[f].len() implies covers(
                    post.interest(f),
                    #[trigger] post.waiters[f][i].0,
                ) by {
                    if f == fd {
                        let kw = post.waiters[f][i];
                        let pk = |w: (M, W)| !fires(w.0, evts);
                        assert(post.waiters[f].contains(kw));
                        pre.waiters[fd].lemma_filter_contains_rev(pk, kw);
                        let j = choose|j: int| 0 <= j < pre.waiters[fd].len() && pre.waiters[fd][j] == kw;
                        assert(covers(pre.interest(fd), pre.waiters[fd][j].0));
                        if pre.registered.contains_key(fd) {
                            let left = pre.registered[fd].without(evts);
                            M::lemma_covers_without(pre.registered[fd], evts, kw.0);
                            if left.clear() {
                                M::lemma_covers_clear(left, kw.0);
                            }
                        }
                    }
                }
            }
        }
        Dequeued { events: evts, woken, ctl }
    }
}

impl<M: EventMask> Registry<M, Sender<M>> {
    /// Completes the channel of every waiter that a handled report woke,
    /// in order, with the report's events, and hands back the report's
    /// control operation.
    pub(crate) fn deliver(&mut self, d: Dequeued<M, Sender<M>>) -> (ctl: Option<CtlOp<M>>)
        ensures
            ctl == d.ctl,
            final(self)@ == old(self)@,
            final(self).delivered() == old(self).delivered() + d.woken@.map_values(
                |tx: Sender<M>| (tx, d.events),
            ),
    {
        let ghost pre = self.delivered();
        let Dequeued { events, woken, ctl } = d;
        let ghost ws = woken@;
        for tx in it: woken.into_iter()
            invariant
                it.seq() == ws,
                self@ == old(self)@,
                self.delivered() == pre + ws.take(it.index()).map_values(
                    |tx: Sender<M>| (tx, events),
                ),
        {
            let ghost i = it.index();
            let (_, sent) = send_readiness(tx, events);
            proof {
                self.delivered@ = self.delivered@.push(sent@);
                assert(ws.take(i + 1).map_values(|tx: Sender<M>| (tx, events)) =~= ws.take(
                    i,
                ).map_values(|tx: Sender<M>| (tx, events)).push((tx, events)));
            }
        }
        assert(ws.take(ws.len() as int) =~= ws);
        ctl
    }
}

impl<M: EventMask> Registry<M, Sender<M>> {
    /// Registers a fresh completion channel for `events` on `fd`, once the
    /// control operation that `interest_op` named has been applied with
    /// outcome `ctl`, and returns its receiving half.
    ///
    /// On a failed control operation nothing changes, no channel is made and
    /// the error is returned. Otherwise the registry changes as
    /// `register_io` describes, the new waiter being the sending half that
    /// the returned receiver is linked to.
    pub fn register_completion<E>(&mut self, fd: i32, events: M, ctl: Result<(), E>) -> (r: Result<
        CompletionChan<M>,
        E,
    >)
        ensures
            match ctl {
                Ok(()) => (r matches Ok(ch) && final(self)@ == old(self)@.register(
                    fd,
                    events,
                    ch.partner(),
                )),
                Err(e) => (r matches Err(x) && x == e) && final(self)@ == old(self)@,
            },
            old(self)@.wf() ==> final(self)@.wf(),
            final(self).delivered() == old(self).delivered(),
    {
        match ctl {
            Err(e) => Err(e),
            Ok(()) => {
                let (tx, ch) = completion_channel();
                let ok: Result<(), E> = Ok(());
                let _ = self.register_io(fd, events, ok, tx);
                Ok(ch)
            },
        }
    }
    /// Handles readiness `evts` reported for `fd` as `dequeue_events`
    /// describes, completes the channel of every woken waiter with `evts`,
    /// in registration order, and returns the control operation the event
    /// queue needs.
    pub fn complete_events(&mut self, fd: i32, evts: M) -> (ctl: Option<CtlOp<M>>)
        ensures
            final(self)@ == old(self)@.dequeue(fd, evts),
            ctl == old(self)@.dequeue_ctl(fd, evts),
            final(self).delivered() == old(self).delivered() + old(self)@.woken(fd, evts).map_values(
                |tx: Sender<M>| (tx, evts),
            ),
            old(self)@.wf() ==> final(self)@.wf(),
    {
        let d = self.dequeue_events(fd, evts);
        self.deliver(d)
    }
}

} // verus!
