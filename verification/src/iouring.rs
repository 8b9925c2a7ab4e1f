//! Completion dispatch of the io_uring proactor backend.
//!
//! Every submission gets an id, carried as the user data of its ring entry,
//! under which the sender that completes it is kept. A completion entry of
//! a multishot operation is delivered to that sender and keeps it; any other
//! completion entry takes the sender out.
//!
//! Senders are those of unbounded channels; the receiving half goes with the
//! submission to the task that awaits it.
use crossbeam_channel::Sender;
use rustix_uring::cqueue::{more, sock_nonempty, Flags};
use std::collections::HashMap;
use vstd::prelude::*;

use crate::ring_channel::{completion_channel, send_result, CompletionChan};

verus! {

broadcast use vstd::std_specs::hash::group_hash_axioms;

/// Bit of the completion flags that announces further completions of the
/// same submission (`IORING_CQE_F_MORE`).
pub open spec fn flag_more(flags: u32) -> bool {
    flags & 2u32 != 0
}

/// Bit of the completion flags that announces more data ready on the
/// socket (`IORING_CQE_F_SOCK_NONEMPTY`).
pub open spec fn flag_sock_nonempty(flags: u32) -> bool {
    flags & 4u32 != 0
}

/// Calls `rustix_uring::cqueue::more`, which tests the `IORING_CQE_F_MORE`
/// bit (value 2) of the completion flags.
#[verifier::external_body]
fn cqe_more(flags: u32) -> (r: bool)
    ensures
        r == flag_more(flags),
{
    more(Flags::from_bits_retain(flags))
}

/// Calls `rustix_uring::cqueue::sock_nonempty`, which tests the
/// `IORING_CQE_F_SOCK_NONEMPTY` bit (value 4) of the completion flags.
#[verifier::external_body]
fn cqe_sock_nonempty(flags: u32) -> (r: bool)
    ensures
        r == flag_sock_nonempty(flags),
{
    sock_nonempty(Flags::from_bits_retain(flags))
}

/// The id after `id`, wrapping around.
pub open spec fn next_id(id: u64) -> u64 {
    if id == u64::MAX {
        0
    } else {
        (id + 1) as u64
    }
}

/// Submission registry of the io_uring proactor, generic over the sender
/// that completes a submission.
pub struct SysProactor<S> {
    submitters: HashMap<u64, S>,
    submitter_id: u64,
    delivered: Ghost<Seq<(S, i32)>>,
}

impl<S> SysProactor<S> {
    /// Every send the registry made, in order, whether or not its receiver
    /// still took the value: the sender and the result it was sent.
    pub closed spec fn delivered(&self) -> Seq<(S, i32)> {
        self.delivered@
    }

    /// Senders of the registered submissions, by id.
    pub closed spec fn submitters(&self) -> Map<u64, S> {
        self.submitters@
    }

    /// Id that the next submission gets.
    pub closed spec fn next_submission(&self) -> u64 {
        self.submitter_id
    }

    /// An empty registry whose first submission gets id 0.
    pub fn new() -> (r: Self)
        ensures
            r.submitters() == Map::<u64, S>::empty(),
            r.next_submission() == 0,
            r.delivered() == Seq::<(S, i32)>::empty(),
    {
        SysProactor { submitters: HashMap::new(), submitter_id: 0, delivered: Ghost(Seq::empty()) }
    }

    /// Registers the sender of a new submission and returns the id that the
    /// submission is to carry as its user data. Ids are handed out in
    /// order, wrapping around.
    pub fn register_io(&mut self, submitter: S) -> (id: u64)
        ensures
            id == old(self).next_submission(),
            final(self).next_submission() == next_id(id),
            final(self).submitters() == old(self).submitters().insert(id, submitter),
            final(self).delivered() == old(self).delivered(),
    {
        let id = self.submitter_id;
        self.submitter_id = self.submitter_id.wrapping_add(1);
        self.submitters.insert(id, submitter);
        id
    }

    /// The sender that a completion of a multishot submission is delivered
    /// to; the submission stays registered.
    pub fn cqe_completion_multi(&self, user_data: u64) -> (r: Option<&S>)
        ensures
            r == (if self.submitters().contains_key(user_data) {
                Some(&self.submitters()[user_data])
            } else {
                None::<&S>
            }),
    {
        self.submitters.get(&user_data)
    }

    /// Takes out the sender that the last completion of a submission is
    /// delivered to.
    pub fn cqe_completion_single(&mut self, user_data: u64) -> (r: Option<S>)
        ensures
            r == (if old(self).submitters().contains_key(user_data) {
                Some(old(self).submitters()[user_data])
            } else {
                None::<S>
            }),
            final(self).submitters() == old(self).submitters().remove(user_data),
            final(self).next_submission() == old(self).next_submission(),
            final(self).delivered() == old(self).delivered(),
    {
        self.submitters.remove(&user_data)
    }

    /// Reads the flags of a completion entry: whether it is one of several
    /// completions of a multishot submission (its sender is to be kept), and
    /// whether the reaping loop stops after it (when the socket has no more
    /// data ready or the submission completes no more).
    pub fn cqe_flags(flags: u32) -> (r: (bool, bool))
        ensures
            r.0 == flag_more(flags),
            r.1 == (!flag_sock_nonempty(flags) || !flag_more(flags)),
    {
        let multi = cqe_more(flags);
        let stop = !cqe_sock_nonempty(flags) || !multi;
        (multi, stop)
    }
}

/// A submission registered under a fresh id is the one its single
/// completion takes out, and taking it out restores the registry's senders.
pub proof fn law_single_completion_takes_registered_sender<S>(m: Map<u64, S>, id: u64, s: S)
    requires
        !m.contains_key(id),
    ensures
        m.insert(id, s).contains_key(id),
        m.insert(id, s)[id] == s,
        m.insert(id, s).remove(id) == m,
{
    assert(m.insert(id, s).remove(id) =~= m);
}

/// A completion entry stops the reaping pass when the socket has no more
/// data ready or the submission completes no more.
pub open spec fn entry_stops(flags: u32) -> bool {
    !flag_sock_nonempty(flags) || !flag_more(flags)
}

/// Senders and deliveries after the completion entry (user data, result,
/// flags): the result goes to the sender registered under the user data,
/// if any, and the sender stays registered only for a multishot entry.
pub open spec fn entry_effect<S>(subs: Map<u64, S>, log: Seq<(S, i32)>, e: (u64, i32, u32)) -> (
    Map<u64, S>,
    Seq<(S, i32)>,
) {
    (
        if flag_more(e.2) {
            subs
        } else {
            subs.remove(e.0)
        },
        if subs.contains_key(e.0) {
            log.push((subs[e.0], e.1))
        } else {
            log
        },
    )
}

/// Senders and deliveries after the completion entries, in order.
pub open spec fn entries_effect<S>(subs: Map<u64, S>, log: Seq<(S, i32)>, entries: Seq<(u64, i32, u32)>) -> (
    Map<u64, S>,
    Seq<(S, i32)>,
)
    decreases entries.len(),
{
    if entries.len() == 0 {
        (subs, log)
    } else {
        let p = entries_effect(subs, log, entries.drop_last());
        entry_effect(p.0, p.1, entries.last())
    }
}

/// Number of entries a reaping pass consumes: up to and including the
/// first entry that stops it, or all of them.
pub open spec fn reaped_count(entries: Seq<(u64, i32, u32)>) -> nat
    decreases entries.len(),
{
    if entries.len() == 0 {
        0
    } else if entry_stops(entries[0].2) {
        1
    } else {
        1 + reaped_count(entries.drop_first())
    }
}

/// A completion entry whose user data names a registered sender hands that
/// sender the entry's result, whatever the result is, 0 and negative
/// results included; an entry whose user data names no sender hands
/// nothing to anyone. The sender stays registered exactly when the entry
/// carries the more flag (value 2).
pub proof fn law_completion_reaches_its_sender<S>(
    subs: Map<u64, S>,
    log: Seq<(S, i32)>,
    user_data: u64,
    res: i32,
    flags: u32,
)
    ensures
        ({
            let after = entries_effect(subs, log, seq![(user_data, res, flags)]);
            &&& subs.contains_key(user_data) ==> after.1 == log.push((subs[user_data], res))
            &&& !subs.contains_key(user_data) ==> after.1 == log
            &&& after.0 == (if flags & 2 != 0 {
                subs
            } else {
                subs.remove(user_data)
            })
        }),
{
    let es = seq![(user_data, res, flags)];
    assert(es.drop_last() =~= Seq::<(u64, i32, u32)>::empty());
    assert(es.last() == (user_data, res, flags));
    assert(entries_effect(subs, log, es.drop_last()) == (subs, log));
    assert(entries_effect(subs, log, es) == entry_effect(subs, log, (user_data, res, flags)));
}

/// Entries handled one pass after another hand out what they would in one
/// pass: the deliveries of a pass over `a + b` are those of `a` followed by
/// those of `b`, started from the senders `a` left.
pub proof fn law_reaping_passes_compose<S>(
    subs: Map<u64, S>,
    log: Seq<(S, i32)>,
    a: Seq<(u64, i32, u32)>,
    b: Seq<(u64, i32, u32)>,
)
    ensures
        entries_effect(subs, log, a + b) == ({
            let mid = entries_effect(subs, log, a);
            entries_effect(mid.0, mid.1, b)
        }),
    decreases b.len(),
{
    if b.len() == 0 {
        assert(a + b =~= a);
    } else {
        assert((a + b).drop_last() =~= a + b.drop_last());
        law_reaping_passes_compose(subs, log, a, b.drop_last());
    }
}

/// A reaping pass consumes the entries up to and including the first one
/// whose flags lack the more flag (value 2) or the socket-nonempty flag
/// (value 4), and every entry when none does.
pub proof fn law_reaping_pass_length(entries: Seq<(u64, i32, u32)>, k: int)
    requires
        0 <= k <= entries.len(),
        forall|j: int| 0 <= j < k ==> #[trigger] entries[j].2 & 2 != 0 && entries[j].2 & 4 != 0,
        k < entries.len() ==> (entries[k].2 & 2 == 0 || entries[k].2 & 4 == 0),
    ensures
        reaped_count(entries) == if k < entries.len() {
            k + 1
        } else {
            k
        },
    decreases k,
{
    if k > 0 {
        let rest = entries.drop_first();
        assert(entries[0].2 & 2 != 0 && entries[0].2 & 4 != 0);
        assert forall|j: int| 0 <= j < k - 1 implies #[trigger] rest[j].2 & 2 != 0 && rest[j].2 & 4 != 0 by {
            assert(rest[j] == entries[j + 1]);
        }
        law_reaping_pass_length(rest, k - 1);
    }
}

impl SysProactor<Sender<i32>> {
    /// Registers a fresh completion channel for a new submission and returns
    /// the id that the submission is to carry as its user data, with the
    /// receiving half. The registry changes as `register_io` describes, the
    /// new sender being the one the returned receiver is linked to.
    pub fn register_completion(&mut self) -> (r: (u64, CompletionChan))
        ensures
            r.0 == old(self).next_submission(),
            final(self).next_submission() == next_id(r.0),
            final(self).submitters() == old(self).submitters().insert(r.0, r.1.partner()),
            final(self).delivered() == old(self).delivered(),
    {
        let (tx, ch) = completion_channel();
        let id = self.register_io(tx);
        (id, ch)
    }

    /// Handles a completion entry with user data `user_data`, result `res`
    /// and flags `flags`. The result is sent to the submission's sender, if
    /// one is registered; an entry of a multishot submission keeps it
    /// registered, any other entry takes it out. Returns whether the reaping
    /// loop stops after this entry.
    pub fn complete_entry(&mut self, user_data: u64, res: i32, flags: u32) -> (stop: bool)
        ensures
            stop == entry_stops(flags),
            (final(self).submitters(), final(self).delivered()) == entry_effect(
                old(self).submitters(),
                old(self).delivered(),
                (user_data, res, flags),
            ),
            final(self).next_submission() == old(self).next_submission(),
    {
        let (multi, stop) = Self::cqe_flags(flags);
        if multi {
            match self.cqe_completion_multi(user_data) {
                Some(tx) => {
                    let (_, sent) = send_result(tx, res);
                    proof {
                        self.delivered@ = self.delivered@.push(sent@);
                    }
                },
                None => {},
            }
        } else {
            match self.cqe_completion_single(user_data) {
                Some(tx) => {
                    let (_, sent) = send_result(&tx, res);
                    proof {
                        self.delivered@ = self.delivered@.push(sent@);
                    }
                },
                None => {},
            }
        }
        stop
    }

    /// One reaping pass over the completion entries (user data, result,
    /// flags) that the completion queue yields, in order: each entry is
    /// handled as `complete_entry` describes, until one stops the pass.
    /// Returns the number of entries consumed and whether an entry stopped
    /// the pass; the entries after the stopping one are left alone.
    pub fn complete_entries(&mut self, entries: &Vec<(u64, i32, u32)>) -> (r: (usize, bool))
        ensures
            r.0 == reaped_count(entries@),
            r.1 == (r.0 > 0 && entry_stops(entries@[r.0 - 1].2)),
            (final(self).submitters(), final(self).delivered()) == entries_effect(
                old(self).submitters(),
                old(self).delivered(),
                entries@.take(r.0 as int),
            ),
            final(self).next_submission() == old(self).next_submission(),
    {
        let ghost subs0 = self.submitters();
        let ghost log0 = self.delivered();
        let mut i: usize = 0;
        assert(entries@.skip(0) =~= entries@);
        while i < entries.len()
            invariant
                0 <= i <= entries.len(),
                forall|j: int| 0 <= j < i ==> !entry_stops(#[trigger] entries@[j].2),
                reaped_count(entries@) == i + reaped_count(entries@.skip(i as int)),
                (self.submitters(), self.delivered()) == entries_effect(
                    subs0,
                    log0,
                    entries@.take(i as int),
                ),
                self.next_submission() == old(self).next_submission(),
                subs0 == old(self).submitters(),
                log0 == old(self).delivered(),
            decreases entries.len() - i,
        {
            assert(entries@.skip(i as int).drop_first() =~= entries@.skip(i + 1));
            assert(entries@.take(i + 1).drop_last() =~= entries@.take(i as int));
            let (user_data, res, flags) = entries[i];
            let stop = self.complete_entry(user_data, res, flags);
            assert((self.submitters(), self.delivered()) == entries_effect(
                subs0,
                log0,
                entries@.take(i + 1),
            ));
            i = i + 1;
            if stop {
                return (i, true);
            }
        }
        assert(entries@.skip(entries.len() as int) =~= Seq::<(u64, i32, u32)>::empty());
        (i, false)
    }
}

} // verus!
