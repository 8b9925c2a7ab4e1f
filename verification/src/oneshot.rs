//! One-shot completion channels of the readiness backends. A channel's
//! receiving half is kept with the sending half it is linked to, and only
//! this module pairs them.
use futures::channel::oneshot::{Receiver, Sender};
use vstd::prelude::*;

verus! {

/// The sending half of a one-shot completion channel.
#[verifier::external_type_specification]
#[verifier::external_body]
#[verifier::reject_recursive_types(T)]
pub struct ExSender<T>(Sender<T>);

/// The receiving half of a one-shot completion channel.
#[verifier::external_type_specification]
#[verifier::external_body]
#[verifier::reject_recursive_types(T)]
pub struct ExReceiver<T>(Receiver<T>);

/// The error a receiving half resolves to when its sender is dropped; the
/// receiving half is a future that can yield it.
#[verifier::external_type_specification]
#[verifier::external_body]
pub struct ExCanceled(futures::channel::oneshot::Canceled);

/// The receiving half of a waiter's completion channel, with the sending
/// half it is linked to.
#[verifier::reject_recursive_types(T)]
pub struct CompletionChan<T> {
    rx: Receiver<T>,
    partner: Ghost<Sender<T>>,
}

impl<T> CompletionChan<T> {
    /// The sending half whose value this receiver gets.
    pub closed spec fn partner(&self) -> Sender<T> {
        self.partner@
    }

    /// The receiving half.
    pub closed spec fn receiver(&self) -> Receiver<T> {
        self.rx
    }

    /// The receiving half, to be awaited.
    pub fn into_receiver(self) -> (rx: Receiver<T>)
        ensures
            rx == self.receiver(),
    {
        self.rx
    }
}

/// Calls `futures::channel::oneshot::channel`, which creates a linked pair
/// of halves, and keeps the sending half beside the receiving one as the
/// receiver's partner.
#[verifier::external_body]
pub(crate) fn completion_channel<T>() -> (pair: (Sender<T>, CompletionChan<T>))
    ensures
        pair.1.partner() == pair.0,
{
    let (tx, rx) = futures::channel::oneshot::channel();
    let partner = Ghost(tx);
    (tx, CompletionChan { rx, partner })
}

/// Calls `Sender::send` of `futures::channel::oneshot`, which hands `evts`
/// to the receiver linked to `tx`, and returns a record of that sender and
/// value. It fails when the receiver is gone, a matter of timing that is not
/// stated; the value handed back on failure is `evts` itself.
#[verifier::external_body]
pub(crate) fn send_readiness<T>(tx: Sender<T>, evts: T) -> (r: (Result<(), T>, Ghost<(Sender<T>, T)>))
    ensures
        r.1@ == (tx, evts),
        match r.0 {
            Ok(()) => true,
            Err(v) => v == evts,
        },
{
    let sent = Ghost((tx, evts));
    (tx.send(evts), sent)
}

} // verus!
