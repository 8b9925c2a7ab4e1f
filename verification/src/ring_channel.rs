//! Unbounded completion channels of the io_uring backend. A channel's
//! receiving half is kept with the sending half it is linked to, and only
//! this module pairs them.
use crossbeam_channel::{Receiver, SendError, Sender};
use vstd::prelude::*;

verus! {

/// The sending half of an unbounded completion channel.
#[verifier::external_type_specification]
#[verifier::external_body]
#[verifier::reject_recursive_types(T)]
pub struct ExSender<T>(Sender<T>);

/// The receiving half of an unbounded completion channel.
#[verifier::external_type_specification]
#[verifier::external_body]
#[verifier::reject_recursive_types(T)]
pub struct ExReceiver<T>(Receiver<T>);

/// The error of a send whose receiving half is gone.
#[verifier::external_type_specification]
#[verifier::external_body]
#[verifier::reject_recursive_types(T)]
pub struct ExSendError<T>(SendError<T>);

/// The receiving half of a submission's completion channel, with the
/// sending half it is linked to.
pub struct CompletionChan {
    rx: Receiver<i32>,
    partner: Ghost<Sender<i32>>,
}

impl CompletionChan {
    /// The sending half whose values this receiver gets.
    pub closed spec fn partner(&self) -> Sender<i32> {
        self.partner@
    }

    /// The receiving half.
    pub closed spec fn receiver(&self) -> Receiver<i32> {
        self.rx
    }

    /// A further handle on the receiving half: the same channel.
    pub fn get_rx(&self) -> (rx: Receiver<i32>)
        ensures
            rx == self.receiver(),
    {
        clone_receiver(&self.rx)
    }

    /// The receiving half, to be awaited.
    pub fn into_receiver(self) -> (rx: Receiver<i32>)
        ensures
            rx == self.receiver(),
    {
        self.rx
    }
}

/// Calls `crossbeam_channel::unbounded`, which creates a linked pair of
/// halves, and keeps the sending half beside the receiving one as the
/// receiver's partner.
#[verifier::external_body]
pub(crate) fn completion_channel() -> (pair: (Sender<i32>, CompletionChan))
    ensures
        pair.1.partner() == pair.0,
{
    let (tx, rx) = crossbeam_channel::unbounded();
    let partner = Ghost(tx);
    (tx, CompletionChan { rx, partner })
}

/// Calls `Receiver::clone` of `crossbeam_channel`, which gives another
/// handle on the same channel: it takes another reference to the channel
/// that `rx` points to, so the handle is the same value.
#[verifier::external_body]
fn clone_receiver(rx: &Receiver<i32>) -> (r: Receiver<i32>)
    ensures
        r == *rx,
{
    rx.clone()
}

/// Calls `Sender::send` of `crossbeam_channel`, which queues `res` for the
/// receiving half linked to `tx`, and returns a record of that sender and
/// value; on an unbounded channel it does not block. It fails when the
/// receiving half is gone, a matter of timing that is not stated.
#[verifier::external_body]
pub(crate) fn send_result(tx: &Sender<i32>, res: i32) -> (r: (Result<(), SendError<i32>>, Ghost<(Sender<i32>, i32)>))
    ensures
        r.1@ == (*tx, res),
{
    let sent = Ghost((*tx, res));
    (tx.send(res), sent)
}

} // verus!
