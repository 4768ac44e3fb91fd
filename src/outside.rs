use futures::channel::mpsc::{Receiver, Sender};
use crate::watchers::Subscription;
use vstd::prelude::*;

verus! {

#[verifier::external_type_specification]
#[verifier::external_body]
#[verifier::reject_recursive_types(T)]
pub struct ExSender<T>(Sender<T>);

#[verifier::external_type_specification]
#[verifier::external_body]
#[verifier::reject_recursive_types(T)]
pub struct ExReceiver<T>(Receiver<T>);

/// Relies on futures::channel::mpsc::channel: a connected sender and receiver
/// pair whose buffer holds `buffer` messages beyond one per sender. It panics
/// when `buffer` reaches `usize::MAX >> 2`, which `requires` leaves out.
#[verifier::external_body]
pub(crate) fn open_channel(buffer: usize) -> (r: (Sender<String>, Receiver<String>))
    requires
        buffer < usize::MAX / 4,
{
    futures::channel::mpsc::channel(buffer)
}

/// Relies on futures' `Clone` for `Sender`: one more sender into the same
/// channel. It panics only past `usize::MAX >> 2` live senders of one channel,
/// more than memory can hold.
#[verifier::external_body]
pub(crate) fn clone_sender(s: &Sender<String>) -> (r: Sender<String>) {
    s.clone()
}

/// Relies on futures::channel::mpsc::Sender::try_send: hands `message` to
/// the subscription's channel, which queues it when it is open and has room,
/// and reports whether it did. The subscription records the message as
/// offered, and as taken when the channel took it. Which of the two happens
/// depends on the receiving side, so nothing more is stated.
#[verifier::external_body]
pub(crate) fn offer_to(sub: &mut Subscription, message: String) -> (delivered: bool)
    ensures
        final(sub).offered@ == old(sub).offered@.push(message@),
        final(sub).accepted@ == old(sub).accepted@ + if delivered { 1nat } else { 0nat },
        final(sub).key == old(sub).key,
        final(sub).client == old(sub).client,
{
    sub.offered = Ghost(sub.offered@.push(message@));
    let delivered = sub.sender.try_send(message).is_ok();
    sub.accepted = Ghost(sub.accepted@ + if delivered { 1nat } else { 0nat });
    delivered
}

/// Relies on std::time::SystemTime::now: nanoseconds since the Unix epoch,
/// truncated to 64 bits, or zero for a clock set before the epoch. The value
/// depends on the moment of the call, so nothing is stated of it.
#[verifier::external_body]
pub(crate) fn clock_nanos() -> (r: u64) {
    match std::time::SystemTime::now().duration_since(std::time::UNIX_EPOCH) {
        Ok(d) => d.as_nanos() as u64,
        Err(_) => 0,
    }
}

} // verus!
