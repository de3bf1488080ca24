use vstd::prelude::*;
use crossbeam::channel::{Receiver, Sender};

verus! {

#[verifier::external_type_specification]
#[verifier::external_body]
#[verifier::reject_recursive_types(T)]
pub struct ExSender<T>(Sender<T>);

#[verifier::external_type_specification]
#[verifier::external_body]
#[verifier::reject_recursive_types(T)]
pub struct ExReceiver<T>(Receiver<T>);

/// Calls `crossbeam::channel::Sender::send`. Claimed: a refused message is handed back
/// unchanged. Whether it is refused depends on whether the receiving side still exists,
/// which nothing here states.
#[verifier::external_body]
fn channel_send<T>(sender: &Sender<T>, msg: T) -> (r: Result<(), T>)
    ensures
        r matches Err(back) ==> back == msg,
{
    sender.send(msg).map_err(|e| e.into_inner())
}

/// Calls `crossbeam::channel::Receiver::try_iter` and collects the messages that are
/// waiting. Which messages wait depends on other threads, so nothing is claimed of them.
#[verifier::external_body]
fn channel_drain<T>(receiver: &Receiver<T>) -> Vec<T> {
    receiver.try_iter().collect()
}

/// Why a packet could not be sent.
#[derive(Debug)]
pub enum NetworkError<S> {
    /// The other side of the connection is gone; the packet that was refused.
    Disconnected(S),
}

/// What a send comes to, given what the channel answered: a refused packet means the
/// other side of the connection is gone, and the error hands the packet back.
pub fn send_outcome<S>(answer: Result<(), S>) -> (r: Result<(), NetworkError<S>>)
    ensures
        answer is Ok ==> r is Ok,
        answer matches Err(p) ==> r matches Err(NetworkError::Disconnected(q)) && q == p,
{
    match answer {
        Ok(()) => Ok(()),
        Err(p) => Err(NetworkError::Disconnected(p)),
    }
}

/// The client end of a connection: packets for the server go out, packets for the
/// client come in.
#[verifier::reject_recursive_types(S)]
#[verifier::reject_recursive_types(C)]
pub struct ClientNetwork<S, C> {
    sender: Sender<S>,
    receiver: Receiver<C>,
}

impl<S, C> ClientNetwork<S, C> {
    /// A connection over the given channel ends.
    pub fn new(sender: Sender<S>, receiver: Receiver<C>) -> (r: ClientNetwork<S, C>)
        ensures
            r.sender() == sender,
            r.receiver() == receiver,
    {
        ClientNetwork { sender, receiver }
    }

    pub closed spec fn sender(&self) -> Sender<S> {
        self.sender
    }

    pub closed spec fn receiver(&self) -> Receiver<C> {
        self.receiver
    }

    /// Sends a packet to the server; fails when the server side is gone, handing the
    /// packet back.
    pub fn send(&self, packet: S) -> (r: Result<(), NetworkError<S>>)
        ensures
            r matches Err(NetworkError::Disconnected(p)) ==> p == packet,
    {
        send_outcome(channel_send(&self.sender, packet))
    }

    /// The packets that the server has sent and that were not polled yet.
    pub fn poll(&self) -> Vec<C> {
        channel_drain(&self.receiver)
    }
}

} // verus!
