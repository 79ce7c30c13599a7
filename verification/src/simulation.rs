//! The transport capability: the one seam between node logic, which is
//! deterministic, and the network, which is not.

use crate::error::TransportError;
use bytes::Bytes;
use vstd::prelude::*;

verus! {

/// One send as the transport was asked to make it: the destination peer and
/// the payload.
pub type Dispatch = (Seq<char>, Seq<u8>);

/// What node logic may ask of a transport: send a payload to a peer, and
/// poll for an inbound payload.
///
/// Node and broadcast logic hold a transport only through this trait and
/// cannot tell one implementation from another.
pub trait Simulation {
    /// Every send that this transport was asked to make, oldest first,
    /// whether or not it succeeded.
    spec fn dispatched(&self) -> Seq<Dispatch>;

    /// Whether this transport never reports a fault.
    spec fn reliable(&self) -> bool;

    /// Whether one poll of this transport can give `answer` and leave
    /// `after` behind. Every transport says here what its polls do, as far
    /// as it is known.
    spec fn polls(&self, answer: Result<Option<Bytes>, TransportError>, after: &Self) -> bool;

    /// Sends `message` to the peer `address`.
    fn send_message(&mut self, address: &str, message: &[u8]) -> (r: Result<(), TransportError>)
        ensures
            final(self).dispatched() == old(self).dispatched().push((address@, message@)),
            final(self).reliable() == old(self).reliable(),
            old(self).reliable() ==> r is Ok,
    ;

    /// Polls for an inbound payload. `Ok(None)` says that nothing is
    /// pending; it is not a fault.
    fn receive_message(&mut self) -> (r: Result<Option<Bytes>, TransportError>)
        ensures
            old(self).polls(r, final(self)),
            final(self).dispatched() == old(self).dispatched(),
            final(self).reliable() == old(self).reliable(),
            old(self).reliable() ==> r is Ok,
    ;
}

/// A transport as the embedding program supplies it: the same two
/// operations, with nothing stated of them. Whatever an implementation does,
/// the logic built on it is verified for it.
pub trait RawTransport {
    /// Sends `message` to the peer `address`.
    fn send(&mut self, address: &str, message: &[u8]) -> Result<(), TransportError>;

    /// Polls for an inbound payload, without waiting for one.
    fn poll(&mut self) -> Result<Option<Bytes>, TransportError>;
}

/// A [`RawTransport`] together with the record of the sends that were
/// asked of it, which makes it a [`Simulation`].
pub struct Recorded<T: RawTransport> {
    inner: T,
    asked: Ghost<Seq<Dispatch>>,
}

impl<T: RawTransport> Recorded<T> {
    /// The transport that the record is kept of.
    pub closed spec fn transport(&self) -> T {
        self.inner
    }

    /// Starts the record of `inner`, empty.
    pub fn new(inner: T) -> (recorded: Self)
        ensures
            recorded.transport() == inner,
            recorded.dispatched() == Seq::<Dispatch>::empty(),
            !recorded.reliable(),
    {
        Recorded { inner, asked: Ghost(Seq::empty()) }
    }

    /// The transport that the record is kept of.
    pub fn inner(&self) -> (inner: &T)
        ensures
            *inner == self.transport(),
    {
        &self.inner
    }
}

impl<T: RawTransport> Simulation for Recorded<T> {
    closed spec fn dispatched(&self) -> Seq<Dispatch> {
        self.asked@
    }

    open spec fn reliable(&self) -> bool {
        false
    }

    /// Nothing is known of what the transport answers.
    open spec fn polls(&self, answer: Result<Option<Bytes>, TransportError>, after: &Self) -> bool {
        true
    }

    /// Notes the send and hands it to the transport, whose answer is
    /// returned as it comes.
    fn send_message(&mut self, address: &str, message: &[u8]) -> (r: Result<(), TransportError>) {
        proof {
            self.asked@ = self.asked@.push((address@, message@));
        }
        self.inner.send(address, message)
    }

    /// Polls the transport, whose answer is returned as it comes.
    fn receive_message(&mut self) -> (r: Result<Option<Bytes>, TransportError>) {
        self.inner.poll()
    }
}

} // verus!
