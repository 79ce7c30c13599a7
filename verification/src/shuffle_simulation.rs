//! The simulated transport: a loopback queue whose order is decided by a
//! seed.
//!
//! Everything sent through a [`ShuffleSimulation`] comes back on its own
//! receive path. A seed that is a multiple of [`REORDER_MODULUS`] has the
//! queue reshuffled, with the generator that the seed started, every time a
//! message enters it; any other seed leaves the queue in arrival order.

use crate::buffer::bytes_contents;
use crate::error::TransportError;
use crate::multiset_lemmas::lemma_map_keeps_multiset;
use crate::simulation::{Dispatch, Simulation};
use bytes::Bytes;
use rand::rngs::SmallRng;
use rand::seq::SliceRandom;
use rand::SeedableRng;
use std::collections::VecDeque;
use vstd::prelude::*;
use vstd::seq_lib::to_multiset_build;
use vstd::slice::slice_to_vec;

verus! {

/// `rand::rngs::SmallRng`: a small pseudo-random generator. Nothing inside
/// it is visible here, and nothing is stated of the numbers it gives.
#[verifier::external_type_specification]
#[verifier::external_body]
pub struct ExSmallRng(rand::rngs::SmallRng);

/// Seeds that are a multiple of this have the queue reshuffled.
pub const REORDER_MODULUS: u64 = 10;

/// A message that waits for delivery: the peer it is attributed to and its
/// payload.
pub type Pending = (Seq<char>, Seq<u8>);

/// `SeedableRng::seed_from_u64` builds the generator that the seed stands
/// for. The generator is opaque here, so nothing is stated of it.
#[verifier::external_body]
fn seeded_rng(seed: u64) -> SmallRng {
    SmallRng::seed_from_u64(seed)
}

/// `SliceRandom::shuffle` reorders the slice in place by swapping pairs of
/// its items, so afterwards it holds the same items, each as often as
/// before. Which order comes out is left to the generator.
#[verifier::external_body]
fn shuffle_entries(entries: &mut Vec<(String, Bytes)>, rng: &mut SmallRng)
    ensures
        final(entries)@.to_multiset() == old(entries)@.to_multiset(),
{
    entries.shuffle(rng);
}

/// What a queued entry stands for.
pub open spec fn entry_view(entry: (String, Bytes)) -> Pending {
    (entry.0@, bytes_contents(entry.1))
}

/// What a run of queued entries stands for.
pub open spec fn entries_view(entries: Seq<(String, Bytes)>) -> Seq<Pending> {
    entries.map_values(|entry: (String, Bytes)| entry_view(entry))
}

/// The bytes that a poll handed out, if it handed out any.
pub open spec fn delivered(r: Result<Option<Bytes>, TransportError>) -> Option<Seq<u8>> {
    match r {
        Ok(Some(payload)) => Some(bytes_contents(payload)),
        _ => None,
    }
}

/// Moves every entry out of `queue`, first to last.
fn take_all(queue: &mut VecDeque<(String, Bytes)>) -> (entries: Vec<(String, Bytes)>)
    ensures
        entries@ == old(queue)@,
        final(queue)@.len() == 0,
{
    let mut entries: Vec<(String, Bytes)> = Vec::new();
    while queue.len() > 0
        invariant
            entries@ + queue@ == old(queue)@,
        decreases queue@.len(),
    {
        let ghost before = queue@;
        match queue.pop_front() {
            Some(entry) => {
                entries.push(entry);
                assert(entries@ + queue@ =~= (entries@.drop_last() + before));
            },
            None => {},
        }
    }
    assert(entries@ =~= entries@ + queue@);
    entries
}

/// Puts `entries` behind what `queue` holds, keeping their order.
fn put_all(queue: &mut VecDeque<(String, Bytes)>, entries: Vec<(String, Bytes)>)
    ensures
        final(queue)@ == old(queue)@ + entries@,
{
    let mut rest = entries;
    let mut tail: VecDeque<(String, Bytes)> = VecDeque::new();
    while rest.len() > 0
        invariant
            rest@ + tail@ == entries@,
        decreases rest@.len(),
    {
        let ghost before = rest@;
        match rest.pop() {
            Some(entry) => {
                tail.push_front(entry);
                assert(rest@ + tail@ =~= before + tail@.drop_first());
            },
            None => {},
        }
    }
    assert(tail@ =~= rest@ + tail@);
    queue.append(&mut tail);
}

/// The loopback transport of a simulated run.
pub struct ShuffleSimulation {
    /// The seed of the run. It decides whether the queue is reshuffled.
    pub seed: u64,
    /// The messages that wait for delivery, next one first.
    pub message_queue: VecDeque<(String, Bytes)>,
    /// Every send that was made, oldest first.
    pub sent_messages: Vec<(String, Vec<u8>)>,
    rng: SmallRng,
}

impl ShuffleSimulation {
    /// The seed of the run.
    pub closed spec fn run_seed(&self) -> u64 {
        self.seed
    }

    /// The messages that wait for delivery, next one first.
    pub closed spec fn pending(&self) -> Seq<Pending> {
        entries_view(self.message_queue@)
    }

    /// Every send that was made, oldest first.
    pub closed spec fn history(&self) -> Seq<Dispatch> {
        self.sent_messages@.map_values(|sent: (String, Vec<u8>)| (sent.0@, sent.1@))
    }

    /// The generator that reshuffles the queue, in the state it is in.
    pub closed spec fn generator(&self) -> SmallRng {
        self.rng
    }

    /// Whether this run reshuffles its queue.
    pub open spec fn reorders(&self) -> bool {
        self.run_seed() % REORDER_MODULUS == 0
    }

    /// Whether `after` differs from `self` at most in its queue and in the
    /// state of its generator.
    pub open spec fn same_run(&self, after: &Self) -> bool {
        &&& after.run_seed() == self.run_seed()
        &&& after.history() == self.history()
    }

    /// What putting `entry` into the queue of `self` leaves behind: a run
    /// in arrival order has it at the tail; a run that reorders holds what
    /// it held, and `entry`, in some order.
    pub open spec fn injected(&self, entry: Pending, after: &Self) -> bool {
        &&& self.same_run(after)
        &&& !self.reorders() ==> after.pending() == self.pending().push(entry)
        &&& !self.reorders() ==> after.generator() == self.generator()
        &&& self.reorders() ==> after.pending().to_multiset() == self.pending().to_multiset().insert(
            entry,
        )
    }

    /// What a poll of `self` hands out and leaves behind: the payload at
    /// the head of the queue and the rest of it, or nothing and `self` as it
    /// was.
    pub open spec fn polled(&self, payload: Option<Seq<u8>>, after: &Self) -> bool {
        match payload {
            Some(bytes) => {
                &&& self.pending().len() > 0
                &&& bytes == self.pending()[0].1
                &&& after.pending() == self.pending().drop_first()
                &&& after.generator() == self.generator()
                &&& self.same_run(after)
            },
            None => {
                &&& self.pending().len() == 0
                &&& after == self
            },
        }
    }

    /// What sending `message` to `address` leaves behind: the send is on
    /// record, and the message is in the queue as `address` had sent it.
    pub open spec fn looped_back(&self, address: Seq<char>, message: Seq<u8>, after: &Self) -> bool {
        &&& after.run_seed() == self.run_seed()
        &&& after.history() == self.history().push((address, message))
        &&& !self.reorders() ==> after.pending() == self.pending().push((address, message))
        &&& !self.reorders() ==> after.generator() == self.generator()
        &&& self.reorders() ==> after.pending().to_multiset() == self.pending().to_multiset().insert(
            (address, message),
        )
    }

    /// A transport for the run that `seed` stands for, with nothing pending
    /// and nothing sent.
    pub fn new(seed: u64) -> (sim: Self)
        ensures
            sim.run_seed() == seed,
            sim.pending() == Seq::<Pending>::empty(),
            sim.history() == Seq::<Dispatch>::empty(),
    {
        let sim = ShuffleSimulation {
            seed,
            message_queue: VecDeque::new(),
            sent_messages: Vec::new(),
            rng: seeded_rng(seed),
        };
        assert(sim.pending() =~= Seq::<Pending>::empty());
        assert(sim.history() =~= Seq::<Dispatch>::empty());
        sim
    }

    /// Replaces the queue by `entries`, in their order.
    pub fn requeue(&mut self, entries: Vec<(String, Bytes)>)
        ensures
            old(self).same_run(final(self)),
            final(self).generator() == old(self).generator(),
            final(self).pending() == entries_view(entries@),
    {
        let _ = take_all(&mut self.message_queue);
        put_all(&mut self.message_queue, entries);
        assert(self.message_queue@ =~= entries@);
    }

    /// Puts a message attributed to `from` at the tail of the queue. Where
    /// the run reorders, the whole queue is then reshuffled.
    pub fn inject_message(&mut self, from: String, message: &[u8])
        ensures
            old(self).injected((from@, message@), final(self)),
    {
        let payload = Bytes::copy_from_slice(message);
        let ghost arrived = old(self).message_queue@.push((from, payload));
        self.message_queue.push_back((from, payload));
        assert(entries_view(arrived) =~= old(self).pending().push((from@, message@)));
        if self.seed % REORDER_MODULUS == 0 {
            let mut entries = take_all(&mut self.message_queue);
            shuffle_entries(&mut entries, &mut self.rng);
            proof {
                lemma_map_keeps_multiset(
                    entries@,
                    arrived,
                    |entry: (String, Bytes)| entry_view(entry),
                );
                to_multiset_build(old(self).pending(), (from@, message@));
            }
            self.requeue(entries);
        }
    }
}

impl Simulation for ShuffleSimulation {
    open spec fn dispatched(&self) -> Seq<Dispatch> {
        self.history()
    }

    open spec fn reliable(&self) -> bool {
        true
    }

    /// A poll never fails, and it hands out the head of the queue.
    open spec fn polls(&self, answer: Result<Option<Bytes>, TransportError>, after: &Self) -> bool {
        answer is Ok && self.polled(delivered(answer), after)
    }

    /// Records the send and loops the message back into the queue, as if
    /// the peer `address` had sent it.
    fn send_message(&mut self, address: &str, message: &[u8]) -> (r: Result<(), TransportError>)
        ensures
            r is Ok,
            old(self).looped_back(address@, message@, final(self)),
    {
        self.sent_messages.push((address.to_owned(), slice_to_vec(message)));
        assert(self.history() =~= old(self).history().push((address@, message@)));
        self.inject_message(address.to_owned(), message);
        Ok(())
    }

    /// Takes the head of the queue. On an empty queue it answers
    /// `Ok(None)` and changes nothing.
    fn receive_message(&mut self) -> (r: Result<Option<Bytes>, TransportError>)
        ensures
            r is Ok,
            old(self).polled(delivered(r), final(self)),
    {
        if self.message_queue.len() == 0 {
            return Ok(None);
        }
        match self.message_queue.pop_front() {
            Some((_from, payload)) => {
                assert(self.pending() =~= old(self).pending().drop_first());
                Ok(Some(payload))
            },
            None => Ok(None),
        }
    }
}

} // verus!
