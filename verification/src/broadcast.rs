//! The broadcast layer: fans a payload out to every peer and folds inbound
//! payloads, one at a time, into a log.

use crate::buffer::{bytes_contents, bytes_to_vec};
use crate::error::{ReceiveError, TransportError};
use crate::multiset_lemmas::lemma_map_keeps_multiset;
use crate::peers::{texts, PeerSet};
use crate::simulation::{Dispatch, Simulation};
use crate::text::{text_from_utf8, trim_text, trimmed};
use bytes::Bytes;
use vstd::prelude::*;
use vstd::utf8::{decode_utf8, encode_utf8, valid_utf8};

verus! {

/// The sends of one broadcast: `payload` to each of `ids`, in their order.
pub open spec fn fan_out(ids: Seq<Seq<char>>, payload: Seq<u8>) -> Seq<Dispatch> {
    ids.map_values(|id: Seq<char>| (id, payload))
}

/// The first fault among `outcomes`, if any send failed.
pub open spec fn first_failure_of(outcomes: Seq<Result<(), TransportError>>) -> Option<
    TransportError,
>
    decreases outcomes.len(),
{
    if outcomes.len() == 0 {
        None
    } else {
        match outcomes[0] {
            Err(fault) => Some(fault),
            Ok(_) => first_failure_of(outcomes.drop_first()),
        }
    }
}

/// Whether a payload is dropped as undecodable: it holds bytes, and they
/// are not well-formed UTF-8.
pub open spec fn is_malformed(payload: Seq<u8>) -> bool {
    payload.len() > 0 && !valid_utf8(payload)
}

/// The text that a payload is logged as: what it decodes to, without the
/// white space around it.
pub open spec fn text_of(payload: Seq<u8>) -> Seq<char> {
    trimmed(decode_utf8(payload))
}

/// Whether a payload is observed: it decodes, and text is left of it when
/// the white space around it is gone.
pub open spec fn is_observed(payload: Seq<u8>) -> bool {
    payload.len() > 0 && valid_utf8(payload) && text_of(payload).len() > 0
}

/// A fan-out is complete whatever the order of the peers: it holds one send
/// for each peer, in the order of the peers, and visiting the same peers in
/// another order gives the same sends in that other order.
pub proof fn lemma_fan_out_is_complete(
    ids: Seq<Seq<char>>,
    reordered: Seq<Seq<char>>,
    payload: Seq<u8>,
)
    requires
        ids.to_multiset() == reordered.to_multiset(),
    ensures
        fan_out(ids, payload).len() == ids.len(),
        forall|i: int| 0 <= i < ids.len() ==> fan_out(ids, payload)[i] == (ids[i], payload),
        fan_out(ids, payload).to_multiset() == fan_out(reordered, payload).to_multiset(),
{
    lemma_map_keeps_multiset(ids, reordered, |id: Seq<char>| (id, payload));
}

/// No fault is found exactly where every send succeeded.
pub proof fn lemma_first_failure_none(outcomes: Seq<Result<(), TransportError>>)
    ensures
        first_failure_of(outcomes) is None <==> forall|i: int|
            0 <= i < outcomes.len() ==> outcomes[i] is Ok,
    decreases outcomes.len(),
{
    if outcomes.len() > 0 {
        let rest = outcomes.drop_first();
        lemma_first_failure_none(rest);
        if outcomes[0] is Ok {
            if forall|i: int| 0 <= i < rest.len() ==> rest[i] is Ok {
                assert forall|i: int| 0 <= i < outcomes.len() implies outcomes[i] is Ok by {
                    if i > 0 {
                        assert(rest[i - 1] is Ok);
                    }
                }
            } else {
                let i = choose|i: int| 0 <= i < rest.len() && !(rest[i] is Ok);
                assert(!(outcomes[i + 1] is Ok));
            }
        }
    }
}

/// The first fault among the outcomes of a fan-out.
pub fn first_failure(outcomes: &Vec<Result<(), TransportError>>) -> (failure: Option<
    TransportError,
>)
    ensures
        failure == first_failure_of(outcomes@),
{
    let mut i: usize = 0;
    assert(outcomes@.subrange(0, outcomes@.len() as int) =~= outcomes@);
    while i < outcomes.len()
        invariant
            i <= outcomes@.len(),
            first_failure_of(outcomes@) == first_failure_of(
                outcomes@.subrange(i as int, outcomes@.len() as int),
            ),
        decreases outcomes@.len() - i,
    {
        let ghost rest = outcomes@.subrange(i as int, outcomes@.len() as int);
        assert(rest[0] == outcomes@[i as int]);
        match outcomes[i] {
            Err(fault) => {
                return Some(fault);
            },
            Ok(_) => {
                assert(rest.drop_first() =~= outcomes@.subrange(i + 1, outcomes@.len() as int));
            },
        }
        i += 1;
    }
    assert(outcomes@.subrange(i as int, outcomes@.len() as int).len() == 0);
    None
}

/// The state of one node's broadcasting: whom it sends to, what it has
/// observed, the transport it uses and how many broadcasts went through.
pub struct BroadcastLayer<S: Simulation> {
    /// The peers that every broadcast goes to. Fixed when the layer is
    /// built.
    pub peers: PeerSet,
    /// The log: every message observed, oldest first.
    pub messages: Vec<String>,
    /// The transport.
    pub s: S,
    /// The number of broadcasts that went through.
    pub current_seq_number: usize,
}

impl<S: Simulation> BroadcastLayer<S> {
    /// The log: the text of every message observed, oldest first.
    pub open spec fn log(&self) -> Seq<Seq<char>> {
        texts(self.messages@)
    }

    /// What the layer makes of one answer of its transport: a fault is
    /// passed on, and a payload is taken in as [`Self::observe`] takes it
    /// in. Peers and counter stay as they are.
    pub open spec fn takes_in(
        &self,
        answer: Result<Option<Bytes>, TransportError>,
        r: Result<Option<Bytes>, ReceiveError>,
        after: &Self,
    ) -> bool {
        &&& after.peers == self.peers
        &&& after.current_seq_number == self.current_seq_number
        &&& match answer {
            Err(fault) => {
                &&& r == Err::<Option<Bytes>, ReceiveError>(ReceiveError::Transport(fault))
                &&& after.messages == self.messages
            },
            Ok(Some(payload)) if is_malformed(bytes_contents(payload)) => {
                &&& r == Err::<Option<Bytes>, ReceiveError>(ReceiveError::Decode)
                &&& after.messages == self.messages
            },
            Ok(Some(payload)) if is_observed(bytes_contents(payload)) => {
                &&& r == Ok::<Option<Bytes>, ReceiveError>(Some(payload))
                &&& after.log() == self.log().push(text_of(bytes_contents(payload)))
            },
            Ok(_) => {
                &&& r == Ok::<Option<Bytes>, ReceiveError>(None)
                &&& after.messages == self.messages
            },
        }
    }

    /// What one receive makes of the layer: the transport is polled once,
    /// and what it answers is taken in.
    pub open spec fn received(&self, r: Result<Option<Bytes>, ReceiveError>, after: &Self) -> bool {
        exists|answer: Result<Option<Bytes>, TransportError>|
            #[trigger] self.s.polls(answer, &after.s) && self.takes_in(answer, r, after)
    }

    /// A layer that sends to `peers` over `s`, with an empty log and no
    /// broadcast counted.
    pub fn build(peers: PeerSet, s: S) -> (layer: Self)
        ensures
            layer.peers == peers,
            layer.s == s,
            layer.log() == Seq::<Seq<char>>::empty(),
            layer.current_seq_number == 0,
    {
        let layer = BroadcastLayer { peers, messages: Vec::new(), s, current_seq_number: 0 };
        assert(layer.log() =~= Seq::<Seq<char>>::empty());
        layer
    }

    /// Sends `message` to every peer, each exactly once, whether or not an
    /// earlier send failed. The broadcast counts only if every send
    /// succeeded; otherwise the first fault is returned, and nothing is
    /// retried or undone.
    pub fn broadcast(&mut self, message: &str) -> (r: Result<(), TransportError>)
        requires
            old(self).current_seq_number < usize::MAX,
        ensures
            final(self).peers == old(self).peers,
            final(self).messages == old(self).messages,
            final(self).s.dispatched() == old(self).s.dispatched() + fan_out(
                old(self).peers.ids(),
                encode_utf8(message@),
            ),
            old(self).peers.ids().no_duplicates(),
            final(self).s.reliable() == old(self).s.reliable(),
            r is Ok ==> final(self).current_seq_number == old(self).current_seq_number + 1,
            r is Err ==> final(self).current_seq_number == old(self).current_seq_number,
            old(self).s.reliable() || old(self).peers.ids().len() == 0 ==> r is Ok,
    {
        let payload = message.as_bytes();
        let count = self.peers.len();
        let mut outcomes: Vec<Result<(), TransportError>> = Vec::new();
        let mut i: usize = 0;
        assert(fan_out(self.peers.ids().subrange(0, 0), payload@) =~= Seq::<Dispatch>::empty());
        while i < count
            invariant
                i <= count,
                count == self.peers.ids().len(),
                outcomes@.len() == i,
                self.peers == old(self).peers,
                self.messages == old(self).messages,
                self.current_seq_number == old(self).current_seq_number,
                self.s.reliable() == old(self).s.reliable(),
                self.s.dispatched() == old(self).s.dispatched() + fan_out(
                    self.peers.ids().subrange(0, i as int),
                    payload@,
                ),
                self.s.reliable() ==> forall|j: int| 0 <= j < i ==> outcomes@[j] is Ok,
            decreases count - i,
        {
            let ghost before = self.s.dispatched();
            let outcome = self.s.send_message(self.peers.get(i).as_str(), payload);
            outcomes.push(outcome);
            assert(fan_out(self.peers.ids().subrange(0, i + 1), payload@) =~= fan_out(
                self.peers.ids().subrange(0, i as int),
                payload@,
            ).push((self.peers.ids()[i as int], payload@)));
            i += 1;
        }
        assert(self.peers.ids().subrange(0, count as int) =~= self.peers.ids());
        proof {
            lemma_first_failure_none(outcomes@);
        }
        match first_failure(&outcomes) {
            None => {
                self.current_seq_number += 1;
                Ok(())
            },
            Some(fault) => Err(fault),
        }
    }

    /// Takes in what the transport handed over. A payload that holds text
    /// is logged, trimmed, and handed on as it came; one that is empty, or
    /// holds white space only, counts as nothing; one that is not UTF-8 is
    /// dropped with a decode error.
    pub fn observe(&mut self, inbound: Option<Bytes>) -> (r: Result<Option<Bytes>, ReceiveError>)
        ensures
            final(self).peers == old(self).peers,
            final(self).s == old(self).s,
            final(self).current_seq_number == old(self).current_seq_number,
            match inbound {
                Some(payload) if is_malformed(bytes_contents(payload)) => {
                    &&& r == Err::<Option<Bytes>, ReceiveError>(ReceiveError::Decode)
                    &&& final(self).messages == old(self).messages
                },
                Some(payload) if is_observed(bytes_contents(payload)) => {
                    &&& r == Ok::<Option<Bytes>, ReceiveError>(Some(payload))
                    &&& final(self).log() == old(self).log().push(
                        text_of(bytes_contents(payload)),
                    )
                },
                _ => {
                    &&& r == Ok::<Option<Bytes>, ReceiveError>(None)
                    &&& final(self).messages == old(self).messages
                },
            },
    {
        match inbound {
            None => Ok(None),
            Some(payload) => {
                if payload.is_empty() {
                    return Ok(None);
                }
                match text_from_utf8(bytes_to_vec(&payload)) {
                    None => Err(ReceiveError::Decode),
                    Some(text) => {
                        let trimmed_text = trim_text(text.as_str());
                        if trimmed_text.is_empty() {
                            Ok(None)
                        } else {
                            let ghost before = self.messages@;
                            self.messages.push(trimmed_text.to_owned());
                            assert(texts(self.messages@) =~= texts(before).push(trimmed_text@));
                            Ok(Some(payload))
                        }
                    },
                }
            },
        }
    }

    /// Polls the transport once and takes in what it hands over. The log
    /// grows by the text of the payload exactly where one is returned.
    pub fn receive(&mut self) -> (r: Result<Option<Bytes>, ReceiveError>)
        ensures
            old(self).received(r, final(self)),
            final(self).peers == old(self).peers,
            final(self).current_seq_number == old(self).current_seq_number,
            final(self).s.dispatched() == old(self).s.dispatched(),
            final(self).s.reliable() == old(self).s.reliable(),
            match r {
                Ok(Some(payload)) => {
                    &&& is_observed(bytes_contents(payload))
                    &&& final(self).log() == old(self).log().push(
                        text_of(bytes_contents(payload)),
                    )
                },
                _ => final(self).messages == old(self).messages,
            },
            old(self).s.reliable() ==> !(r matches Err(ReceiveError::Transport(_))),
    {
        let answer = self.s.receive_message();
        let ghost answered = answer;
        let r = match answer {
            Err(fault) => Err(ReceiveError::Transport(fault)),
            Ok(inbound) => self.observe(inbound),
        };
        assert(old(self).s.polls(answered, &self.s) && old(self).takes_in(answered, r, self));
        r
    }
}

} // verus!
