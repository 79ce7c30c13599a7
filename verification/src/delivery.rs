//! What the simulated transport delivers: laws that hold of every run of
//! injections, sends and polls.

use crate::multiset_lemmas::lemma_map_keeps_multiset;
use crate::shuffle_simulation::{Pending, ShuffleSimulation};
use vstd::prelude::*;
use vstd::seq_lib::{to_multiset_build, to_multiset_contains};

verus! {

/// The payloads of the given messages, in their order.
pub open spec fn payloads_of(entries: Seq<Pending>) -> Seq<Seq<u8>> {
    entries.map_values(|entry: Pending| entry.1)
}

/// Whether step `i` of `states` injects `entries[i]`.
pub open spec fn injects_at(states: Seq<ShuffleSimulation>, entries: Seq<Pending>, i: int) -> bool {
    states[i].injected(entries[i], &states[i + 1])
}

/// Whether step `i` of `states` is a poll that hands out `outs[i]`.
pub open spec fn polls_at(states: Seq<ShuffleSimulation>, outs: Seq<Seq<u8>>, i: int) -> bool {
    states[i].polled(Some(outs[i]), &states[i + 1])
}

/// `states` are the states that a transport goes through while `entries`
/// are injected one after the other.
pub open spec fn injection_run(states: Seq<ShuffleSimulation>, entries: Seq<Pending>) -> bool {
    &&& states.len() == entries.len() + 1
    &&& forall|i: int| 0 <= i < entries.len() ==> #[trigger] injects_at(states, entries, i)
}

/// `states` are the states that a transport goes through while it is
/// polled until nothing is pending, and `outs` is what the polls hand out.
pub open spec fn drain_run(states: Seq<ShuffleSimulation>, outs: Seq<Seq<u8>>) -> bool {
    &&& states.len() == outs.len() + 1
    &&& forall|i: int| 0 <= i < outs.len() ==> #[trigger] polls_at(states, outs, i)
    &&& states.last().pending().len() == 0
}

/// After a run of injections the queue holds what it held before and what
/// was injected; where the run keeps arrival order, it holds them in that
/// order.
pub proof fn lemma_injection_run(states: Seq<ShuffleSimulation>, entries: Seq<Pending>)
    requires
        injection_run(states, entries),
    ensures
        states.last().pending().to_multiset() == (states[0].pending() + entries).to_multiset(),
        !states[0].reorders() ==> states.last().pending() == states[0].pending() + entries,
        states.last().run_seed() == states[0].run_seed(),
    decreases entries.len(),
{
    if entries.len() == 0 {
        assert(states[0].pending() + entries =~= states[0].pending());
    } else {
        let front_states = states.drop_last();
        let front = entries.drop_last();
        let entry = entries.last();
        assert forall|i: int| 0 <= i < front.len() implies #[trigger] injects_at(
            front_states,
            front,
            i,
        ) by {
            assert(injects_at(states, entries, i));
        }
        lemma_injection_run(front_states, front);
        let before = states[states.len() - 2];
        assert(before == front_states.last());
        assert(injects_at(states, entries, entries.len() - 1));
        assert(before.injected(entry, &states.last()));
        assert(states[0].pending() + entries =~= (states[0].pending() + front).push(entry));
        to_multiset_build(states[0].pending() + front, entry);
        to_multiset_build(before.pending(), entry);
    }
}

/// Polling a transport until nothing is pending hands out the payloads of
/// its queue, head first.
pub proof fn lemma_drain_run(states: Seq<ShuffleSimulation>, outs: Seq<Seq<u8>>)
    requires
        drain_run(states, outs),
    ensures
        outs == payloads_of(states[0].pending()),
    decreases outs.len(),
{
    if outs.len() == 0 {
        assert(outs =~= payloads_of(states[0].pending()));
    } else {
        let rest_states = states.drop_first();
        let rest = outs.drop_first();
        assert(polls_at(states, outs, 0));
        assert forall|i: int| 0 <= i < rest.len() implies #[trigger] polls_at(
            rest_states,
            rest,
            i,
        ) by {
            assert(polls_at(states, outs, i + 1));
        }
        assert(rest_states.last() == states.last());
        lemma_drain_run(rest_states, rest);
        let queue = states[0].pending();
        assert(rest_states[0] == states[1]);
        assert(rest == payloads_of(queue.drop_first()));
        assert(queue.len() > 0);
        assert(rest.len() == queue.drop_first().len());
        assert(outs.len() == queue.len());
        assert forall|k: int| 0 <= k < outs.len() implies outs[k] == payloads_of(queue)[k] by {
            if k > 0 {
                assert(outs[k] == rest[k - 1]);
                assert(queue.drop_first()[k - 1] == queue[k]);
            }
        }
        assert(outs =~= payloads_of(queue));
    }
}

/// Arrival order is kept: on a transport whose seed is no multiple of
/// `REORDER_MODULUS`, messages injected into an empty queue and then
/// drained come out exactly as they went in.
pub proof fn lemma_order_preserved(
    injecting: Seq<ShuffleSimulation>,
    entries: Seq<Pending>,
    draining: Seq<ShuffleSimulation>,
    outs: Seq<Seq<u8>>,
)
    requires
        injection_run(injecting, entries),
        injecting[0].pending().len() == 0,
        !injecting[0].reorders(),
        drain_run(draining, outs),
        draining[0] == injecting.last(),
    ensures
        outs == payloads_of(entries),
{
    lemma_injection_run(injecting, entries);
    lemma_drain_run(draining, outs);
    assert(injecting[0].pending() + entries =~= entries);
}

/// Nothing is lost, made up or doubled: whatever the seed, messages
/// injected into an empty queue and then drained come out as a permutation
/// of what went in.
pub proof fn lemma_drained_is_permutation(
    injecting: Seq<ShuffleSimulation>,
    entries: Seq<Pending>,
    draining: Seq<ShuffleSimulation>,
    outs: Seq<Seq<u8>>,
)
    requires
        injection_run(injecting, entries),
        injecting[0].pending().len() == 0,
        drain_run(draining, outs),
        draining[0] == injecting.last(),
    ensures
        outs.to_multiset() == payloads_of(entries).to_multiset(),
        outs.len() == entries.len(),
{
    lemma_injection_run(injecting, entries);
    lemma_drain_run(draining, outs);
    assert(injecting[0].pending() + entries =~= entries);
    lemma_map_keeps_multiset(draining[0].pending(), entries, |entry: Pending| entry.1);
    vstd::seq_lib::to_multiset_len(outs);
    vstd::seq_lib::to_multiset_len(payloads_of(entries));
}

/// Whether step `i` of `states` is a poll that hands out `outs[i]`, which
/// may be nothing.
pub open spec fn answers_at(
    states: Seq<ShuffleSimulation>,
    outs: Seq<Option<Seq<u8>>>,
    i: int,
) -> bool {
    states[i].polled(outs[i], &states[i + 1])
}

/// An empty queue is safe to poll: however often it is polled, every poll
/// hands out nothing, and the transport stays exactly as it was.
pub proof fn lemma_empty_polls_change_nothing(
    states: Seq<ShuffleSimulation>,
    outs: Seq<Option<Seq<u8>>>,
)
    requires
        states.len() == outs.len() + 1,
        states[0].pending().len() == 0,
        forall|i: int| 0 <= i < outs.len() ==> #[trigger] answers_at(states, outs, i),
    ensures
        forall|i: int| 0 <= i < outs.len() ==> outs[i] is None,
        forall|i: int| 0 <= i < states.len() ==> #[trigger] states[i] == states[0],
    decreases outs.len(),
{
    if outs.len() > 0 {
        let front_states = states.drop_last();
        let front = outs.drop_last();
        assert forall|i: int| 0 <= i < front.len() implies #[trigger] answers_at(
            front_states,
            front,
            i,
        ) by {
            assert(answers_at(states, outs, i));
        }
        lemma_empty_polls_change_nothing(front_states, front);
        let last = outs.len() - 1;
        assert(answers_at(states, outs, last));
        assert(front_states[last] == states[0]);
        assert forall|i: int| 0 <= i < outs.len() implies outs[i] is None by {
            if i < last {
                assert(front[i] is None);
            }
        }
        assert forall|i: int| 0 <= i < states.len() implies #[trigger] states[i] == states[0] by {
            if i <= last {
                assert(front_states[i] == states[0]);
            }
        }
    }
}

/// The loopback returns what it was given: a payload that was sent is
/// handed out, byte for byte, by one of the polls that drain the queue, and
/// by the very next one where the queue was empty and is not reordered.
pub proof fn lemma_loopback_round_trip(
    before: ShuffleSimulation,
    address: Seq<char>,
    message: Seq<u8>,
    draining: Seq<ShuffleSimulation>,
    outs: Seq<Seq<u8>>,
)
    requires
        before.looped_back(address, message, &draining[0]),
        drain_run(draining, outs),
    ensures
        outs.contains(message),
        before.pending().len() == 0 && !before.reorders() ==> outs == seq![message],
{
    lemma_drain_run(draining, outs);
    let queue = draining[0].pending();
    let entry = (address, message);
    to_multiset_build(before.pending(), entry);
    to_multiset_contains(queue, entry);
    assert(queue.to_multiset().count(entry) > 0);
    let i = choose|i: int| 0 <= i < queue.len() && queue[i] == entry;
    assert(outs[i] == message);
    if before.pending().len() == 0 && !before.reorders() {
        assert(outs =~= seq![message]);
    }
}

} // verus!
