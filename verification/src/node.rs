//! A node: one broadcast layer, driven by a timer and by what arrives.
//!
//! The node itself never waits. The program that embeds it waits for the
//! timer and for inbound data, and hands each event to [`Node::step`],
//! which handles it to the end before the next one is taken.

use crate::broadcast::{fan_out, is_observed, text_of, BroadcastLayer};
use crate::buffer::bytes_contents;
use crate::error::{ReceiveError, TransportError};
use crate::peers::{distinct_of, texts, PeerSet};
use crate::simulation::Simulation;
use crate::text::{decimal, decimal_string};
use bytes::Bytes;
use vstd::prelude::*;
use vstd::string::StringExecFns;
use vstd::utf8::encode_utf8;

verus! {

/// How long a node waits after it was built before its first scheduled
/// action, in seconds.
pub const WARM_UP_SECS: u64 = 5;

/// The time between two broadcasts of a running node, in seconds.
pub const BROADCAST_INTERVAL_SECS: u64 = 3;

/// What a node is configured with.
#[derive(Clone, Debug)]
pub struct NodeSettings {
    /// The node's identifier.
    pub id: String,
    /// The endpoint the node listens on.
    pub endpoint: String,
    /// The peers of the node: identifier and endpoint of each.
    pub peers: Vec<(String, String)>,
}

/// Where a node is in its life.
#[derive(Clone, Copy, Debug, PartialEq, Eq, Structural)]
pub enum NodePhase {
    /// Built, and waiting for the warm-up time to pass.
    Starting,
    /// Broadcasting on every timer and taking in what arrives.
    Running,
}

/// What can happen to a node.
#[derive(Clone, Copy, Debug, PartialEq, Eq, Structural)]
pub enum NodeEvent {
    /// The time that [`Node::timer_secs`] gave has passed.
    TimerElapsed,
    /// Inbound data may be waiting at the transport.
    InboundReady,
}

/// What a node did with an event.
#[derive(Debug)]
pub enum NodeReport {
    /// The warm-up is over; the node runs.
    Ready,
    /// Nothing was there to do.
    Idle,
    /// An inbound message was logged; this is its payload.
    Observed(Bytes),
    /// An inbound message was dropped, or the transport failed.
    Dropped(ReceiveError),
    /// This message was broadcast and logged.
    BroadcastComplete(String),
    /// The broadcast failed; the node goes on.
    BroadcastFailed(TransportError),
}

/// The text that a node broadcasts: its identifier and the number of
/// broadcasts that went through before.
pub open spec fn announcement(id: Seq<char>, sequence: nat) -> Seq<char> {
    "Message "@ + decimal(sequence) + " from node "@ + id
}

/// The identifiers in a list of peers.
pub open spec fn peer_ids(peers: Seq<(String, String)>) -> Seq<Seq<char>> {
    peers.map_values(|peer: (String, String)| peer.0@)
}

/// What a node reports of the outcome of a receive.
pub open spec fn report_of(outcome: Result<Option<Bytes>, ReceiveError>) -> NodeReport {
    match outcome {
        Ok(Some(payload)) => NodeReport::Observed(payload),
        Ok(None) => NodeReport::Idle,
        Err(fault) => NodeReport::Dropped(fault),
    }
}

/// Writes the text that the node `id` broadcasts at `sequence`.
pub fn announce(id: &str, sequence: usize) -> (text: String)
    ensures
        text@ == announcement(id@, sequence as nat),
{
    let mut text = String::from_str("Message ");
    text.append(decimal_string(sequence).as_str());
    text.append(" from node ");
    text.append(id);
    text
}

/// A node of the broadcast protocol.
pub struct Node<S: Simulation> {
    id: String,
    phase: NodePhase,
    broadcast_layer: BroadcastLayer<S>,
}

impl<S: Simulation> Node<S> {
    /// The node's identifier.
    pub closed spec fn id_text(&self) -> Seq<char> {
        self.id@
    }

    /// Where the node is in its life.
    pub closed spec fn current_phase(&self) -> NodePhase {
        self.phase
    }

    /// The node's broadcast layer.
    pub closed spec fn layer(&self) -> BroadcastLayer<S> {
        self.broadcast_layer
    }

    /// The node's log: every message it broadcast or observed, oldest
    /// first.
    pub open spec fn log(&self) -> Seq<Seq<char>> {
        self.layer().log()
    }

    /// The number of the node's broadcasts that went through.
    pub open spec fn sequence(&self) -> nat {
        self.layer().current_seq_number as nat
    }

    /// What the node broadcasts next.
    pub open spec fn next_announcement(&self) -> Seq<char> {
        announcement(self.id_text(), self.sequence())
    }

    /// A node as `settings` describes it, on the transport `simulation`:
    /// starting, with an empty log, and with the peers of the settings as
    /// its peer set.
    pub fn build(settings: NodeSettings, simulation: S) -> (node: Self)
        ensures
            node.id_text() == settings.id@,
            node.current_phase() == NodePhase::Starting,
            node.layer().peers.ids() == distinct_of(peer_ids(settings.peers@)),
            node.layer().s == simulation,
            node.log() == Seq::<Seq<char>>::empty(),
            node.sequence() == 0,
    {
        let mut ids: Vec<String> = Vec::new();
        let mut i: usize = 0;
        while i < settings.peers.len()
            invariant
                i <= settings.peers@.len(),
                texts(ids@) == peer_ids(settings.peers@).subrange(0, i as int),
            decreases settings.peers@.len() - i,
        {
            let ghost before = ids@;
            ids.push(settings.peers[i].0.clone());
            assert(texts(ids@) =~= texts(before).push(settings.peers@[i as int].0@));
            i += 1;
        }
        assert(peer_ids(settings.peers@).subrange(0, i as int) =~= peer_ids(settings.peers@));
        let broadcast_layer = BroadcastLayer::build(PeerSet::from_ids(ids), simulation);
        Node { id: settings.id, phase: NodePhase::Starting, broadcast_layer }
    }

    /// The node's identifier.
    pub fn id(&self) -> (id: &String)
        ensures
            id@ == self.id_text(),
    {
        &self.id
    }

    /// Where the node is in its life.
    pub fn phase(&self) -> (phase: NodePhase)
        ensures
            phase == self.current_phase(),
    {
        self.phase
    }

    /// The node's broadcast layer, with its log, its counter and its
    /// transport.
    pub fn broadcast_layer(&self) -> (layer: &BroadcastLayer<S>)
        ensures
            *layer == self.layer(),
    {
        &self.broadcast_layer
    }

    /// The time to let pass before the next `TimerElapsed`, in seconds: the
    /// warm-up while the node is starting, the broadcast interval once it
    /// runs. The timer is set anew after every event.
    pub fn timer_secs(&self) -> (secs: u64)
        ensures
            secs == match self.current_phase() {
                NodePhase::Starting => WARM_UP_SECS,
                NodePhase::Running => BROADCAST_INTERVAL_SECS,
            },
    {
        match self.phase {
            NodePhase::Starting => WARM_UP_SECS,
            NodePhase::Running => BROADCAST_INTERVAL_SECS,
        }
    }

    /// Whether `after` is this node with possibly another log, counter and
    /// transport state: same identifier, same peers, same kind of
    /// transport.
    pub open spec fn same_node(&self, after: &Self) -> bool {
        &&& after.id_text() == self.id_text()
        &&& after.layer().peers == self.layer().peers
        &&& after.layer().s.reliable() == self.layer().s.reliable()
    }

    /// What a running node does when its timer has elapsed: it broadcasts
    /// its next announcement and, if that went through, logs it.
    pub open spec fn timer_handled(&self, report: NodeReport, after: &Self) -> bool {
        &&& after.current_phase() == NodePhase::Running
        &&& after.layer().s.dispatched() == self.layer().s.dispatched() + fan_out(
            self.layer().peers.ids(),
            encode_utf8(self.next_announcement()),
        )
        &&& match report {
            NodeReport::BroadcastComplete(text) => {
                &&& text@ == self.next_announcement()
                &&& after.sequence() == self.sequence() + 1
                &&& after.log() == self.log().push(self.next_announcement())
            },
            NodeReport::BroadcastFailed(_) => {
                &&& after.sequence() == self.sequence()
                &&& after.layer().messages == self.layer().messages
            },
            _ => false,
        }
        &&& self.layer().s.reliable() || self.layer().peers.ids().len() == 0
            ==> report is BroadcastComplete
    }

    /// What a running node does when inbound data may be waiting: its
    /// layer receives once, the node reports what came of it, and what was
    /// observed is in the log.
    pub open spec fn inbound_handled(&self, report: NodeReport, after: &Self) -> bool {
        &&& after.current_phase() == NodePhase::Running
        &&& exists|outcome: Result<Option<Bytes>, ReceiveError>|
            #[trigger] self.layer().received(outcome, &after.layer()) && report == report_of(outcome)
        &&& after.layer().s.dispatched() == self.layer().s.dispatched()
        &&& after.sequence() == self.sequence()
        &&& match report {
            NodeReport::Observed(payload) => {
                &&& is_observed(bytes_contents(payload))
                &&& after.log() == self.log().push(text_of(bytes_contents(payload)))
            },
            NodeReport::Dropped(fault) => {
                &&& after.layer().messages == self.layer().messages
                &&& self.layer().s.reliable() ==> fault == ReceiveError::Decode
            },
            NodeReport::Idle => after.layer().messages == self.layer().messages,
            _ => false,
        }
    }

    /// What handling `event` makes of a node: the report it gives and the
    /// node it leaves behind.
    pub open spec fn stepped(&self, event: NodeEvent, report: NodeReport, after: &Self) -> bool {
        &&& self.same_node(after)
        &&& self.log().is_prefix_of(after.log())
        &&& self.sequence() <= after.sequence() <= self.sequence() + 1
        &&& match (self.current_phase(), event) {
            (NodePhase::Starting, NodeEvent::TimerElapsed) => {
                &&& report is Ready
                &&& after.current_phase() == NodePhase::Running
                &&& after.layer() == self.layer()
            },
            (NodePhase::Starting, NodeEvent::InboundReady) => {
                &&& report is Idle
                &&& after == self
            },
            (NodePhase::Running, NodeEvent::TimerElapsed) => self.timer_handled(report, after),
            (NodePhase::Running, NodeEvent::InboundReady) => self.inbound_handled(report, after),
        }
    }

    /// Handles one event to the end.
    ///
    /// A starting node waits for its timer: the first `TimerElapsed` makes
    /// it run, and inbound data is left where it is until then. A running
    /// node broadcasts on `TimerElapsed` and polls on `InboundReady`. No
    /// fault ends the node, and the log only ever grows at its end.
    pub fn step(&mut self, event: NodeEvent) -> (report: NodeReport)
        requires
            old(self).current_phase() == NodePhase::Running && event == NodeEvent::TimerElapsed
                ==> old(self).sequence() < usize::MAX,
        ensures
            old(self).stepped(event, report, final(self)),
    {
        match self.phase {
            NodePhase::Starting => match event {
                NodeEvent::TimerElapsed => {
                    self.phase = NodePhase::Running;
                    NodeReport::Ready
                },
                NodeEvent::InboundReady => NodeReport::Idle,
            },
            NodePhase::Running => match event {
                NodeEvent::TimerElapsed => self.on_timer(),
                NodeEvent::InboundReady => self.on_inbound(),
            },
        }
    }

    /// Whether step `i` of `states` handles `events[i]` and reports
    /// `reports[i]`.
    pub open spec fn steps_at(
        states: Seq<Self>,
        events: Seq<NodeEvent>,
        reports: Seq<NodeReport>,
        i: int,
    ) -> bool {
        states[i].stepped(events[i], reports[i], &states[i + 1])
    }

    /// `states` are the states that a node goes through while it handles
    /// `events` one after the other, and `reports` is what it reports.
    pub open spec fn run_of(
        states: Seq<Self>,
        events: Seq<NodeEvent>,
        reports: Seq<NodeReport>,
    ) -> bool {
        &&& states.len() == events.len() + 1
        &&& reports.len() == events.len()
        &&& forall|i: int| 0 <= i < events.len() ==> #[trigger] Self::steps_at(states, events, reports, i)
    }

    /// Handles a schedule of events, each to the end before the next is
    /// taken, and returns the report of each. This is what the node does
    /// for as long as it lives; a recorded schedule replays it.
    pub fn run(&mut self, events: &Vec<NodeEvent>) -> (reports: Vec<NodeReport>)
        requires
            old(self).sequence() + events@.len() <= usize::MAX,
        ensures
            exists|states: Seq<Self>|
                #[trigger] Self::run_of(states, events@, reports@) && states[0] == *old(self)
                    && states.last() == *final(self),
            old(self).same_node(final(self)),
            old(self).log().is_prefix_of(final(self).log()),
            old(self).sequence() <= final(self).sequence() <= old(self).sequence() + events@.len(),
    {
        let mut reports: Vec<NodeReport> = Vec::new();
        let ghost mut states: Seq<Self> = seq![*self];
        let mut i: usize = 0;
        while i < events.len()
            invariant
                i <= events@.len(),
                old(self).sequence() + events@.len() <= usize::MAX,
                states.len() == i + 1,
                reports@.len() == i,
                states[0] == *old(self),
                states.last() == *self,
                forall|k: int| 0 <= k < i ==> #[trigger] Self::steps_at(states, events@, reports@, k),
                old(self).same_node(self),
                old(self).log().is_prefix_of(self.log()),
                old(self).sequence() <= self.sequence() <= old(self).sequence() + i,
            decreases events@.len() - i,
        {
            let ghost before_states = states;
            let ghost before_reports = reports@;
            let report = self.step(events[i]);
            reports.push(report);
            proof {
                states = states.push(*self);
                assert forall|k: int| 0 <= k < i + 1 implies #[trigger] Self::steps_at(
                    states,
                    events@,
                    reports@,
                    k,
                ) by {
                    if k < i {
                        assert(Self::steps_at(before_states, events@, before_reports, k));
                    }
                }
            }
            i += 1;
        }
        assert(Self::run_of(states, events@, reports@));
        reports
    }

    fn on_timer(&mut self) -> (report: NodeReport)
        requires
            old(self).current_phase() == NodePhase::Running,
            old(self).sequence() < usize::MAX,
        ensures
            old(self).stepped(NodeEvent::TimerElapsed, report, final(self)),
    {
        let text = announce(self.id.as_str(), self.broadcast_layer.current_seq_number);
        match self.broadcast_layer.broadcast(text.as_str()) {
            Ok(()) => {
                let ghost before = self.broadcast_layer.messages@;
                self.broadcast_layer.messages.push(text.clone());
                assert(texts(self.broadcast_layer.messages@) =~= texts(before).push(text@));
                NodeReport::BroadcastComplete(text)
            },
            Err(fault) => NodeReport::BroadcastFailed(fault),
        }
    }

    fn on_inbound(&mut self) -> (report: NodeReport)
        requires
            old(self).current_phase() == NodePhase::Running,
        ensures
            old(self).stepped(NodeEvent::InboundReady, report, final(self)),
    {
        let outcome = self.broadcast_layer.receive();
        let ghost received = outcome;
        let report = match outcome {
            Ok(Some(payload)) => NodeReport::Observed(payload),
            Ok(None) => NodeReport::Idle,
            Err(fault) => NodeReport::Dropped(fault),
        };
        assert(old(self).layer().received(received, &self.layer()) && report == report_of(received));
        report
    }
}

} // verus!
