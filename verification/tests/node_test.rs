use bytes::Bytes;
use simulation_testing::error::{ReceiveError, TransportError};
use simulation_testing::node::{
    announce, Node, NodeEvent, NodePhase, NodeReport, NodeSettings, BROADCAST_INTERVAL_SECS,
    WARM_UP_SECS,
};
use simulation_testing::shuffle_simulation::ShuffleSimulation;
use simulation_testing::simulation::{RawTransport, Recorded};

struct Unreachable {
    attempts: usize,
}

impl RawTransport for Unreachable {
    fn send(&mut self, _address: &str, _message: &[u8]) -> Result<(), TransportError> {
        self.attempts += 1;
        Err(TransportError::PeerUnreachable)
    }

    fn poll(&mut self) -> Result<Option<Bytes>, TransportError> {
        Ok(Some(Bytes::copy_from_slice(&[0xFF, 0xFE])))
    }
}

fn settings(id: &str, peers: &[&str]) -> NodeSettings {
    NodeSettings {
        id: id.to_string(),
        endpoint: "127.0.0.1:9000".to_string(),
        peers: peers
            .iter()
            .map(|peer| (peer.to_string(), format!("127.0.0.1:{}", 9001)))
            .collect(),
    }
}

fn running(id: &str, peers: &[&str], seed: u64) -> Node<ShuffleSimulation> {
    let mut node = Node::build(settings(id, peers), ShuffleSimulation::new(seed));
    assert!(matches!(node.step(NodeEvent::TimerElapsed), NodeReport::Ready));
    node
}

#[test]
fn announcement_text() {
    assert_eq!(announce("n1", 0), "Message 0 from node n1");
    assert_eq!(announce("alpha", 42), "Message 42 from node alpha");
    assert_eq!(announce("", 1000), "Message 1000 from node ");
    assert_eq!(
        announce("x", usize::MAX),
        format!("Message {} from node x", usize::MAX)
    );
}

#[test]
fn timing_constants() {
    assert_eq!(WARM_UP_SECS, 5);
    assert_eq!(BROADCAST_INTERVAL_SECS, 3);
}

#[test]
fn built_node_is_starting() {
    let node = Node::build(settings("n1", &["a", "b", "a"]), ShuffleSimulation::new(31));
    assert_eq!(node.id(), "n1");
    assert_eq!(node.phase(), NodePhase::Starting);
    assert_eq!(node.timer_secs(), 5);
    assert_eq!(node.broadcast_layer().peers.len(), 2);
    assert_eq!(node.broadcast_layer().peers.get(0), "a");
    assert_eq!(node.broadcast_layer().peers.get(1), "b");
    assert!(node.broadcast_layer().messages.is_empty());
    assert_eq!(node.broadcast_layer().current_seq_number, 0);
}

#[test]
fn warm_up_ends_with_the_first_timer() {
    let mut node = Node::build(settings("n1", &["a"]), ShuffleSimulation::new(31));
    assert!(matches!(node.step(NodeEvent::InboundReady), NodeReport::Idle));
    assert_eq!(node.phase(), NodePhase::Starting);
    assert!(matches!(node.step(NodeEvent::TimerElapsed), NodeReport::Ready));
    assert_eq!(node.phase(), NodePhase::Running);
    assert_eq!(node.timer_secs(), 3);
    assert!(node.broadcast_layer().s.sent_messages.is_empty());
    assert!(node.broadcast_layer().messages.is_empty());
}

#[test]
fn timer_broadcasts_and_logs() {
    let mut node = running("n1", &["a", "b"], 31);
    match node.step(NodeEvent::TimerElapsed) {
        NodeReport::BroadcastComplete(text) => assert_eq!(text, "Message 0 from node n1"),
        other => panic!("unexpected report {:?}", other),
    }
    match node.step(NodeEvent::TimerElapsed) {
        NodeReport::BroadcastComplete(text) => assert_eq!(text, "Message 1 from node n1"),
        other => panic!("unexpected report {:?}", other),
    }
    let layer = node.broadcast_layer();
    assert_eq!(layer.current_seq_number, 2);
    assert_eq!(
        layer.messages,
        vec!["Message 0 from node n1".to_string(), "Message 1 from node n1".to_string()]
    );
    assert_eq!(layer.s.sent_messages.len(), 4);
    assert_eq!(layer.s.sent_messages[0], ("a".to_string(), b"Message 0 from node n1".to_vec()));
    assert_eq!(layer.s.sent_messages[3], ("b".to_string(), b"Message 1 from node n1".to_vec()));
}

#[test]
fn inbound_is_logged_in_the_order_handled() {
    let mut node = running("n1", &["a"], 31);
    assert!(matches!(node.step(NodeEvent::InboundReady), NodeReport::Idle));
    assert!(matches!(node.step(NodeEvent::TimerElapsed), NodeReport::BroadcastComplete(_)));
    match node.step(NodeEvent::InboundReady) {
        NodeReport::Observed(payload) => assert_eq!(&payload[..], b"Message 0 from node n1"),
        other => panic!("unexpected report {:?}", other),
    }
    assert!(matches!(node.step(NodeEvent::InboundReady), NodeReport::Idle));
    assert_eq!(
        node.broadcast_layer().messages,
        vec!["Message 0 from node n1".to_string(), "Message 0 from node n1".to_string()]
    );
    assert_eq!(node.broadcast_layer().current_seq_number, 1);
}

#[test]
fn faults_do_not_end_the_node() {
    let mut node = Node::build(settings("n1", &["a", "b"]), Recorded::new(Unreachable { attempts: 0 }));
    assert!(matches!(node.step(NodeEvent::TimerElapsed), NodeReport::Ready));
    for _ in 0..3 {
        assert!(matches!(
            node.step(NodeEvent::TimerElapsed),
            NodeReport::BroadcastFailed(TransportError::PeerUnreachable)
        ));
        assert!(matches!(
            node.step(NodeEvent::InboundReady),
            NodeReport::Dropped(ReceiveError::Decode)
        ));
    }
    assert_eq!(node.phase(), NodePhase::Running);
    assert!(node.broadcast_layer().messages.is_empty());
    assert_eq!(node.broadcast_layer().current_seq_number, 0);
    assert_eq!(node.broadcast_layer().s.inner().attempts, 6);
}

#[test]
fn node_without_peers_still_counts_its_broadcasts() {
    let mut node = running("solo", &[], 30);
    assert!(matches!(node.step(NodeEvent::TimerElapsed), NodeReport::BroadcastComplete(_)));
    assert_eq!(node.broadcast_layer().current_seq_number, 1);
    assert_eq!(node.broadcast_layer().messages, vec!["Message 0 from node solo".to_string()]);
}

#[test]
fn run_handles_a_schedule_in_order() {
    let mut node = Node::build(settings("n1", &["a"]), ShuffleSimulation::new(31));
    let schedule = vec![
        NodeEvent::InboundReady,
        NodeEvent::TimerElapsed,
        NodeEvent::InboundReady,
        NodeEvent::TimerElapsed,
        NodeEvent::TimerElapsed,
        NodeEvent::InboundReady,
        NodeEvent::InboundReady,
        NodeEvent::InboundReady,
    ];
    let reports = node.run(&schedule);
    assert_eq!(reports.len(), 8);
    assert!(matches!(reports[0], NodeReport::Idle));
    assert!(matches!(reports[1], NodeReport::Ready));
    assert!(matches!(reports[2], NodeReport::Idle));
    assert!(matches!(reports[3], NodeReport::BroadcastComplete(_)));
    assert!(matches!(reports[4], NodeReport::BroadcastComplete(_)));
    assert!(matches!(reports[5], NodeReport::Observed(_)));
    assert!(matches!(reports[6], NodeReport::Observed(_)));
    assert!(matches!(reports[7], NodeReport::Idle));
    assert_eq!(
        node.broadcast_layer().messages,
        vec![
            "Message 0 from node n1".to_string(),
            "Message 1 from node n1".to_string(),
            "Message 0 from node n1".to_string(),
            "Message 1 from node n1".to_string(),
        ]
    );
    assert_eq!(node.broadcast_layer().current_seq_number, 2);
}

#[test]
fn run_of_nothing_changes_nothing() {
    let mut node = running("n1", &["a"], 30);
    assert!(node.run(&Vec::new()).is_empty());
    assert_eq!(node.phase(), NodePhase::Running);
    assert!(node.broadcast_layer().messages.is_empty());
}

#[test]
fn same_schedule_same_log_when_reordering() {
    let schedule = vec![
        NodeEvent::TimerElapsed,
        NodeEvent::TimerElapsed,
        NodeEvent::TimerElapsed,
        NodeEvent::InboundReady,
        NodeEvent::InboundReady,
        NodeEvent::TimerElapsed,
        NodeEvent::InboundReady,
        NodeEvent::InboundReady,
        NodeEvent::InboundReady,
        NodeEvent::InboundReady,
    ];
    let mut first = Node::build(settings("n1", &["a", "b", "c"]), ShuffleSimulation::new(40));
    let mut second = Node::build(settings("n1", &["a", "b", "c"]), ShuffleSimulation::new(40));
    first.run(&schedule);
    second.run(&schedule);
    assert_eq!(first.broadcast_layer().messages, second.broadcast_layer().messages);
    assert_eq!(first.broadcast_layer().messages.len(), 9);
}
