use quickcheck::{QuickCheck, TestResult};
use simulation_testing::broadcast::BroadcastLayer;
use simulation_testing::peers::PeerSet;
use simulation_testing::shuffle_simulation::{ShuffleSimulation, REORDER_MODULUS};
use simulation_testing::simulation::Simulation;

fn drain(sim: &mut ShuffleSimulation) -> Vec<Vec<u8>> {
    let mut out = Vec::new();
    while let Ok(Some(payload)) = sim.receive_message() {
        out.push(payload.to_vec());
    }
    out
}

fn sorted(mut items: Vec<Vec<u8>>) -> Vec<Vec<u8>> {
    items.sort();
    items
}

fn names() -> Vec<&'static str> {
    vec!["Alice", "Bob", "Charlie", "David", "Eve"]
}

fn inject_names(seed: u64) -> ShuffleSimulation {
    let mut sim = ShuffleSimulation::new(seed);
    for name in names() {
        sim.inject_message(name.to_string(), name.as_bytes());
    }
    sim
}

fn shuffle_behavior(seed: u64) -> TestResult {
    let mut sim = ShuffleSimulation::new(seed);
    let messages = vec![
        ("node1", "message1"),
        ("node2", "message2"),
        ("node3", "message3"),
        ("node4", "message4"),
        ("node5", "message5"),
    ];
    for (from, msg) in &messages {
        sim.inject_message(from.to_string(), msg.as_bytes());
    }
    let mut received_messages = Vec::new();
    while let Ok(Some(msg)) = sim.receive_message() {
        if let Ok(s) = String::from_utf8(msg.to_vec()) {
            received_messages.push(s);
        }
    }
    if received_messages.len() != messages.len() {
        return TestResult::failed();
    }
    let injected_messages: Vec<String> = messages.iter().map(|(_, msg)| msg.to_string()).collect();
    if seed % 10 == 0 {
        let mut received_sorted = received_messages.clone();
        received_sorted.sort();
        let mut injected_sorted = injected_messages.clone();
        injected_sorted.sort();
        if received_sorted != injected_sorted {
            return TestResult::failed();
        }
    } else if received_messages != injected_messages {
        return TestResult::failed();
    }
    TestResult::passed()
}

fn broadcast_with_shuffle(seed: u64) -> TestResult {
    let sim = ShuffleSimulation::new(seed);
    let peers = PeerSet::from_ids(vec![
        "peer1".to_string(),
        "peer2".to_string(),
        "peer3".to_string(),
    ]);
    let mut broadcast = BroadcastLayer::build(peers, sim);
    if broadcast.broadcast("test message").is_err() {
        return TestResult::failed();
    }
    let sent_count = broadcast.s.sent_messages.len();
    if sent_count != 3 {
        return TestResult::failed();
    }
    TestResult::passed()
}

#[test]
fn test_quickcheck_runs() {
    println!("QuickCheck tests will run automatically");
}

#[test]
fn test_shuffle_behavior() {
    let property: fn(u64) -> TestResult = shuffle_behavior;
    QuickCheck::new().quickcheck(property);
}

#[test]
fn test_broadcast_with_shuffle() {
    let property: fn(u64) -> TestResult = broadcast_with_shuffle;
    QuickCheck::new().quickcheck(property);
}

#[test]
fn shuffle_behavior_on_chosen_seeds() {
    for seed in [0u64, 1, 9, 10, 11, 30, 31, 100, u64::MAX - 5, u64::MAX] {
        assert!(!shuffle_behavior(seed).is_failure(), "seed {}", seed);
        assert!(!broadcast_with_shuffle(seed).is_failure(), "seed {}", seed);
    }
}

#[test]
fn reorder_modulus_is_ten() {
    assert_eq!(REORDER_MODULUS, 10);
}

#[test]
fn new_simulation_is_empty() {
    let mut sim = ShuffleSimulation::new(42);
    assert_eq!(sim.seed, 42);
    assert!(sim.message_queue.is_empty());
    assert!(sim.sent_messages.is_empty());
    assert!(sim.receive_message().unwrap().is_none());
}

#[test]
fn seed_30_yields_a_permutation() {
    let mut sim = inject_names(30);
    let drained = drain(&mut sim);
    let injected: Vec<Vec<u8>> = names().iter().map(|n| n.as_bytes().to_vec()).collect();
    assert_eq!(drained.len(), 5);
    assert_eq!(sorted(drained), sorted(injected));
}

#[test]
fn seed_31_keeps_the_order() {
    let mut sim = inject_names(31);
    let drained = drain(&mut sim);
    let injected: Vec<Vec<u8>> = names().iter().map(|n| n.as_bytes().to_vec()).collect();
    assert_eq!(drained, injected);
}

#[test]
fn order_is_kept_for_every_seed_that_does_not_reorder() {
    for seed in [1u64, 2, 3, 7, 9, 11, 19, 21, 99, 101, 12345, u64::MAX] {
        let mut sim = inject_names(seed);
        let origins: Vec<String> = sim.message_queue.iter().map(|(from, _)| from.clone()).collect();
        assert_eq!(origins, names());
        let drained = drain(&mut sim);
        let injected: Vec<Vec<u8>> = names().iter().map(|n| n.as_bytes().to_vec()).collect();
        assert_eq!(drained, injected, "seed {}", seed);
    }
}

#[test]
fn shuffle_is_the_same_on_every_run() {
    for seed in [0u64, 10, 20, 30, 1000, 18446744073709551610] {
        let first = drain(&mut inject_names(seed));
        let second = drain(&mut inject_names(seed));
        assert_eq!(first, second, "seed {}", seed);
        let injected: Vec<Vec<u8>> = names().iter().map(|n| n.as_bytes().to_vec()).collect();
        assert_eq!(sorted(first), sorted(injected));
    }
}

#[test]
fn a_reordering_seed_changes_the_order() {
    let injected: Vec<Vec<u8>> = names().iter().map(|n| n.as_bytes().to_vec()).collect();
    let mut changed = false;
    for round in 0u64..20 {
        let drained = drain(&mut inject_names(round * 10));
        if drained != injected {
            changed = true;
        }
    }
    assert!(changed);
}

#[test]
fn origins_travel_with_their_payloads() {
    let sim = inject_names(30);
    for (from, payload) in sim.message_queue.iter() {
        assert_eq!(from.as_bytes(), &payload[..]);
    }
    assert_eq!(sim.message_queue.len(), 5);
}

#[test]
fn receive_on_an_empty_queue_is_repeatable() {
    for seed in [30u64, 31] {
        let mut sim = ShuffleSimulation::new(seed);
        for _ in 0..5 {
            let polled = sim.receive_message();
            assert!(matches!(polled, Ok(None)));
            assert!(sim.message_queue.is_empty());
            assert!(sim.sent_messages.is_empty());
            assert_eq!(sim.seed, seed);
        }
        sim.inject_message("a".to_string(), b"x");
        assert_eq!(drain(&mut sim), vec![b"x".to_vec()]);
        assert!(matches!(sim.receive_message(), Ok(None)));
        assert!(matches!(sim.receive_message(), Ok(None)));
    }
}

#[test]
fn loopback_returns_what_was_sent() {
    let payload: Vec<u8> = vec![0, 255, 10, 13, 32, 128, 7];
    let mut sim = ShuffleSimulation::new(31);
    assert!(sim.send_message("peer", &payload).is_ok());
    assert_eq!(sim.sent_messages, vec![("peer".to_string(), payload.clone())]);
    let back = sim.receive_message().unwrap().unwrap();
    assert_eq!(back.to_vec(), payload);
    assert!(sim.receive_message().unwrap().is_none());
}

#[test]
fn loopback_returns_what_was_sent_when_reordering() {
    let mut sim = ShuffleSimulation::new(30);
    sim.inject_message("a".to_string(), b"one");
    sim.inject_message("b".to_string(), b"two");
    assert!(sim.send_message("peer", b"three").is_ok());
    let drained = drain(&mut sim);
    assert_eq!(drained.len(), 3);
    assert!(drained.contains(&b"three".to_vec()));
    assert_eq!(sim.sent_messages.len(), 1);
}

#[test]
fn empty_payload_is_carried() {
    let mut sim = ShuffleSimulation::new(31);
    sim.inject_message("a".to_string(), b"");
    let back = sim.receive_message().unwrap().unwrap();
    assert!(back.is_empty());
}

#[test]
fn requeue_replaces_the_queue() {
    let mut sim = inject_names(31);
    let entries = vec![
        ("x".to_string(), bytes::Bytes::copy_from_slice(b"1")),
        ("y".to_string(), bytes::Bytes::copy_from_slice(b"2")),
    ];
    sim.requeue(entries);
    assert_eq!(drain(&mut sim), vec![b"1".to_vec(), b"2".to_vec()]);
}
