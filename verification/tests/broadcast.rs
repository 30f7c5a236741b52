use froth::broadcast::{BroadcastNode, BroadcastPayload, BroadcastState};
use froth::topology::TopologyGraph;
use froth::{Body, GenericNode, Message};

fn envelope(src: &str, dest: &str, msg_id: Option<usize>, payload: BroadcastPayload) -> Message<BroadcastPayload> {
    Message {
        src: src.to_string(),
        dest: dest.to_string(),
        body: Body { msg_id, in_reply_to: None, payload },
    }
}

fn names(list: &[&str]) -> Vec<String> {
    list.iter().map(|name| name.to_string()).collect()
}

fn graph(entries: &[(&str, &[&str])]) -> TopologyGraph {
    let mut graph = TopologyGraph::new();
    for (node, neighbours) in entries {
        graph.insert(node.to_string(), names(neighbours));
    }
    graph
}

fn init(node: &mut BroadcastNode, name: &str) {
    let input = envelope(
        "c0",
        name,
        Some(1),
        BroadcastPayload::Init { node_id: name.to_string(), node_ids: names(&[name]) },
    );
    assert!(node.can_process(&input));
    let out = node.process(input);
    assert_eq!(out.len(), 1);
}

fn send(node: &mut BroadcastNode, payload: BroadcastPayload) -> Vec<Message<BroadcastPayload>> {
    let dest = node.state().node_id().clone();
    let input = envelope("c1", &dest, Some(10), payload);
    assert!(node.can_process(&input));
    node.process(input)
}

fn read(node: &mut BroadcastNode) -> Vec<isize> {
    let out = send(node, BroadcastPayload::Read);
    assert_eq!(out.len(), 1);
    match &out[0].body.payload {
        BroadcastPayload::ReadOk { messages } => messages.clone(),
        other => panic!("expected read_ok, got {:?}", other),
    }
}

#[test]
fn fresh_node_starts_empty_at_zero() {
    let node = BroadcastNode::new();
    assert_eq!(node.msg_id(), 0);
    assert_eq!(node.state().node_id(), "");
    assert!(node.state().messages().is_empty());
    assert!(node.state().topology().entries().is_empty());
}

#[test]
fn init_stores_identity_and_replies_once() {
    let mut node = BroadcastNode::new();
    let input = envelope(
        "c0",
        "n1",
        Some(7),
        BroadcastPayload::Init { node_id: "n1".to_string(), node_ids: names(&["n1", "n2", "n3"]) },
    );
    assert!(node.can_process(&input));
    let out = node.process(input);
    assert_eq!(out.len(), 1);
    assert_eq!(out[0].src, "n1");
    assert_eq!(out[0].dest, "c0");
    assert_eq!(out[0].body.msg_id, Some(0));
    assert_eq!(out[0].body.in_reply_to, Some(7));
    assert!(matches!(out[0].body.payload, BroadcastPayload::InitOk));
    assert_eq!(node.state().node_id(), "n1");
    assert_eq!(node.msg_id(), 1);
    assert!(node.state().messages().is_empty());
}

#[test]
fn broadcast_twice_records_once_and_second_is_silent() {
    for value in [0isize, 42, -17, isize::MAX, isize::MIN] {
        let mut node = BroadcastNode::new();
        init(&mut node, "n1");
        let first = send(&mut node, BroadcastPayload::Broadcast { message: value });
        assert_eq!(first.len(), 1);
        let counter = node.msg_id();
        let second = send(&mut node, BroadcastPayload::Broadcast { message: value });
        assert!(second.is_empty());
        assert_eq!(node.msg_id(), counter);
        assert_eq!(node.state().messages(), &vec![value]);
        assert_eq!(read(&mut node), vec![value]);
    }
}

#[test]
fn read_returns_first_delivery_order_without_duplicates() {
    let mut node = BroadcastNode::new();
    init(&mut node, "n1");
    for value in [1isize, 2, 2, 3] {
        send(&mut node, BroadcastPayload::Broadcast { message: value });
    }
    assert_eq!(read(&mut node), vec![1, 2, 3]);
}

#[test]
fn read_is_not_sorted_by_value() {
    let mut node = BroadcastNode::new();
    init(&mut node, "n1");
    for value in [3isize, -1, 2, 3, -1, 0] {
        send(&mut node, BroadcastPayload::Broadcast { message: value });
    }
    assert_eq!(read(&mut node), vec![3, -1, 2, 0]);
}

#[test]
fn read_on_empty_ledger_answers_with_no_values() {
    let mut node = BroadcastNode::new();
    init(&mut node, "n1");
    let out = send(&mut node, BroadcastPayload::Read);
    assert_eq!(out.len(), 1);
    assert_eq!(out[0].src, "n1");
    assert_eq!(out[0].dest, "c1");
    assert_eq!(out[0].body.msg_id, Some(1));
    assert_eq!(out[0].body.in_reply_to, Some(10));
    match &out[0].body.payload {
        BroadcastPayload::ReadOk { messages } => assert!(messages.is_empty()),
        other => panic!("expected read_ok, got {:?}", other),
    }
}

#[test]
fn broadcast_fans_out_to_each_neighbour_in_order() {
    let mut node = BroadcastNode::new();
    init(&mut node, "A");
    let topology = send(&mut node, BroadcastPayload::Topology { topology: graph(&[("A", &["B", "C"])]) });
    assert_eq!(topology.len(), 1);
    assert!(matches!(topology[0].body.payload, BroadcastPayload::TopologyOk));
    assert_eq!(topology[0].body.msg_id, Some(1));

    let input = envelope("client", "A", Some(33), BroadcastPayload::Broadcast { message: 5 });
    assert!(node.can_process(&input));
    let out = node.process(input);
    assert_eq!(out.len(), 3);

    assert_eq!(out[0].src, "A");
    assert_eq!(out[0].dest, "client");
    assert_eq!(out[0].body.in_reply_to, Some(33));
    assert!(matches!(out[0].body.payload, BroadcastPayload::BroadcastOk));

    assert_eq!(out[1].src, "A");
    assert_eq!(out[1].dest, "B");
    assert_eq!(out[1].body.in_reply_to, None);
    assert!(matches!(out[1].body.payload, BroadcastPayload::Broadcast { message: 5 }));

    assert_eq!(out[2].src, "A");
    assert_eq!(out[2].dest, "C");
    assert_eq!(out[2].body.in_reply_to, None);
    assert!(matches!(out[2].body.payload, BroadcastPayload::Broadcast { message: 5 }));

    assert_eq!(out[0].body.msg_id, Some(2));
    assert_eq!(out[1].body.msg_id, Some(3));
    assert_eq!(out[2].body.msg_id, Some(4));
    assert_eq!(node.msg_id(), 5);
}

#[test]
fn broadcast_without_topology_only_acknowledges() {
    let mut node = BroadcastNode::new();
    init(&mut node, "A");
    let out = send(&mut node, BroadcastPayload::Broadcast { message: 9 });
    assert_eq!(out.len(), 1);
    assert!(matches!(out[0].body.payload, BroadcastPayload::BroadcastOk));
    assert_eq!(node.msg_id(), 2);
}

#[test]
fn broadcast_with_topology_that_omits_the_node_only_acknowledges() {
    let mut node = BroadcastNode::new();
    init(&mut node, "A");
    send(&mut node, BroadcastPayload::Topology { topology: graph(&[("B", &["A", "C"]), ("C", &["B"])]) });
    let out = send(&mut node, BroadcastPayload::Broadcast { message: 9 });
    assert_eq!(out.len(), 1);
    assert!(matches!(out[0].body.payload, BroadcastPayload::BroadcastOk));
}

#[test]
fn broadcast_with_empty_neighbour_list_only_acknowledges() {
    let mut node = BroadcastNode::new();
    init(&mut node, "A");
    send(&mut node, BroadcastPayload::Topology { topology: graph(&[("A", &[])]) });
    let out = send(&mut node, BroadcastPayload::Broadcast { message: 9 });
    assert_eq!(out.len(), 1);
    assert_eq!(node.msg_id(), 3);
}

#[test]
fn duplicate_broadcast_is_not_fanned_out_again() {
    let mut node = BroadcastNode::new();
    init(&mut node, "A");
    send(&mut node, BroadcastPayload::Topology { topology: graph(&[("A", &["B", "C", "D"])]) });
    assert_eq!(send(&mut node, BroadcastPayload::Broadcast { message: 1 }).len(), 4);
    assert_eq!(send(&mut node, BroadcastPayload::Broadcast { message: 1 }).len(), 0);
    assert_eq!(send(&mut node, BroadcastPayload::Broadcast { message: 2 }).len(), 4);
    assert_eq!(send(&mut node, BroadcastPayload::Broadcast { message: 1 }).len(), 0);
    assert_eq!(read(&mut node), vec![1, 2]);
}

#[test]
fn later_topology_replaces_earlier_one() {
    let mut node = BroadcastNode::new();
    init(&mut node, "A");
    send(&mut node, BroadcastPayload::Topology { topology: graph(&[("A", &["B", "C"]), ("B", &["A"])]) });
    send(&mut node, BroadcastPayload::Topology { topology: graph(&[("A", &["D"])]) });
    let out = send(&mut node, BroadcastPayload::Broadcast { message: 4 });
    assert_eq!(out.len(), 2);
    assert_eq!(out[1].dest, "D");
    assert!(node.state().topology().get(&"B".to_string()).is_none());
    assert_eq!(node.state().topology().get(&"A".to_string()), Some(&names(&["D"])));
}

#[test]
fn later_topology_without_the_node_stops_fanout() {
    let mut node = BroadcastNode::new();
    init(&mut node, "A");
    send(&mut node, BroadcastPayload::Topology { topology: graph(&[("A", &["B", "C"])]) });
    send(&mut node, BroadcastPayload::Topology { topology: graph(&[("B", &["C"])]) });
    let out = send(&mut node, BroadcastPayload::Broadcast { message: 4 });
    assert_eq!(out.len(), 1);
}

#[test]
fn outbound_ids_count_up_from_zero_without_gaps() {
    let mut node = BroadcastNode::new();
    let mut sent: Vec<Message<BroadcastPayload>> = Vec::new();
    let inputs = vec![
        BroadcastPayload::Init { node_id: "A".to_string(), node_ids: names(&["A", "B", "C"]) },
        BroadcastPayload::Read,
        BroadcastPayload::Broadcast { message: 10 },
        BroadcastPayload::Topology { topology: graph(&[("A", &["B", "C"])]) },
        BroadcastPayload::Broadcast { message: 10 },
        BroadcastPayload::Broadcast { message: 11 },
        BroadcastPayload::Read,
        BroadcastPayload::Broadcast { message: 11 },
        BroadcastPayload::Broadcast { message: 12 },
    ];
    for payload in inputs {
        let input = envelope("c1", "A", None, payload);
        assert!(node.can_process(&input));
        sent.extend(node.process(input));
    }
    assert_eq!(sent.len(), 1 + 1 + 1 + 1 + 0 + 3 + 1 + 0 + 3);
    for (i, message) in sent.iter().enumerate() {
        assert_eq!(message.body.msg_id, Some(i));
    }
    assert_eq!(node.msg_id(), sent.len());
}

#[test]
fn reply_to_unnumbered_envelope_answers_no_number() {
    let mut node = BroadcastNode::new();
    let input = envelope("c1", "A", None, BroadcastPayload::Read);
    let out = node.process(input);
    assert_eq!(out.len(), 1);
    assert_eq!(out[0].body.in_reply_to, None);
    assert_eq!(out[0].body.msg_id, Some(0));
}

#[test]
fn inbound_in_reply_to_is_ignored() {
    let mut node = BroadcastNode::new();
    let mut input = envelope("c1", "A", Some(3), BroadcastPayload::Read);
    input.body.in_reply_to = Some(99);
    let out = node.process(input);
    assert_eq!(out[0].body.in_reply_to, Some(3));
}

#[test]
fn uninitialised_node_fans_out_under_the_empty_name() {
    let mut node = BroadcastNode::new();
    let topology = envelope("c1", "A", Some(1), BroadcastPayload::Topology { topology: graph(&[("", &["B"])]) });
    node.process(topology);
    let out = node.process(envelope("c1", "A", Some(2), BroadcastPayload::Broadcast { message: 1 }));
    assert_eq!(out.len(), 2);
    assert_eq!(out[0].src, "A");
    assert_eq!(out[1].src, "");
    assert_eq!(out[1].dest, "B");
}

#[test]
fn second_init_renames_the_node() {
    let mut node = BroadcastNode::new();
    init(&mut node, "A");
    init(&mut node, "B");
    assert_eq!(node.state().node_id(), "B");
    assert_eq!(node.msg_id(), 2);
}

#[test]
fn response_payloads_are_not_accepted() {
    let node = BroadcastNode::new();
    let responses = vec![
        BroadcastPayload::InitOk,
        BroadcastPayload::BroadcastOk,
        BroadcastPayload::ReadOk { messages: vec![1] },
        BroadcastPayload::TopologyOk,
    ];
    for payload in responses {
        assert!(!payload.is_request());
        assert!(!node.can_process(&envelope("c1", "A", Some(1), payload)));
    }
}

#[test]
fn request_payloads_are_accepted() {
    let node = BroadcastNode::new();
    let requests = vec![
        BroadcastPayload::Init { node_id: "A".to_string(), node_ids: vec![] },
        BroadcastPayload::Broadcast { message: 1 },
        BroadcastPayload::Read,
        BroadcastPayload::Topology { topology: TopologyGraph::new() },
    ];
    for payload in requests {
        assert!(payload.is_request());
        assert!(node.can_process(&envelope("c1", "A", Some(1), payload)));
    }
}

#[test]
fn broadcast_node_inc_id_adds_one() {
    let mut node = BroadcastNode::new();
    node.inc_id();
    node.inc_id();
    assert_eq!(node.msg_id(), 2);
    assert!(node.state().messages().is_empty());
    let out = node.process(envelope("c1", "A", Some(1), BroadcastPayload::Read));
    assert_eq!(out[0].body.msg_id, Some(2));
}

#[test]
fn state_update_applies_each_request() {
    let mut state = BroadcastState::new();
    state.update(&BroadcastPayload::Init { node_id: "n7".to_string(), node_ids: names(&["n7", "n8"]) });
    assert_eq!(state.node_id(), "n7");
    state.update(&BroadcastPayload::Broadcast { message: 5 });
    state.update(&BroadcastPayload::Broadcast { message: 6 });
    assert_eq!(state.messages(), &vec![5, 6]);
    state.update(&BroadcastPayload::Topology { topology: graph(&[("n7", &["n8"])]) });
    assert_eq!(state.topology().get(&"n7".to_string()), Some(&names(&["n8"])));
    assert_eq!(state.node_id(), "n7");
    assert_eq!(state.messages(), &vec![5, 6]);
}

#[test]
fn state_update_is_idempotent() {
    let mut state = BroadcastState::new();
    state.update(&BroadcastPayload::Broadcast { message: 5 });
    state.update(&BroadcastPayload::Broadcast { message: 5 });
    state.update(&BroadcastPayload::Broadcast { message: 5 });
    assert_eq!(state.messages(), &vec![5]);
}

#[test]
fn state_update_ignores_read_and_responses() {
    let mut state = BroadcastState::new();
    state.update(&BroadcastPayload::Init { node_id: "n1".to_string(), node_ids: vec![] });
    state.update(&BroadcastPayload::Broadcast { message: 1 });
    let ignored = vec![
        BroadcastPayload::Read,
        BroadcastPayload::InitOk,
        BroadcastPayload::BroadcastOk,
        BroadcastPayload::ReadOk { messages: vec![8, 9] },
        BroadcastPayload::TopologyOk,
    ];
    for payload in ignored {
        state.update(&payload);
    }
    assert_eq!(state.node_id(), "n1");
    assert_eq!(state.messages(), &vec![1]);
    assert!(state.topology().entries().is_empty());
}

#[test]
fn reply_payload_for_each_request() {
    let mut state = BroadcastState::new();
    state.update(&BroadcastPayload::Broadcast { message: 3 });
    state.update(&BroadcastPayload::Broadcast { message: 1 });
    let init = BroadcastPayload::Init { node_id: "n1".to_string(), node_ids: vec![] };
    assert!(matches!(init.gen_msg_payload(&state), Some(BroadcastPayload::InitOk)));
    let broadcast = BroadcastPayload::Broadcast { message: 3 };
    assert!(matches!(broadcast.gen_msg_payload(&state), Some(BroadcastPayload::BroadcastOk)));
    let topology = BroadcastPayload::Topology { topology: TopologyGraph::new() };
    assert!(matches!(topology.gen_msg_payload(&state), Some(BroadcastPayload::TopologyOk)));
    match BroadcastPayload::Read.gen_msg_payload(&state) {
        Some(BroadcastPayload::ReadOk { messages }) => assert_eq!(messages, vec![3, 1]),
        other => panic!("expected read_ok, got {:?}", other),
    }
}

#[test]
fn no_reply_payload_for_responses() {
    let state = BroadcastState::new();
    let responses = vec![
        BroadcastPayload::InitOk,
        BroadcastPayload::BroadcastOk,
        BroadcastPayload::ReadOk { messages: vec![] },
        BroadcastPayload::TopologyOk,
    ];
    for payload in responses {
        assert!(payload.gen_msg_payload(&state).is_none());
    }
}
