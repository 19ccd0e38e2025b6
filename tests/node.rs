use broadcast::gossip::{pick_targets, select_targets};
use broadcast::{accept_init, reply, Body, Fields, HandleError, Message, Node, Store, Type};

fn ids(names: &[&str]) -> Vec<String> {
    names.iter().map(|s| s.to_string()).collect()
}

fn request(src: &str, dest: &str, t: Type, id: Option<u32>, fields: Fields) -> Message {
    Message {
        src: src.to_string(),
        dest: dest.to_string(),
        body: Body { msg_type: t, id, in_reply_to: None, fields },
    }
}

fn five_node() -> Node {
    Node::new("n0".to_string(), ids(&["n0", "n1", "n2", "n3", "n4"]), 3)
}

fn read_values(node: &mut Node) -> Vec<u64> {
    let out = node
        .handle_msg(request("c1", "n0", Type::Read, Some(99), Fields::Empty))
        .unwrap();
    assert_eq!(out.len(), 1);
    assert_eq!(out[0].body.msg_type, Type::ReadOk);
    match &out[0].body.fields {
        Fields::Messages(vs) => {
            let mut vs = vs.clone();
            vs.sort();
            vs
        }
        other => panic!("unexpected fields {:?}", other),
    }
}

#[test]
fn broadcast_twice_stores_once() {
    let mut node = Node::new("n0".to_string(), ids(&["n0"]), 3);
    let first = node
        .handle_msg(request("c1", "n0", Type::Broadcast, Some(1), Fields::Message(7)))
        .unwrap();
    let second = node
        .handle_msg(request("c1", "n0", Type::Broadcast, Some(2), Fields::Message(7)))
        .unwrap();
    assert_eq!(first.len(), 1);
    assert_eq!(second.len(), 1);
    assert_eq!(second[0].body.msg_type, Type::BroadcastOk);
    assert_eq!(second[0].body.in_reply_to, Some(2));
    assert_eq!(second[0].body.fields, Fields::Empty);
    assert_eq!(read_values(&mut node), vec![7]);
}

#[test]
fn read_lists_distinct_broadcast_values() {
    let mut node = Node::new("n0".to_string(), ids(&["n0"]), 3);
    for (i, v) in [5u64, 3, 5, 9, 3, 0].iter().enumerate() {
        node.handle_msg(request("c1", "n0", Type::Broadcast, Some(i as u32), Fields::Message(*v)))
            .unwrap();
    }
    assert_eq!(read_values(&mut node), vec![0, 3, 5, 9]);
}

#[test]
fn replies_are_correlated() {
    let mut node = five_node();
    let cases = vec![
        request("c1", "n0", Type::Broadcast, Some(11), Fields::Message(1)),
        request("c2", "n0", Type::Read, Some(12), Fields::Empty),
        request("c3", "n0", Type::Topology, Some(13), Fields::Topology(vec![])),
    ];
    for msg in cases {
        let src = msg.src.clone();
        let id = msg.body.id;
        let out = node.handle_msg(msg).unwrap();
        assert_eq!(out[0].src, "n0");
        assert_eq!(out[0].dest, src);
        assert_eq!(out[0].body.in_reply_to, id);
        assert_eq!(out[0].body.id, None);
    }
}

#[test]
fn new_value_is_gossiped_to_at_most_fanout_peers() {
    let mut node = five_node();
    let out = node
        .handle_msg(request("c1", "n0", Type::Broadcast, Some(1), Fields::Message(42)))
        .unwrap();
    assert!(out.len() >= 1 && out.len() <= 4);
    assert_eq!(out[0].body.msg_type, Type::BroadcastOk);
    assert_eq!(out[0].dest, "c1");
    let gossip = &out[1..];
    for (i, m) in gossip.iter().enumerate() {
        assert_eq!(m.src, "n0");
        assert_ne!(m.dest, "n0");
        assert!(["n1", "n2", "n3", "n4"].contains(&m.dest.as_str()));
        assert_eq!(m.body.msg_type, Type::Broadcast);
        assert_eq!(m.body.id, None);
        assert_eq!(m.body.in_reply_to, None);
        assert_eq!(m.body.fields, Fields::Message(42));
        for other in &gossip[i + 1..] {
            assert_ne!(other.dest, m.dest);
        }
    }
    let again = node
        .handle_msg(request("c1", "n0", Type::Broadcast, Some(2), Fields::Message(42)))
        .unwrap();
    assert_eq!(again.len(), 1);
}

#[test]
fn topology_is_acknowledged_without_fields() {
    let mut node = five_node();
    let topology = vec![
        ("n0".to_string(), ids(&["n1", "n2"])),
        ("n1".to_string(), ids(&["n0"])),
        ("n9".to_string(), vec![]),
    ];
    let out = node
        .handle_msg(request("c1", "n0", Type::Topology, Some(4), Fields::Topology(topology)))
        .unwrap();
    assert_eq!(out.len(), 1);
    assert_eq!(out[0].body.msg_type, Type::TopologyOk);
    assert_eq!(out[0].body.fields, Fields::Empty);
    assert_eq!(out[0].body.in_reply_to, Some(4));
}

#[test]
fn lone_node_gossips_nothing() {
    let node = Node::new("n0".to_string(), ids(&["n0"]), 3);
    for v in 0..20u64 {
        assert!(node.gossip(v).is_empty());
    }
    let mut node = Node::new("n0".to_string(), ids(&["n0"]), 3);
    let out = node
        .handle_msg(request("c1", "n0", Type::Broadcast, Some(1), Fields::Message(8)))
        .unwrap();
    assert_eq!(out.len(), 1);
}

#[test]
fn read_before_broadcast_is_empty() {
    let mut node = five_node();
    assert_eq!(read_values(&mut node), Vec::<u64>::new());
}

#[test]
fn broadcast_ok_is_silently_accepted() {
    let mut node = five_node();
    let out = node
        .handle_msg(request("n1", "n0", Type::BroadcastOk, None, Fields::Empty))
        .unwrap();
    assert!(out.is_empty());
}

#[test]
fn malformed_bodies_are_rejected() {
    let mut node = five_node();
    let r = node.handle_msg(request("c1", "n0", Type::Broadcast, Some(1), Fields::Empty));
    assert_eq!(r.unwrap_err(), HandleError::MalformedBody);
    let r = node.handle_msg(request("c1", "n0", Type::Topology, Some(2), Fields::Message(3)));
    assert_eq!(r.unwrap_err(), HandleError::MalformedBody);
    assert_eq!(read_values(&mut node), Vec::<u64>::new());
}

#[test]
fn unexpected_types_are_rejected() {
    let mut node = five_node();
    for t in [Type::Init, Type::InitOk, Type::ReadOk, Type::TopologyOk] {
        let r = node.handle_msg(request("c1", "n0", t, Some(1), Fields::Empty));
        assert_eq!(r.unwrap_err(), HandleError::UnexpectedType);
    }
}

#[test]
fn selection_follows_the_draws() {
    let roster = ids(&["n0", "n1", "n2"]);
    let me = "n0".to_string();
    assert_eq!(select_targets(&roster, &me, &vec![0, 1, 4, 2]), ids(&["n1", "n2"]));
    assert_eq!(select_targets(&roster, &me, &vec![5, 3]), ids(&["n2", "n1"]));
    assert_eq!(select_targets(&roster, &me, &vec![]), Vec::<String>::new());
    assert_eq!(select_targets(&vec![], &me, &vec![0, 1]), Vec::<String>::new());
    let last = "n2".to_string();
    assert_eq!(select_targets(&roster, &last, &vec![2]), ids(&["n0"]));
    assert_eq!(select_targets(&ids(&["n0"]), &me, &vec![0, 0, 7]), Vec::<String>::new());
}

#[test]
fn random_picks_stay_in_the_roster() {
    let roster = ids(&["n0", "n1"]);
    let me = "n0".to_string();
    for _ in 0..20 {
        assert_eq!(pick_targets(&roster, &me, 3), ids(&["n1"]));
    }
    let roster = ids(&["n0", "n1", "n2", "n3", "n4", "n5", "n6", "n7", "n8", "n9", "n10", "n11"]);
    for _ in 0..20 {
        let t = pick_targets(&roster, &me, 5);
        assert!(!t.is_empty() && t.len() <= 5);
        assert!(!t.contains(&me));
    }
    assert!(pick_targets(&roster, &me, 0).is_empty());
    assert!(pick_targets(&vec![], &me, 3).is_empty());
}

#[test]
fn init_is_accepted() {
    let msg = request(
        "c0",
        "n3",
        Type::Init,
        Some(1),
        Fields::Init { node_id: "n3".to_string(), node_ids: ids(&["n1", "n3"]) },
    );
    let (id, roster, ok) = accept_init(msg).unwrap();
    assert_eq!(id, "n3");
    assert_eq!(roster, ids(&["n1", "n3"]));
    assert_eq!(ok.src, "n3");
    assert_eq!(ok.dest, "c0");
    assert_eq!(ok.body.msg_type, Type::InitOk);
    assert_eq!(ok.body.in_reply_to, Some(1));
    assert_eq!(ok.body.fields, Fields::Empty);
}

#[test]
fn init_errors() {
    let r = accept_init(request("c0", "n3", Type::Init, Some(1), Fields::Empty));
    assert_eq!(r.unwrap_err(), HandleError::MalformedBody);
    let r = accept_init(request("c0", "n3", Type::Read, Some(1), Fields::Empty));
    assert_eq!(r.unwrap_err(), HandleError::UnexpectedType);
}

#[test]
fn reply_swaps_routing() {
    let msg = Message {
        src: "a".to_string(),
        dest: "b".to_string(),
        body: Body { msg_type: Type::ReadOk, id: Some(5), in_reply_to: Some(2), fields: Fields::Messages(vec![1]) },
    };
    let r = reply("b".to_string(), msg);
    assert_eq!(r.src, "b");
    assert_eq!(r.dest, "a");
    assert_eq!(r.body.id, None);
    assert_eq!(r.body.in_reply_to, Some(5));
    assert_eq!(r.body.msg_type, Type::ReadOk);
    assert_eq!(r.body.fields, Fields::Messages(vec![1]));
}

#[test]
fn store_deduplicates() {
    let mut s = Store::new();
    assert!(s.insert(4));
    assert!(!s.insert(4));
    assert!(s.insert(1));
    assert!(s.contains(4));
    assert!(!s.contains(2));
    let mut vs = s.snapshot();
    vs.sort();
    assert_eq!(vs, vec![1, 4]);
}
