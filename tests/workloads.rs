use node_protocol::{
    BroadcastBody, BroadcastHandler, Code, EchoBody, EchoHandler, Error, GenerateBody,
    GenerateHandler, InitBody, InitHandler, Message, Node, ResponseBuilder, Topology,
    TopologyBody, TopologyHandler,
};

fn s(text: &str) -> String {
    text.to_owned()
}

#[test]
fn test_parse_init() {
    let mut node: Node<String, u32> = Node::new();
    let request: Message<String, InitBody<u32, String>, u32> = Message {
        source: s("321"),
        destination: s("123"),
        body: Ok(InitBody::Request {
            message_id: 1,
            node_id: s("n3"),
            node_ids: vec![s("n1"), s("n2"), s("n3")],
        }),
    };
    let expected: Message<String, InitBody<u32, String>, u32> = Message {
        source: s("123"),
        destination: s("321"),
        body: Ok(InitBody::Response { in_reply_to: 1 }),
    };
    let response_body = request
        .body
        .clone()
        .and_then(|body| node.respond_init(body));
    let response = Node::<String, u32>::build_response(&request, response_body);
    assert_eq!(expected, response);
}

#[test]
fn test_parse_echo() {
    let mut test_node: Node<String, u32> = Node::new();
    let request: Message<String, EchoBody<u32>, u32> = Message {
        source: s("c1"),
        destination: s("n1"),
        body: Ok(EchoBody::Request { message_id: 1, echo: s("Please echo 35") }),
    };
    let expected: Message<String, EchoBody<u32>, u32> = Message {
        source: s("n1"),
        destination: s("c1"),
        body: Ok(EchoBody::Response {
            in_reply_to: 1,
            message_id: 1,
            echo: s("Please echo 35"),
        }),
    };
    let response_body = request
        .body
        .clone()
        .and_then(|body| test_node.respond_echo(body));
    let response = Node::<String, u32>::build_response(&request, response_body);
    assert_eq!(expected, response);
}

#[test]
fn test_parse_generate() {
    let mut test_node: Node<String, u32> = Node::with_id(s("n2"));
    let request: Message<String, GenerateBody<u32>, u32> = Message {
        source: s("c1"),
        destination: s("n1"),
        body: Ok(GenerateBody::Request { message_id: 1 }),
    };
    let expected: Message<String, GenerateBody<u32>, u32> = Message {
        source: s("n1"),
        destination: s("c1"),
        body: Ok(GenerateBody::Response { in_reply_to: 1, message_id: 1, id: s("n2-1") }),
    };
    let response_body = request
        .body
        .clone()
        .and_then(|body| test_node.respond_generate(body));
    let response = Node::<String, u32>::build_response(&request, response_body);
    assert_eq!(expected, response);
}

#[test]
fn test_parse_broadcast() {
    let mut test_node: Node<String, u32> = Node::new();
    let request: Message<String, BroadcastBody<u32, u32>, u32> = Message {
        source: s("c1"),
        destination: s("n1"),
        body: Ok(BroadcastBody::PushRequest { message: 1000, message_id: 1 }),
    };
    let expected: Message<String, BroadcastBody<u32, u32>, u32> = Message {
        source: s("n1"),
        destination: s("c1"),
        body: Ok(BroadcastBody::PushResponse { in_reply_to: 1, message_id: 1 }),
    };
    let response_body = request
        .body
        .clone()
        .and_then(|body| test_node.respond_broadcast(body));
    let response = Node::<String, u32>::build_response(&request, response_body);
    assert_eq!(expected, response);
}

#[test]
fn test_broadcast_read() {
    let mut test_node: Node<String, u32> = Node::new();
    let request: Message<String, BroadcastBody<u32, u32>, u32> = Message {
        source: s("c1"),
        destination: s("n1"),
        body: Ok(BroadcastBody::PushRequest { message: 1000, message_id: 1 }),
    };
    let read: Message<String, BroadcastBody<u32, u32>, u32> = Message {
        source: s("c1"),
        destination: s("n1"),
        body: Ok(BroadcastBody::ReadRequest { message_id: 1 }),
    };
    let expected: Message<String, BroadcastBody<u32, u32>, u32> = Message {
        source: s("n1"),
        destination: s("c1"),
        body: Ok(BroadcastBody::ReadResponse {
            message_id: 4,
            in_reply_to: 1,
            messages: vec![1000, 1000, 1000],
        }),
    };
    for _ in 0..3 {
        let _ = request
            .body
            .clone()
            .and_then(|body| test_node.respond_broadcast(body));
    }
    let res = read
        .body
        .clone()
        .and_then(|body| test_node.respond_broadcast(body));
    let res = Node::<String, u32>::build_response(&read, res);
    assert_eq!(expected, res);
}

#[test]
fn test_parse_topology() {
    let mut topology: Topology<String> = Topology::new();
    topology.insert(s("n1"), vec![s("n2"), s("n3")]);
    topology.insert(s("n2"), vec![s("n1")]);
    topology.insert(s("n3"), vec![s("n1")]);
    let request: Message<String, TopologyBody<u32, String>, u32> = Message {
        source: s("c1"),
        destination: s("n1"),
        body: Ok(TopologyBody::Request { message_id: 1, topology }),
    };
    let mut test_node: Node<String, u32> = Node::with_id(s("n2"));
    let expected: Message<String, TopologyBody<u32, String>, u32> = Message {
        source: s("n1"),
        destination: s("c1"),
        body: Ok(TopologyBody::Response { in_reply_to: 1, message_id: 1 }),
    };
    let response_body = request
        .body
        .clone()
        .and_then(|body| test_node.respond(body));
    let response = Node::<String, u32>::build_response(&request, response_body);
    assert_eq!(expected, response);
}

#[test]
fn topology_installs_own_neighbours() {
    let mut topology: Topology<String> = Topology::new();
    topology.insert(s("n1"), vec![s("n2"), s("n3")]);
    topology.insert(s("n2"), vec![s("n1")]);
    topology.insert(s("n3"), vec![s("n1")]);
    let mut node: Node<String, u32> = Node::with_id(s("n2"));
    let r = node.respond(TopologyBody::Request { message_id: 1, topology });
    assert!(r.is_ok());
    assert_eq!(node.topology(), &[s("n1")][..]);
}

#[test]
fn topology_without_own_entry_is_malformed() {
    let mut topology: Topology<String> = Topology::new();
    topology.insert(s("n1"), vec![s("n3")]);
    let mut node: Node<String, u32> = Node::with_id(s("n2"));
    let r = node.respond(TopologyBody::Request { message_id: 9, topology });
    let e = r.unwrap_err();
    assert_eq!(e.code, Code::MalformedRequest);
    assert_eq!(e.in_reply_to, 9);
    assert_eq!(e.msg, "Topology does not describe this node");
    assert!(node.topology().is_empty());
    // no index was spent on the failed request
    let echo = node.respond_echo(EchoBody::Request { message_id: 2, echo: s("x") });
    assert_eq!(
        echo,
        Ok(EchoBody::Response { in_reply_to: 2, message_id: 1, echo: s("x") })
    );
}

#[test]
fn topology_before_init_is_unavailable() {
    let mut topology: Topology<String> = Topology::new();
    topology.insert(s("n1"), vec![s("n3")]);
    let mut node: Node<String, u32> = Node::new();
    let e = node
        .respond(TopologyBody::Request { message_id: 4, topology })
        .unwrap_err();
    assert_eq!(e.code, Code::TemporarilyUnavailable);
    assert_eq!(e.in_reply_to, 4);
}

#[test]
fn topology_later_entry_wins() {
    let mut topology: Topology<String> = Topology::new();
    topology.insert(s("n1"), vec![s("n2")]);
    topology.insert(s("n1"), vec![s("n3"), s("n4")]);
    assert_eq!(topology.get(&s("n1")), Some(&vec![s("n3"), s("n4")]));
    assert_eq!(topology.get(&s("n9")), None);
    assert_eq!(topology.entries().len(), 2);
}

#[test]
fn generate_first_id_on_n2() {
    let mut node: Node<String, u32> = Node::with_id(s("n2"));
    let r = node.respond_generate(GenerateBody::Request { message_id: 17 });
    assert_eq!(
        r,
        Ok(GenerateBody::Response { in_reply_to: 17, message_id: 1, id: s("n2-1") })
    );
}

#[test]
fn generate_after_init_uses_new_address() {
    let mut node: Node<String, u32> = Node::new();
    let init = node.respond_init(InitBody::Request {
        message_id: 1,
        node_id: s("n7"),
        node_ids: vec![s("n7")],
    });
    assert_eq!(init, Ok(InitBody::Response { in_reply_to: 1 }));
    let mut ids = Vec::new();
    for k in 0..12u32 {
        match node.respond_generate(GenerateBody::Request { message_id: k }) {
            Ok(GenerateBody::Response { in_reply_to, id, .. }) => {
                assert_eq!(in_reply_to, k);
                ids.push(id);
            }
            other => panic!("unexpected {:?}", other),
        }
    }
    assert_eq!(ids[0], "n7-1");
    assert_eq!(ids[9], "n7-10");
    assert_eq!(ids[11], "n7-12");
}

#[test]
fn generate_before_init_is_unavailable() {
    let mut node: Node<String, u32> = Node::new();
    let r = node.respond_generate(GenerateBody::Request { message_id: 3 });
    assert_eq!(
        r,
        Err(Error::new(
            3,
            Code::TemporarilyUnavailable,
            s("Node has not been initialised yet")
        ))
    );
}

#[test]
fn generated_ids_of_distinct_nodes_differ() {
    let mut a: Node<String, u32> = Node::with_id(s("n1"));
    let mut b: Node<String, u32> = Node::with_id(s("n1-1"));
    let mut seen = std::collections::HashSet::new();
    for k in 0..15u32 {
        for node in [&mut a, &mut b] {
            match node.respond_generate(GenerateBody::Request { message_id: k }) {
                Ok(GenerateBody::Response { id, .. }) => assert!(seen.insert(id)),
                other => panic!("unexpected {:?}", other),
            }
        }
    }
    assert_eq!(seen.len(), 30);
}

#[test]
fn minted_ids_strictly_increase() {
    let mut node: Node<String, u32> = Node::new();
    let mut last = 0u32;
    for k in 0..5u32 {
        let r = node.respond_echo(EchoBody::Request { message_id: k, echo: s("e") });
        let m = match r {
            Ok(EchoBody::Response { message_id, .. }) => message_id,
            other => panic!("unexpected {:?}", other),
        };
        assert!(m > last);
        last = m;
    }
    let r = node.respond_broadcast(BroadcastBody::<u32, u32>::PushRequest {
        message_id: 9,
        message: 5,
    });
    assert_eq!(r, Ok(BroadcastBody::PushResponse { in_reply_to: 9, message_id: 6 }));
}

#[test]
fn every_response_in_reply_to_its_request() {
    let mut node: Node<String, u32> = Node::with_id(s("n1"));
    assert_eq!(
        node.respond_echo(EchoBody::Request { message_id: 41, echo: s("hi") }),
        Ok(EchoBody::Response { in_reply_to: 41, message_id: 1, echo: s("hi") })
    );
    assert_eq!(
        node.respond_broadcast(BroadcastBody::<u32, u32>::ReadRequest { message_id: 42 }),
        Ok(BroadcastBody::ReadResponse { message_id: 2, in_reply_to: 42, messages: vec![] })
    );
    assert_eq!(
        node.respond_init(InitBody::Request { message_id: 43, node_id: s("n1"), node_ids: vec![] }),
        Ok(InitBody::Response { in_reply_to: 43 })
    );
}

fn assert_malformed(e: Error<u32>, own_id: u32) {
    assert_eq!(e.code, Code::MalformedRequest);
    assert_eq!(e.in_reply_to, own_id);
    assert_eq!(e.msg, "Request is a response");
}

#[test]
fn responses_are_rejected_by_their_handlers() {
    let mut node: Node<String, u32> = Node::with_id(s("n1"));
    assert_malformed(node.respond_init(InitBody::Response { in_reply_to: 5 }).unwrap_err(), 5);
    assert_malformed(
        node.respond_echo(EchoBody::Response { in_reply_to: 1, message_id: 6, echo: s("x") })
            .unwrap_err(),
        6,
    );
    assert_malformed(
        node.respond_generate(GenerateBody::Response {
            in_reply_to: 1,
            message_id: 7,
            id: s("n1-1"),
        })
        .unwrap_err(),
        7,
    );
    assert_malformed(
        node.respond_broadcast(BroadcastBody::<u32, u32>::PushResponse {
            in_reply_to: 1,
            message_id: 8,
        })
        .unwrap_err(),
        8,
    );
    assert_malformed(
        node.respond_broadcast(BroadcastBody::<u32, u32>::ReadResponse {
            message_id: 9,
            in_reply_to: 1,
            messages: vec![3],
        })
        .unwrap_err(),
        9,
    );
    assert_malformed(
        node.respond(TopologyBody::Response { in_reply_to: 1, message_id: 10 }).unwrap_err(),
        10,
    );
    // nothing was minted or kept on the way
    assert_eq!(
        node.respond_broadcast(BroadcastBody::<u32, u32>::ReadRequest { message_id: 11 }),
        Ok(BroadcastBody::ReadResponse { message_id: 1, in_reply_to: 11, messages: vec![] })
    );
}

#[test]
fn build_response_reverses_the_edge() {
    let request: Message<&str, EchoBody<u32>, u32> = Message {
        source: "c1",
        destination: "n1",
        body: Ok(EchoBody::Request { message_id: 1, echo: s("a") }),
    };
    let failure = Err(Error::new(1, Code::Crash, s("down")));
    let response = Node::<&str, u32>::build_response(&request, failure.clone());
    assert_eq!(response.source, "n1");
    assert_eq!(response.destination, "c1");
    assert_eq!(response.body, failure);
}

#[test]
fn topology_equality_ignores_insertion_order() {
    let mut a: Topology<String> = Topology::new();
    a.insert(s("n1"), vec![s("n2"), s("n3")]);
    a.insert(s("n2"), vec![s("n1")]);
    let mut b: Topology<String> = Topology::new();
    b.insert(s("n2"), vec![s("n1")]);
    b.insert(s("n1"), vec![s("n9")]);
    b.insert(s("n1"), vec![s("n2"), s("n3")]);
    assert_eq!(a, b);
    let mut c: Topology<String> = Topology::new();
    c.insert(s("n1"), vec![s("n3"), s("n2")]);
    c.insert(s("n2"), vec![s("n1")]);
    assert_ne!(a, c);
    let mut d: Topology<String> = Topology::new();
    d.insert(s("n1"), vec![s("n2"), s("n3")]);
    assert_ne!(a, d);
    assert_ne!(d, a);
}
