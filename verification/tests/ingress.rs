use defl::databank::DeflDatabank;
use defl::databank::SimpleRegisterInfo;
use defl::defl::ClientRequest;
use defl::defl::Method;
use defl::defl::ObsidoMethod;
use defl::defl::ObsidoRequest;
use defl::defl::Response;
use defl::defl::Status;
use defl::defl_sender::DeflSender;
use defl::defl_sender::RespondError;
use defl::node::Node;
use defl::obsido::Obsido;
use defl::obsido::ObsidoAction;
use defl::obsido::ObsidoHandler;
use defl::request_codec::encode_client_request;
use defl::request_codec::encode_obsido_request;
use defl::transaction_filter::FilterAction;
use defl::transaction_filter::TransactionFilter;
use defl::codec::decode_response;
use defl::weights_codec::decode_weights_response;

fn endpoints(active: u16, passive: u16) -> SimpleRegisterInfo {
    SimpleRegisterInfo {
        host: "127.0.0.1".to_string(),
        port: active,
        pasv_host: "127.0.0.1".to_string(),
        pasv_port: passive,
    }
}

fn client_request(method: i32, client: &str, info: Option<SimpleRegisterInfo>) -> Vec<u8> {
    encode_client_request(&ClientRequest {
        method,
        request_uuid: "r-1".to_string(),
        client_name: client.to_string(),
        target_epoch_id: 0,
        weights: None,
        register_info: info,
    })
}

fn obsido_request(method: i32, client: &str, info: Option<SimpleRegisterInfo>) -> Vec<u8> {
    encode_obsido_request(&ObsidoRequest {
        method,
        request_uuid: "o-1".to_string(),
        client_name: client.to_string(),
        register_info: info,
    })
}

#[test]
fn register_then_read() {
    let mut sender = DeflSender::new();
    let node = Node::new(1);
    let action = TransactionFilter::handle(
        &mut sender,
        node.last(),
        client_request(Method::ClientRegister.as_i32(), "alice", Some(endpoints(9001, 9101))),
    );
    assert!(matches!(action, FilterAction::Registered));
    assert_eq!(sender.lookup(&"alice".to_string()), Some(endpoints(9001, 9101)));
    let action = TransactionFilter::handle(
        &mut sender,
        node.last(),
        client_request(Method::FetchWLast.as_i32(), "alice", None),
    );
    match action {
        FilterAction::Reply(Ok(delivery)) => {
            assert_eq!(delivery.host, "127.0.0.1");
            assert_eq!(delivery.port, 9001);
            let reply = decode_weights_response(&delivery.data).unwrap();
            assert_eq!(reply.r_last_epoch_id, -1);
            assert_eq!(reply.w_last.len(), 0);
            assert_eq!(reply.request_uuid, None);
            assert_eq!(reply.response_uuid.len(), 36);
        }
        other => panic!("{:?}", other),
    }
}

#[test]
fn read_by_unknown_client_has_no_address() {
    let mut sender = DeflSender::new();
    let last = DeflDatabank::new(-1);
    let action = TransactionFilter::handle(
        &mut sender,
        &last,
        client_request(Method::FetchWLast.as_i32(), "carol", None),
    );
    match action {
        FilterAction::Reply(Err(RespondError::RegistrationError { client_name })) => {
            assert_eq!(client_name, "carol")
        }
        other => panic!("{:?}", other),
    }
}

#[test]
fn read_returns_the_last_closed_epoch() {
    let mut sender = DeflSender::new();
    sender.client_register("alice".to_string(), endpoints(9001, 9101));
    let mut last = DeflDatabank::new(4);
    last.client_weights.insert("alice".to_string(), vec![1, 2, 3]);
    last.client_weights.insert("bob".to_string(), vec![]);
    let reply = TransactionFilter::fetch_reply(
        &sender,
        &last,
        "alice".to_string(),
        "fixed-id".to_string(),
    )
    .unwrap();
    let message = decode_weights_response(&reply.data).unwrap();
    assert_eq!(message.response_uuid, "fixed-id");
    assert_eq!(message.r_last_epoch_id, 4);
    assert_eq!(message.w_last.len(), 2);
    assert_eq!(message.w_last.get(&"alice".to_string()), Some(&vec![1, 2, 3]));
    assert_eq!(message.w_last.get(&"bob".to_string()), Some(&vec![]));
}

#[test]
fn registering_twice_is_registering_once() {
    let mut once = DeflSender::new();
    let mut twice = DeflSender::new();
    let last = DeflDatabank::new(-1);
    let tx = client_request(Method::ClientRegister.as_i32(), "alice", Some(endpoints(1, 2)));
    TransactionFilter::handle(&mut once, &last, tx.clone());
    TransactionFilter::handle(&mut twice, &last, tx.clone());
    TransactionFilter::handle(&mut twice, &last, tx);
    assert_eq!(once.contacts.len(), 1);
    assert_eq!(twice.contacts.len(), 1);
    assert_eq!(once.lookup(&"alice".to_string()), twice.lookup(&"alice".to_string()));
}

#[test]
fn registering_again_overwrites() {
    let mut sender = DeflSender::new();
    sender.client_register("alice".to_string(), endpoints(1, 2));
    sender.client_register("alice".to_string(), endpoints(3, 4));
    assert_eq!(sender.contacts.len(), 1);
    assert_eq!(sender.lookup(&"alice".to_string()), Some(endpoints(3, 4)));
    assert_eq!(sender.lookup(&"bob".to_string()), None);
    let copy = sender.snapshot();
    assert_eq!(copy.len(), 1);
    assert_eq!(copy.get(&"alice".to_string()), Some(&endpoints(3, 4)));
}

#[test]
fn register_without_endpoints_is_skipped() {
    let mut sender = DeflSender::new();
    let last = DeflDatabank::new(-1);
    let action = TransactionFilter::handle(
        &mut sender,
        &last,
        client_request(Method::ClientRegister.as_i32(), "alice", None),
    );
    assert!(matches!(action, FilterAction::Skipped));
    assert_eq!(sender.contacts.len(), 0);
}

#[test]
fn writes_are_forwarded_untouched() {
    let mut sender = DeflSender::new();
    let last = DeflDatabank::new(-1);
    for method in [Method::UpdWeights.as_i32(), Method::NewEpochVote.as_i32(), 42] {
        let tx = client_request(method, "alice", None);
        match TransactionFilter::handle(&mut sender, &last, tx.clone()) {
            FilterAction::Forward(bytes) => assert_eq!(bytes, tx),
            other => panic!("{:?}", other),
        }
    }
    assert_eq!(sender.contacts.len(), 0);
}

#[test]
fn malformed_frames_are_dropped() {
    let mut sender = DeflSender::new();
    let last = DeflDatabank::new(-1);
    let action = TransactionFilter::handle(&mut sender, &last, vec![0x0A, 0x05, 0x01]);
    assert!(matches!(action, FilterAction::Dropped));
    let action = ObsidoHandler::handle(&mut sender, &last, vec![0x80]);
    assert!(matches!(action, ObsidoAction::Dropped));
}

#[test]
fn obsido_read_goes_to_every_passive_endpoint() {
    let mut sender = DeflSender::new();
    let last = DeflDatabank::new(-1);
    let a = ObsidoHandler::handle(
        &mut sender,
        &last,
        obsido_request(ObsidoMethod::ClientRegister.as_i32(), "alice", Some(endpoints(9001, 9101))),
    );
    assert!(matches!(a, ObsidoAction::Registered));
    ObsidoHandler::handle(
        &mut sender,
        &last,
        obsido_request(1, "bob", Some(endpoints(9002, 9102))),
    );
    let action = ObsidoHandler::handle(&mut sender, &last, obsido_request(0, "alice", None));
    match action {
        ObsidoAction::Fanout(broadcast) => {
            assert_eq!(
                broadcast.targets,
                vec![("127.0.0.1".to_string(), 9101), ("127.0.0.1".to_string(), 9102)]
            );
            let message = decode_weights_response(&broadcast.data).unwrap();
            assert_eq!(message.request_uuid, Some("o-1".to_string()));
            assert_eq!(message.r_last_epoch_id, -1);
            assert_eq!(message.w_last.len(), 0);
        }
        other => panic!("{:?}", other),
    }
}

#[test]
fn obsido_knows_two_methods_only() {
    let mut sender = DeflSender::new();
    let last = DeflDatabank::new(-1);
    let action = ObsidoHandler::handle(&mut sender, &last, obsido_request(2, "alice", None));
    assert!(matches!(action, ObsidoAction::Invalid));
    let action = ObsidoHandler::handle(&mut sender, &last, obsido_request(1, "alice", None));
    assert!(matches!(action, ObsidoAction::Skipped));
    assert_eq!(ObsidoMethod::from_i32(0), Some(ObsidoMethod::FetchWLast));
    assert_eq!(ObsidoMethod::from_i32(1), Some(ObsidoMethod::ClientRegister));
    assert_eq!(ObsidoMethod::from_i32(-1), None);
}

#[test]
fn frames_are_acknowledged_with_ack() {
    assert_eq!(Obsido::ack(), b"Ack".to_vec());
}

#[test]
fn respond_to_client_uses_the_active_endpoint() {
    let mut sender = DeflSender::new();
    sender.client_register("alice".to_string(), endpoints(9001, 9101));
    let response = Response {
        stat: Status::NotMeetQuorumWait.as_i32(),
        request_uuid: "q".to_string(),
        response_uuid: "p".to_string(),
    };
    let delivery = sender.respond_to_client("alice".to_string(), response).unwrap();
    assert_eq!(delivery.host, "127.0.0.1");
    assert_eq!(delivery.port, 9001);
    let back = decode_response(&delivery.data).unwrap();
    assert_eq!(back.stat, 1);
    assert_eq!(back.request_uuid, "q");
    assert_eq!(back.response_uuid, "p");
    assert_eq!(delivery.client_name, "alice");
    assert_eq!(delivery.conclude(true).unwrap(), delivery.data.len());
    match delivery.conclude(false) {
        Err(RespondError::NetworkError { client_name }) => assert_eq!(client_name, "alice"),
        other => panic!("{:?}", other),
    }
}

#[test]
fn broadcast_to_nobody_has_no_targets() {
    let sender = DeflSender::new();
    let broadcast = sender.broadcast(vec![1, 2, 3]);
    assert!(broadcast.targets.is_empty());
    assert_eq!(broadcast.data, vec![1, 2, 3]);
}
