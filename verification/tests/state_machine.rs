use defl::databank::SimpleRegisterInfo;
use defl::defl::ClientRequest;
use defl::defl::Method;
use defl::defl::Status;
use defl::defl_sender::DeflSender;
use defl::defl_sender::RespondError;
use defl::node::Node;
use defl::request_codec::encode_client_request;
use defl::codec::decode_response;
use defl::weights_codec::decode_weights_response;

fn request(method: Method, client: &str, epoch: i64, weights: Option<Vec<u8>>) -> ClientRequest {
    ClientRequest {
        method: method.as_i32(),
        request_uuid: format!("req-{}", client),
        client_name: client.to_string(),
        target_epoch_id: epoch,
        weights,
        register_info: None,
    }
}

fn endpoints(active: u16, passive: u16) -> SimpleRegisterInfo {
    SimpleRegisterInfo {
        host: "127.0.0.1".to_string(),
        port: active,
        pasv_host: "127.0.0.1".to_string(),
        pasv_port: passive,
    }
}

#[test]
fn new_node_starts_at_epoch_zero_with_empty_last() {
    let node = Node::new(3);
    assert_eq!(node.current().epoch_id, 0);
    assert_eq!(node.current().client_weights.len(), 0);
    assert_eq!(node.last().epoch_id, -1);
    assert_eq!(node.last().client_weights.len(), 0);
    assert_eq!(node.votes(), 0);
    assert_eq!(node.quorum_size(), 3);
}

#[test]
fn single_client_epoch_close_with_quorum_one() {
    let mut node = Node::new(1);
    let (first, passive) =
        node.get_responses(request(Method::UpdWeights, "alice", 0, Some(vec![0xAA, 0xBB])));
    assert_eq!(first.stat, Status::Okay.as_i32());
    assert_eq!(first.request_uuid, "req-alice");
    assert!(passive.is_none());
    let (second, passive) = node.get_responses(request(Method::NewEpochVote, "alice", 0, None));
    assert_eq!(second.stat, Status::Okay.as_i32());
    let passive = passive.unwrap();
    assert_eq!(passive.request_uuid, None);
    assert_eq!(passive.r_last_epoch_id, 0);
    assert_eq!(passive.w_last.len(), 1);
    assert_eq!(passive.w_last.get(&"alice".to_string()), Some(&vec![0xAA, 0xBB]));
    assert_eq!(node.current().epoch_id, 1);
    assert_eq!(node.current().client_weights.len(), 0);
    assert_eq!(node.votes(), 0);
    assert!(!node.has_voted(&"alice".to_string()));
    assert_eq!(node.last().epoch_id, 0);
    assert_eq!(node.last().client_weights.get(&"alice".to_string()), Some(&vec![0xAA, 0xBB]));
}

#[test]
fn stale_epoch_update_is_rejected() {
    let mut node = Node::new(2);
    let (response, passive) =
        node.get_responses(request(Method::UpdWeights, "alice", 5, Some(vec![1])));
    assert_eq!(response.stat, Status::UwTargetEpochIdError.as_i32());
    assert_eq!(response.stat, 3);
    assert!(passive.is_none());
    assert_eq!(node.current().epoch_id, 0);
    assert_eq!(node.current().client_weights.len(), 0);
    assert_eq!(node.last().epoch_id, -1);
}

#[test]
fn stale_epoch_wins_over_missing_weights() {
    let mut node = Node::new(2);
    let (response, _) = node.get_responses(request(Method::UpdWeights, "alice", 5, None));
    assert_eq!(response.stat, Status::UwTargetEpochIdError.as_i32());
}

#[test]
fn update_without_weights_is_rejected() {
    let mut node = Node::new(2);
    let (response, passive) = node.get_responses(request(Method::UpdWeights, "alice", 0, None));
    assert_eq!(response.stat, Status::NoWeightsInRequestError.as_i32());
    assert_eq!(response.stat, 5);
    assert!(passive.is_none());
    assert_eq!(node.current().client_weights.len(), 0);
}

#[test]
fn stale_epoch_vote_is_rejected() {
    let mut node = Node::new(2);
    let (response, passive) = node.get_responses(request(Method::NewEpochVote, "alice", 1, None));
    assert_eq!(response.stat, Status::NevTargetEpochIdError.as_i32());
    assert_eq!(response.stat, 4);
    assert!(passive.is_none());
    assert_eq!(node.votes(), 0);
}

#[test]
fn duplicate_vote() {
    let mut node = Node::new(3);
    let (first, _) = node.get_responses(request(Method::NewEpochVote, "alice", 0, None));
    assert_eq!(first.stat, Status::NotMeetQuorumWait.as_i32());
    assert_eq!(first.stat, 1);
    let (second, passive) = node.get_responses(request(Method::NewEpochVote, "alice", 0, None));
    assert_eq!(second.stat, Status::ClientAlreadyVotedError.as_i32());
    assert_eq!(second.stat, 2);
    assert!(passive.is_none());
    assert_eq!(node.votes(), 1);
    assert!(node.has_voted(&"alice".to_string()));
    assert_eq!(node.current().epoch_id, 0);
}

#[test]
fn quorum_met_by_second_vote() {
    let mut node = Node::new(2);
    node.get_responses(request(Method::UpdWeights, "alice", 0, Some(vec![1, 2])));
    node.get_responses(request(Method::UpdWeights, "bob", 0, Some(vec![3])));
    let (first, passive) = node.get_responses(request(Method::NewEpochVote, "alice", 0, None));
    assert_eq!(first.stat, Status::NotMeetQuorumWait.as_i32());
    assert!(passive.is_none());
    let (second, passive) = node.get_responses(request(Method::NewEpochVote, "bob", 0, None));
    assert_eq!(second.stat, Status::Okay.as_i32());
    assert_eq!(second.request_uuid, "req-bob");
    let passive = passive.unwrap();
    assert_eq!(passive.r_last_epoch_id, 0);
    assert_eq!(passive.w_last.len(), 2);
    assert_eq!(passive.w_last.get(&"alice".to_string()), Some(&vec![1, 2]));
    assert_eq!(passive.w_last.get(&"bob".to_string()), Some(&vec![3]));
    assert_eq!(node.current().epoch_id, 1);
    assert_eq!(node.last().epoch_id, 0);
}

#[test]
fn second_update_of_a_client_replaces_the_first() {
    let mut node = Node::new(2);
    node.get_responses(request(Method::UpdWeights, "alice", 0, Some(vec![1, 2])));
    let (response, _) = node.get_responses(request(Method::UpdWeights, "alice", 0, Some(vec![9])));
    assert_eq!(response.stat, Status::Okay.as_i32());
    assert_eq!(node.current().client_weights.len(), 1);
    assert_eq!(node.current().client_weights.get(&"alice".to_string()), Some(&vec![9]));
}

#[test]
fn read_and_register_are_internal_errors_on_the_commit_path() {
    let mut node = Node::new(1);
    let (a, _) = node.get_responses(request(Method::FetchWLast, "alice", 0, None));
    assert_eq!(a.stat, Status::ServerInternalError.as_i32());
    assert_eq!(a.stat, 6);
    let (b, _) = node.get_responses(request(Method::ClientRegister, "alice", 0, None));
    assert_eq!(b.stat, Status::ServerInternalError.as_i32());
    let mut unknown = request(Method::UpdWeights, "alice", 0, Some(vec![1]));
    unknown.method = 77;
    let (c, _) = node.get_responses(unknown);
    assert_eq!(c.stat, Status::ServerInternalError.as_i32());
    assert_eq!(node.current().client_weights.len(), 0);
}

#[test]
fn epoch_rises_by_one_per_close() {
    let mut node = Node::new(1);
    let mut epoch: i64 = 0;
    while epoch < 5 {
        assert_eq!(node.current().epoch_id, epoch);
        assert_eq!(node.last().epoch_id, epoch - 1);
        let (response, passive) =
            node.get_responses(request(Method::NewEpochVote, "alice", epoch, None));
        assert_eq!(response.stat, Status::Okay.as_i32());
        assert_eq!(passive.unwrap().r_last_epoch_id, epoch);
        epoch += 1;
    }
    assert_eq!(node.current().epoch_id, 5);
    assert_eq!(node.last().epoch_id, 4);
}

#[test]
fn two_nodes_on_the_same_log_agree() {
    let mut a = Node::new(2);
    let mut b = Node::new(2);
    let log = vec![
        ("alice", Method::UpdWeights, 0, Some(vec![1u8])),
        ("bob", Method::NewEpochVote, 0, None),
        ("alice", Method::NewEpochVote, 0, None),
        ("bob", Method::UpdWeights, 1, Some(vec![2u8, 3u8])),
        ("bob", Method::NewEpochVote, 1, None),
    ];
    for (client, method, epoch, weights) in log {
        let (ra, _) = a.get_responses(request(method, client, epoch, weights.clone()));
        let (rb, _) = b.get_responses(request(method, client, epoch, weights));
        assert_eq!(ra.stat, rb.stat);
    }
    assert_eq!(a.current().epoch_id, b.current().epoch_id);
    assert_eq!(a.current().epoch_id, 1);
    assert_eq!(a.votes(), b.votes());
    assert_eq!(a.votes(), 1);
    assert_eq!(
        a.current().client_weights.get(&"bob".to_string()),
        b.current().client_weights.get(&"bob".to_string())
    );
    assert_eq!(a.last().client_weights.get(&"alice".to_string()), Some(&vec![1u8]));
    assert_eq!(b.last().client_weights.get(&"alice".to_string()), Some(&vec![1u8]));
}

#[test]
fn response_identifiers_are_fresh() {
    let mut node = Node::new(1);
    let (first, _) = node.get_responses(request(Method::UpdWeights, "alice", 0, Some(vec![1])));
    let (second, passive) = node.get_responses(request(Method::NewEpochVote, "alice", 0, None));
    assert_eq!(first.response_uuid.len(), 36);
    assert_eq!(second.response_uuid.len(), 36);
    assert_ne!(first.response_uuid, second.response_uuid);
    let passive = passive.unwrap();
    assert_eq!(passive.response_uuid.len(), 36);
    assert_ne!(passive.response_uuid, second.response_uuid);
}

#[test]
fn committed_transaction_is_answered_and_broadcast() {
    let mut sender = DeflSender::new();
    sender.client_register("alice".to_string(), endpoints(9001, 9101));
    sender.client_register("bob".to_string(), endpoints(9002, 9102));
    let mut node = Node::new(2);
    let txs = vec![
        encode_client_request(&request(Method::UpdWeights, "alice", 0, Some(vec![0xAA]))),
        encode_client_request(&request(Method::UpdWeights, "bob", 0, Some(vec![0xBB]))),
        encode_client_request(&request(Method::NewEpochVote, "alice", 0, None)),
    ];
    let outs = node.analyze_batch(&sender, &txs);
    assert_eq!(outs.len(), 3);
    assert_eq!(outs[0].stat, Status::Okay);
    assert_eq!(outs[2].stat, Status::NotMeetQuorumWait);
    assert!(outs[2].broadcast.is_none());
    let out = node.analyze_transaction(
        &sender,
        encode_client_request(&request(Method::NewEpochVote, "bob", 0, None)),
    );
    assert_eq!(out.stat, Status::Okay);
    let reply = out.reply.unwrap().unwrap();
    assert_eq!(reply.host, "127.0.0.1");
    assert_eq!(reply.port, 9002);
    let response = decode_response(&reply.data).unwrap();
    assert_eq!(response.stat, 0);
    assert_eq!(response.request_uuid, "req-bob");
    let broadcast = out.broadcast.unwrap();
    assert_eq!(
        broadcast.targets,
        vec![("127.0.0.1".to_string(), 9101), ("127.0.0.1".to_string(), 9102)]
    );
    let notice = decode_weights_response(&broadcast.data).unwrap();
    assert_eq!(notice.request_uuid, None);
    assert_eq!(notice.r_last_epoch_id, 0);
    assert_eq!(notice.w_last.len(), 2);
    assert_eq!(notice.w_last.get(&"alice".to_string()), Some(&vec![0xAA]));
    assert_eq!(notice.w_last.get(&"bob".to_string()), Some(&vec![0xBB]));
    assert_eq!(node.current().epoch_id, 1);
}

#[test]
fn unregistered_reply() {
    let sender = DeflSender::new();
    let mut node = Node::new(3);
    let out = node.analyze_transaction(
        &sender,
        encode_client_request(&request(Method::UpdWeights, "carol", 0, Some(vec![7]))),
    );
    assert_eq!(out.stat, Status::Okay);
    match out.reply {
        Some(Err(RespondError::RegistrationError { client_name })) => {
            assert_eq!(client_name, "carol")
        }
        other => panic!("{:?}", other),
    }
    assert!(out.broadcast.is_none());
    assert_eq!(node.current().client_weights.get(&"carol".to_string()), Some(&vec![7]));
    let next = node.analyze_transaction(
        &sender,
        encode_client_request(&request(Method::NewEpochVote, "carol", 0, None)),
    );
    assert_eq!(next.stat, Status::NotMeetQuorumWait);
}

#[test]
fn malformed_transaction_changes_nothing() {
    let sender = DeflSender::new();
    let mut node = Node::new(1);
    let out = node.analyze_transaction(&sender, vec![0xFF, 0xFF, 0xFF]);
    assert_eq!(out.stat, Status::ServerInternalError);
    assert!(out.reply.is_none());
    assert!(out.broadcast.is_none());
    assert_eq!(node.current().epoch_id, 0);
    assert_eq!(node.votes(), 0);
}

#[test]
fn empty_block_payload_changes_nothing() {
    let mut sender = DeflSender::new();
    sender.client_register("alice".to_string(), endpoints(9001, 9101));
    let mut node = Node::new(1);
    node.get_responses(request(Method::UpdWeights, "alice", 0, Some(vec![1])));
    let outs = node.analyze_block(&sender, &Vec::new());
    assert!(outs.is_empty());
    assert_eq!(node.current().epoch_id, 0);
    assert_eq!(node.current().client_weights.len(), 1);
    assert_eq!(node.last().epoch_id, -1);
    assert_eq!(node.votes(), 0);
}

#[test]
fn block_of_two_batches_is_applied_in_order() {
    let mut sender = DeflSender::new();
    sender.client_register("alice".to_string(), endpoints(9001, 9101));
    let mut node = Node::new(1);
    let payload = vec![
        vec![encode_client_request(&request(Method::UpdWeights, "alice", 0, Some(vec![5])))],
        vec![],
        vec![
            encode_client_request(&request(Method::NewEpochVote, "alice", 0, None)),
            encode_client_request(&request(Method::NewEpochVote, "alice", 0, None)),
        ],
    ];
    let outs = node.analyze_block(&sender, &payload);
    assert_eq!(outs.len(), 3);
    assert_eq!(outs[0].len(), 1);
    assert_eq!(outs[1].len(), 0);
    assert_eq!(outs[2].len(), 2);
    assert_eq!(outs[2][0].stat, Status::Okay);
    assert!(outs[2][0].broadcast.is_some());
    assert_eq!(outs[2][1].stat, Status::NevTargetEpochIdError);
    assert_eq!(node.current().epoch_id, 1);
    assert_eq!(node.last().client_weights.get(&"alice".to_string()), Some(&vec![5]));
}

#[test]
fn only_those_who_voted_for_the_running_epoch_are_voters() {
    let mut node = Node::new(3);
    assert!(!node.has_voted(&"alice".to_string()));
    node.get_responses(request(Method::UpdWeights, "alice", 0, Some(vec![1])));
    assert!(!node.has_voted(&"alice".to_string()));
    node.get_responses(request(Method::NewEpochVote, "bob", 7, None));
    assert!(!node.has_voted(&"bob".to_string()));
    node.get_responses(request(Method::NewEpochVote, "alice", 0, None));
    assert!(node.has_voted(&"alice".to_string()));
    assert!(!node.has_voted(&"bob".to_string()));
    assert_eq!(node.votes(), 1);
}
