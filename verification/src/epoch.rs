//! The rule by which committed requests move a node from epoch to epoch,
//! stated on plain values, and what follows from it.

use vstd::prelude::*;
use crate::defl::ClientRequestView;
use crate::defl::Method;
use crate::defl::Status;

verus! {

/// What a node knows between two requests.
pub struct NodeView {
    /// The number of the running epoch.
    pub cur_epoch: int,
    /// The weights handed in during the running epoch.
    pub cur_weights: Map<Seq<char>, Seq<u8>>,
    /// The clients that handed in weights during the running epoch, in the
    /// order in which each first did.
    pub cur_order: Seq<Seq<char>>,
    /// The number of the epoch that closed last.
    pub last_epoch: int,
    /// The weights of the epoch that closed last.
    pub last_weights: Map<Seq<char>, Seq<u8>>,
    /// The clients of the epoch that closed last, in their order.
    pub last_order: Seq<Seq<char>>,
    /// The clients that voted to close the running epoch.
    pub voted: Set<Seq<char>>,
    /// The number of votes that closes an epoch.
    pub quorum: nat,
}

/// A node that has seen no request: epoch 0 runs, and the epoch before it
/// is numbered -1 and holds nothing.
pub open spec fn init(quorum: nat) -> NodeView {
    NodeView {
        cur_epoch: 0,
        cur_weights: Map::empty(),
        cur_order: Seq::empty(),
        last_epoch: -1,
        last_weights: Map::empty(),
        last_order: Seq::empty(),
        voted: Set::empty(),
        quorum,
    }
}

/// What holds of a node at all times.
pub open spec fn inv(s: NodeView) -> bool {
    &&& s.last_epoch == s.cur_epoch - 1
    &&& s.voted.finite()
    &&& (s.voted.len() < s.quorum || s.voted.len() == 0)
}

/// The status with which the node answers `r` in state `s`.
pub open spec fn status_of(s: NodeView, r: ClientRequestView) -> Status {
    match Method::spec_from_i32(r.method) {
        Some(Method::UpdWeights) => {
            if r.target_epoch_id != s.cur_epoch {
                Status::UwTargetEpochIdError
            } else if r.weights is None {
                Status::NoWeightsInRequestError
            } else {
                Status::Okay
            }
        },
        Some(Method::NewEpochVote) => {
            if r.target_epoch_id != s.cur_epoch {
                Status::NevTargetEpochIdError
            } else if s.voted.contains(r.client_name) {
                Status::ClientAlreadyVotedError
            } else if s.voted.insert(r.client_name).len() < s.quorum {
                Status::NotMeetQuorumWait
            } else {
                Status::Okay
            }
        },
        _ => Status::ServerInternalError,
    }
}

/// Whether `r` is the vote that closes the running epoch.
pub open spec fn closes(s: NodeView, r: ClientRequestView) -> bool {
    Method::spec_from_i32(r.method) == Some(Method::NewEpochVote) && status_of(s, r)
        == Status::Okay
}

/// Whether `r` is a vote of its client for the epoch `epoch`.
pub open spec fn is_vote(r: ClientRequestView, client: Seq<char>, epoch: int) -> bool {
    Method::spec_from_i32(r.method) == Some(Method::NewEpochVote) && r.client_name == client
        && r.target_epoch_id == epoch
}

/// The state after `r` was applied in state `s`.
pub open spec fn step(s: NodeView, r: ClientRequestView) -> NodeView {
    match Method::spec_from_i32(r.method) {
        Some(Method::UpdWeights) => {
            if status_of(s, r) == Status::Okay {
                NodeView {
                    cur_weights: s.cur_weights.insert(r.client_name, r.weights->0),
                    cur_order: if s.cur_weights.contains_key(r.client_name) {
                        s.cur_order
                    } else {
                        s.cur_order.push(r.client_name)
                    },
                    ..s
                }
            } else {
                s
            }
        },
        Some(Method::NewEpochVote) => {
            if status_of(s, r) == Status::NotMeetQuorumWait {
                NodeView { voted: s.voted.insert(r.client_name), ..s }
            } else if status_of(s, r) == Status::Okay {
                NodeView {
                    cur_epoch: s.cur_epoch + 1,
                    cur_weights: Map::empty(),
                    cur_order: Seq::empty(),
                    last_epoch: s.cur_epoch,
                    last_weights: s.cur_weights,
                    last_order: s.cur_order,
                    voted: Set::empty(),
                    quorum: s.quorum,
                }
            } else {
                s
            }
        },
        _ => s,
    }
}

/// The state after the first `n` requests of `log` were applied, in order.
pub open spec fn run(s: NodeView, log: Seq<ClientRequestView>, n: nat) -> NodeView
    decreases n,
{
    if n == 0 {
        s
    } else {
        step(run(s, log, (n - 1) as nat), log[n - 1])
    }
}

/// A request keeps what holds of a node at all times.
pub proof fn lemma_step_keeps_inv(s: NodeView, r: ClientRequestView)
    requires
        inv(s),
    ensures
        inv(step(s, r)),
{
    if Method::spec_from_i32(r.method) == Some(Method::NewEpochVote) && status_of(s, r)
        == Status::NotMeetQuorumWait {
        assert(s.voted.insert(r.client_name).finite());
    }
}

/// Nodes with the same quorum whose logs agree on the first `n` requests are
/// in the same state after these.
pub proof fn lemma_same_prefix_same_state(
    quorum: nat,
    log_a: Seq<ClientRequestView>,
    log_b: Seq<ClientRequestView>,
    n: nat,
)
    requires
        n <= log_a.len(),
        n <= log_b.len(),
        forall|i: int| 0 <= i < n ==> log_a[i] == log_b[i],
    ensures
        run(init(quorum), log_a, n) == run(init(quorum), log_b, n),
    decreases n,
{
    if n > 0 {
        lemma_same_prefix_same_state(quorum, log_a, log_b, (n - 1) as nat);
    }
}

/// After any number of requests the epoch that closed last is the one
/// before the running epoch, and fewer clients than the quorum have voted.
pub proof fn lemma_epochs_adjacent(quorum: nat, log: Seq<ClientRequestView>, n: nat)
    ensures
        inv(run(init(quorum), log, n)),
        run(init(quorum), log, n).last_epoch == run(init(quorum), log, n).cur_epoch - 1,
    decreases n,
{
    if n > 0 {
        lemma_epochs_adjacent(quorum, log, (n - 1) as nat);
        lemma_step_keeps_inv(run(init(quorum), log, (n - 1) as nat), log[n - 1]);
    }
}

/// A request leaves the number of the running epoch as it is or raises it
/// by one, and it raises it exactly when it is the vote that closes the epoch.
pub proof fn lemma_epoch_advances_by_one(s: NodeView, r: ClientRequestView)
    ensures
        closes(s, r) ==> step(s, r).cur_epoch == s.cur_epoch + 1,
        !closes(s, r) ==> step(s, r).cur_epoch == s.cur_epoch,
        step(s, r).quorum == s.quorum,
{
}

/// The number of the running epoch never falls along a log.
pub proof fn lemma_epoch_monotone(s: NodeView, log: Seq<ClientRequestView>, m: nat, n: nat)
    requires
        m <= n,
    ensures
        run(s, log, m).cur_epoch <= run(s, log, n).cur_epoch,
    decreases n,
{
    if m < n {
        lemma_epoch_monotone(s, log, m, (n - 1) as nat);
        lemma_epoch_advances_by_one(run(s, log, (n - 1) as nat), log[n - 1]);
    }
}

/// Whoever stands in the set of voters got there by a vote of its own, earlier
/// in the log, for the epoch that is running.
pub proof fn lemma_votes_have_cause(
    quorum: nat,
    log: Seq<ClientRequestView>,
    n: nat,
    client: Seq<char>,
)
    requires
        run(init(quorum), log, n).voted.contains(client),
    ensures
        exists|i: int|
            0 <= i < n && is_vote(#[trigger] log[i], client, run(init(quorum), log, n).cur_epoch),
    decreases n,
{
    if n > 0 {
        let before = run(init(quorum), log, (n - 1) as nat);
        let r = log[n - 1];
        if before.voted.contains(client) {
            lemma_votes_have_cause(quorum, log, (n - 1) as nat, client);
            let i = choose|i: int|
                0 <= i < n - 1 && is_vote(#[trigger] log[i], client, before.cur_epoch);
            assert(is_vote(log[i], client, run(init(quorum), log, n).cur_epoch));
        } else {
            assert(is_vote(log[n - 1], client, run(init(quorum), log, n).cur_epoch));
        }
    }
}

/// A vote that did not close the epoch, sent once more: the second is turned
/// down as a repeated vote and changes nothing.
pub proof fn lemma_repeated_vote(s: NodeView, r: ClientRequestView)
    requires
        Method::spec_from_i32(r.method) == Some(Method::NewEpochVote),
        r.target_epoch_id == s.cur_epoch,
        !closes(s, r),
    ensures
        status_of(step(s, r), r) == Status::ClientAlreadyVotedError,
        step(step(s, r), r) == step(s, r),
{
}

/// Of two accepted weight updates of one client in one epoch the second
/// stays.
pub proof fn lemma_last_update_wins(s: NodeView, first: ClientRequestView, second: ClientRequestView)
    requires
        Method::spec_from_i32(first.method) == Some(Method::UpdWeights),
        Method::spec_from_i32(second.method) == Some(Method::UpdWeights),
        first.client_name == second.client_name,
        first.target_epoch_id == s.cur_epoch,
        second.target_epoch_id == s.cur_epoch,
        second.weights is Some,
    ensures
        step(step(s, first), second).cur_weights.contains_key(second.client_name),
        step(step(s, first), second).cur_weights[second.client_name] == second.weights->0,
        step(step(s, first), second).cur_epoch == s.cur_epoch,
{
}

/// With a quorum of one the first vote for the running epoch closes it.
pub proof fn lemma_quorum_of_one(s: NodeView, r: ClientRequestView)
    requires
        inv(s),
        s.quorum == 1,
        Method::spec_from_i32(r.method) == Some(Method::NewEpochVote),
        r.target_epoch_id == s.cur_epoch,
    ensures
        closes(s, r),
        step(s, r).cur_epoch == s.cur_epoch + 1,
        step(s, r).last_weights == s.cur_weights,
        step(s, r).voted == Set::<Seq<char>>::empty(),
{
    assert(s.voted.len() == 0);
    assert(s.voted =~= Set::<Seq<char>>::empty());
    assert(s.voted.insert(r.client_name).len() == 1);
}

} // verus!
