//! The state of one node and how committed requests change it.

use vstd::prelude::*;
use crate::codec::response_bytes;
use crate::databank::DeflDatabank;
use crate::databank::RegisterInfoView;
use crate::defl::ClientRequest;
use crate::defl::ClientRequestView;
use crate::defl::Method;
use crate::defl::Response;
use crate::defl::ResponseView;
use crate::defl::Status;
use crate::defl::WeightsResponse;
use crate::defl::WeightsResponseView;
use crate::defl_sender::is_broadcast;
use crate::defl_sender::is_unicast;
use crate::defl_sender::Broadcast;
use crate::defl_sender::DeflSender;
use crate::defl_sender::Delivery;
use crate::defl_sender::RespondError;
use crate::epoch::closes;
use crate::epoch::init;
use crate::epoch::inv;
use crate::epoch::lemma_epoch_advances_by_one;
use crate::epoch::lemma_step_keeps_inv;
use crate::epoch::status_of;
use crate::epoch::step;
use crate::epoch::NodeView;
use crate::ids::fresh_uuid;
use crate::names::NameSet;
use crate::request_codec::decode_client_request;
use crate::request_codec::decoded_client_request;
use crate::weights_codec::encode_weights_response;
use crate::weights_codec::weights_response_bytes;

verus! {

/// One node: the running epoch, the epoch that closed last, the votes
/// and the quorum.
pub struct Node {
    last_defl_databank: DeflDatabank,
    cur_defl_databank: DeflDatabank,
    voted_clients: NameSet,
    quorum_size: usize,
}

impl View for Node {
    type V = NodeView;

    closed spec fn view(&self) -> NodeView {
        NodeView {
            cur_epoch: self.cur_defl_databank.epoch_id as int,
            cur_weights: self.cur_defl_databank.client_weights@,
            cur_order: self.cur_defl_databank.client_weights.order(),
            last_epoch: self.last_defl_databank.epoch_id as int,
            last_weights: self.last_defl_databank.client_weights@,
            last_order: self.last_defl_databank.client_weights.order(),
            voted: self.voted_clients@,
            quorum: self.quorum_size as nat,
        }
    }
}

/// What a node sends after one transaction.
#[derive(Debug)]
pub struct TxOutcome {
    /// The status of the transaction.
    pub stat: Status,
    /// The reply to the client that sent it, or why there is none to send;
    /// nothing where the transaction names no client.
    pub reply: Option<Result<Delivery, RespondError>>,
    /// The notice to every client, where the transaction closed the epoch.
    pub broadcast: Option<Broadcast>,
}

/// The message that tells every client the weights of the epoch that `s`
/// is about to close.
pub open spec fn passive_view(s: NodeView, response_uuid: Seq<char>) -> WeightsResponseView {
    WeightsResponseView {
        request_uuid: None,
        response_uuid,
        r_last_epoch_id: s.cur_epoch as i64,
        w_last: s.cur_weights,
    }
}

/// Whether `p` is the notice that `r` calls for in state `s`: none unless
/// `r` closes the epoch, else the weights of that epoch under its number.
pub open spec fn passive_ok(s: NodeView, r: ClientRequestView, p: Option<WeightsResponse>) -> bool {
    match p {
        Some(w) => closes(s, r) && w.w_last.wf() && w.w_last.order() == s.cur_order && exists|
            u: Seq<char>,
        | w@ == #[trigger] passive_view(s, u),
        None => !closes(s, r),
    }
}

/// The bytes of the reply to a request, under the identifier
/// `response_uuid`.
pub open spec fn reply_bytes(stat: Status, request_uuid: Seq<char>, response_uuid: Seq<char>) -> Seq<
    u8,
> {
    response_bytes(ResponseView { stat: stat.spec_as_i32(), request_uuid, response_uuid })
}

/// The bytes of the notice that closes the epoch of `s`, under the
/// identifier `response_uuid`.
pub open spec fn passive_bytes(s: NodeView, response_uuid: Seq<char>) -> Seq<u8> {
    weights_response_bytes(passive_view(s, response_uuid), s.cur_order)
}

/// The state after the transaction `tx`: a transaction that is no request
/// changes nothing.
pub open spec fn apply_tx(s: NodeView, tx: Seq<u8>) -> NodeView {
    match decoded_client_request(tx) {
        Some(r) => step(s, r),
        None => s,
    }
}

/// Whether `out` is what a node in state `s` sends after `tx`.
pub open spec fn outcome_ok(
    s: NodeView,
    contacts: Map<Seq<char>, RegisterInfoView>,
    contact_order: Seq<Seq<char>>,
    tx: Seq<u8>,
    out: TxOutcome,
) -> bool {
    match decoded_client_request(tx) {
        None => out.stat == Status::ServerInternalError && out.reply is None && out.broadcast
            is None,
        Some(r) => {
            &&& out.stat == status_of(s, r)
            &&& match out.reply {
                Some(res) => exists|u: Seq<char>|
                    is_unicast(
                        contacts,
                        r.client_name,
                        #[trigger] reply_bytes(out.stat, r.request_uuid, u),
                        res,
                    ),
                None => false,
            }
            &&& match out.broadcast {
                Some(b) => closes(s, r) && exists|u: Seq<char>|
                    is_broadcast(contacts, contact_order, #[trigger] passive_bytes(s, u), b),
                None => !closes(s, r),
            }
        },
    }
}

/// The transactions of a batch as plain bytes.
pub open spec fn batch_view(batch: Seq<Vec<u8>>) -> Seq<Seq<u8>> {
    Seq::new(batch.len(), |i: int| batch[i]@)
}

/// The batches of a block as plain bytes.
pub open spec fn block_view(payload: Seq<Vec<Vec<u8>>>) -> Seq<Seq<Seq<u8>>> {
    Seq::new(payload.len(), |i: int| batch_view(payload[i]@))
}

/// The state after the first `n` transactions of `batch`.
pub open spec fn apply_batch(s: NodeView, batch: Seq<Seq<u8>>, n: nat) -> NodeView
    decreases n,
{
    if n == 0 {
        s
    } else {
        apply_tx(apply_batch(s, batch, (n - 1) as nat), batch[n - 1])
    }
}

/// Whether `outs` holds, for each transaction of `batch` in order, what a
/// node that started the batch in state `s` sends after it.
pub open spec fn batch_outcomes_ok(
    s: NodeView,
    contacts: Map<Seq<char>, RegisterInfoView>,
    contact_order: Seq<Seq<char>>,
    batch: Seq<Seq<u8>>,
    outs: Seq<TxOutcome>,
) -> bool {
    &&& outs.len() == batch.len()
    &&& forall|i: int|
        0 <= i < batch.len() ==> outcome_ok(
            apply_batch(s, batch, i as nat),
            contacts,
            contact_order,
            batch[i],
            #[trigger] outs[i],
        )
}

/// The state after the first `n` batches of `payload`.
pub open spec fn apply_block(s: NodeView, payload: Seq<Seq<Seq<u8>>>, n: nat) -> NodeView
    decreases n,
{
    if n == 0 {
        s
    } else {
        apply_batch(apply_block(s, payload, (n - 1) as nat), payload[n - 1], payload[n - 1].len())
    }
}

/// The number of transactions in the first `n` batches of `payload`.
pub open spec fn tx_count(payload: Seq<Seq<Seq<u8>>>, n: nat) -> nat
    decreases n,
{
    if n == 0 {
        0
    } else {
        tx_count(payload, (n - 1) as nat) + payload[n - 1].len()
    }
}

/// More batches hold no fewer transactions.
pub proof fn lemma_tx_count_monotone(payload: Seq<Seq<Seq<u8>>>, m: nat, n: nat)
    requires
        m <= n,
    ensures
        tx_count(payload, m) <= tx_count(payload, n),
    decreases n,
{
    if m < n {
        lemma_tx_count_monotone(payload, m, (n - 1) as nat);
    }
}

impl Node {
    /// The parts are well formed, the epoch that closed last is the one
    /// before the running epoch, and fewer clients than the quorum have
    /// voted.
    pub closed spec fn wf(&self) -> bool {
        &&& self.cur_defl_databank.wf()
        &&& self.last_defl_databank.wf()
        &&& self.voted_clients.wf()
        &&& inv(self@)
    }

    pub proof fn lemma_inv(&self)
        requires
            self.wf(),
        ensures
            inv(self@),
            i64::MIN <= self@.cur_epoch <= i64::MAX,
    {
    }

    /// A node that has seen no transaction.
    pub fn new(quorum: usize) -> (r: Node)
        ensures
            r.wf(),
            r@ == init(quorum as nat),
    {
        let r = Node {
            last_defl_databank: DeflDatabank::new(-1),
            cur_defl_databank: DeflDatabank::new(0),
            voted_clients: NameSet::new(),
            quorum_size: quorum,
        };
        proof {
            r.voted_clients.lemma_finite();
        }
        r
    }

    /// The databank of the epoch that closed last.
    pub fn last(&self) -> (r: &DeflDatabank)
        requires
            self.wf(),
        ensures
            r.wf(),
            r.epoch_id == self@.last_epoch,
            r.client_weights@ == self@.last_weights,
            r.client_weights.order() == self@.last_order,
    {
        &self.last_defl_databank
    }

    /// The databank of the running epoch.
    pub fn current(&self) -> (r: &DeflDatabank)
        requires
            self.wf(),
        ensures
            r.wf(),
            r.epoch_id == self@.cur_epoch,
            r.client_weights@ == self@.cur_weights,
            r.client_weights.order() == self@.cur_order,
    {
        &self.cur_defl_databank
    }

    /// Whether `client_name` has voted to close the running epoch.
    pub fn has_voted(&self, client_name: &String) -> (r: bool)
        ensures
            r == self@.voted.contains(client_name@),
    {
        self.voted_clients.contains(client_name)
    }

    /// The number of clients that have voted to close the running epoch.
    pub fn votes(&self) -> (n: usize)
        requires
            self.wf(),
        ensures
            n == self@.voted.len(),
    {
        self.voted_clients.len()
    }

    pub fn quorum_size(&self) -> (q: usize)
        ensures
            q == self@.quorum,
    {
        self.quorum_size
    }

    /// Applies one request: the status it ends with and, where it closed the
    /// epoch, the databank of that epoch.
    pub fn apply(&mut self, client_request: ClientRequest) -> (r: (Status, Option<DeflDatabank>))
        requires
            old(self).wf(),
            old(self)@.cur_epoch < i64::MAX,
        ensures
            final(self).wf(),
            final(self)@ == step(old(self)@, client_request@),
            r.0 == status_of(old(self)@, client_request@),
            match r.1 {
                Some(d) => closes(old(self)@, client_request@) && d.wf() && d.epoch_id == old(
                    self,
                )@.cur_epoch && d.client_weights@ == old(self)@.cur_weights
                    && d.client_weights.order() == old(self)@.cur_order,
                None => !closes(old(self)@, client_request@),
            },
    {
        proof {
            lemma_step_keeps_inv(self@, client_request@);
        }
        let ClientRequest { method, request_uuid: _, client_name, target_epoch_id, weights, register_info: _ } =
            client_request;
        match Method::from_i32(method) {
            Some(Method::UpdWeights) => {
                if target_epoch_id == self.cur_defl_databank.epoch_id {
                    match weights {
                        Some(blob) => {
                            self.cur_defl_databank.client_weights.insert(client_name, blob);
                            (Status::Okay, None)
                        },
                        None => (Status::NoWeightsInRequestError, None),
                    }
                } else {
                    (Status::UwTargetEpochIdError, None)
                }
            },
            Some(Method::NewEpochVote) => {
                if target_epoch_id == self.cur_defl_databank.epoch_id {
                    if self.voted_clients.insert(client_name) {
                        if self.voted_clients.len() < self.quorum_size {
                            (Status::NotMeetQuorumWait, None)
                        } else {
                            let closed = self.cur_defl_databank.snapshot();
                            self.last_defl_databank = self.cur_defl_databank.snapshot();
                            self.cur_defl_databank.epoch_id = self.cur_defl_databank.epoch_id + 1;
                            self.cur_defl_databank.client_weights.clear();
                            self.voted_clients.clear();
                            (Status::Okay, Some(closed))
                        }
                    } else {
                        assert(self@.voted =~= old(self)@.voted);
                        (Status::ClientAlreadyVotedError, None)
                    }
                } else {
                    (Status::NevTargetEpochIdError, None)
                }
            },
            _ => (Status::ServerInternalError, None),
        }
    }

    /// Applies one request and words the answers: the reply to its client
    /// and, where it closed the epoch, the notice to every client. Each
    /// carries an identifier of its own, drawn at random.
    pub fn get_responses(&mut self, client_request: ClientRequest) -> (r: (
        Response,
        Option<WeightsResponse>,
    ))
        requires
            old(self).wf(),
            old(self)@.cur_epoch < i64::MAX,
        ensures
            final(self).wf(),
            final(self)@ == step(old(self)@, client_request@),
            r.0.stat == status_of(old(self)@, client_request@).spec_as_i32(),
            r.0.request_uuid@ == client_request.request_uuid@,
            passive_ok(old(self)@, client_request@, r.1),
    {
        let request_uuid = client_request.request_uuid.clone();
        let (stat, closed) = self.apply(client_request);
        let passive_response = match closed {
            Some(databank) => {
                let w = WeightsResponse {
                    request_uuid: None,
                    response_uuid: fresh_uuid(),
                    r_last_epoch_id: databank.epoch_id,
                    w_last: databank.client_weights,
                };
                assert(w@ == passive_view(old(self)@, w.response_uuid@));
                Some(w)
            },
            None => None,
        };
        let response = Response { stat: stat.as_i32(), request_uuid, response_uuid: fresh_uuid() };
        (response, passive_response)
    }

    fn analyze_bytes(&mut self, sender: &DeflSender, client_tx: &[u8]) -> (out: TxOutcome)
        requires
            old(self).wf(),
            sender.wf(),
            old(self)@.cur_epoch < i64::MAX,
        ensures
            final(self).wf(),
            final(self)@ == apply_tx(old(self)@, client_tx@),
            outcome_ok(
                old(self)@,
                sender.contacts@,
                sender.contacts.order(),
                client_tx@,
                out,
            ),
    {
        let client_request = match decode_client_request(client_tx) {
            Some(r) => r,
            None => {
                return TxOutcome {
                    stat: Status::ServerInternalError,
                    reply: None,
                    broadcast: None,
                };
            },
        };
        let ghost rv = client_request@;
        let client_name = client_request.client_name.clone();
        let (response, passive_response) = self.get_responses(client_request);
        let stat = match Status::from_i32(response.stat) {
            Some(s) => s,
            None => Status::ServerInternalError,
        };
        let ghost reply_uuid = response.response_uuid@;
        let reply = sender.respond_to_client(client_name, response);
        assert(is_unicast(
            sender.contacts@,
            rv.client_name,
            reply_bytes(stat, rv.request_uuid, reply_uuid),
            reply,
        ));
        let broadcast = match passive_response {
            Some(w) => {
                let ghost u = w.response_uuid@;
                let b = sender.broadcast(encode_weights_response(&w));
                assert(is_broadcast(
                    sender.contacts@,
                    sender.contacts.order(),
                    passive_bytes(old(self)@, u),
                    b,
                ));
                Some(b)
            },
            None => None,
        };
        TxOutcome { stat, reply: Some(reply), broadcast }
    }

    /// Applies one committed transaction and works out what to send: the
    /// reply to its client, whatever the status, and the notice to every
    /// client where the epoch closed. A transaction that is no request
    /// changes nothing and is answered to nobody.
    pub fn analyze_transaction(&mut self, sender: &DeflSender, client_tx: Vec<u8>) -> (out:
        TxOutcome)
        requires
            old(self).wf(),
            sender.wf(),
            old(self)@.cur_epoch < i64::MAX,
        ensures
            final(self).wf(),
            final(self)@ == apply_tx(old(self)@, client_tx@),
            outcome_ok(
                old(self)@,
                sender.contacts@,
                sender.contacts.order(),
                client_tx@,
                out,
            ),
    {
        self.analyze_bytes(sender, client_tx.as_slice())
    }

    /// Applies the transactions of one batch, in order.
    pub fn analyze_batch(&mut self, sender: &DeflSender, batch: &Vec<Vec<u8>>) -> (outs: Vec<
        TxOutcome,
    >)
        requires
            old(self).wf(),
            sender.wf(),
            old(self)@.cur_epoch + batch.len() <= i64::MAX,
        ensures
            final(self).wf(),
            final(self)@ == apply_batch(old(self)@, batch_view(batch@), batch.len() as nat),
            final(self)@.cur_epoch <= old(self)@.cur_epoch + batch.len(),
            batch_outcomes_ok(
                old(self)@,
                sender.contacts@,
                sender.contacts.order(),
                batch_view(batch@),
                outs@,
            ),
    {
        let ghost start = self@;
        let ghost txs = batch_view(batch@);
        let mut outs: Vec<TxOutcome> = Vec::new();
        let mut i: usize = 0;
        while i < batch.len()
            invariant
                i <= batch.len(),
                self.wf(),
                sender.wf(),
                txs == batch_view(batch@),
                start.cur_epoch + batch.len() <= i64::MAX,
                self@ == apply_batch(start, txs, i as nat),
                self@.cur_epoch <= start.cur_epoch + i,
                outs.len() == i,
                forall|j: int|
                    0 <= j < i ==> outcome_ok(
                        apply_batch(start, txs, j as nat),
                        sender.contacts@,
                        sender.contacts.order(),
                        txs[j],
                        #[trigger] outs[j],
                    ),
            decreases batch.len() - i,
        {
            let ghost before = self@;
            proof {
                match decoded_client_request(txs[i as int]) {
                    Some(r) => {
                        lemma_epoch_advances_by_one(before, r);
                    },
                    None => {},
                }
            }
            let out = self.analyze_bytes(sender, batch[i].as_slice());
            outs.push(out);
            i += 1;
        }
        outs
    }

    /// Applies one committed block, given as the batches that its payload
    /// names, in order. A block with an empty payload changes nothing and
    /// sends nothing.
    pub fn analyze_block(&mut self, sender: &DeflSender, payload: &Vec<Vec<Vec<u8>>>) -> (outs:
        Vec<Vec<TxOutcome>>)
        requires
            old(self).wf(),
            sender.wf(),
            old(self)@.cur_epoch + tx_count(block_view(payload@), payload.len() as nat)
                <= i64::MAX,
        ensures
            final(self).wf(),
            final(self)@ == apply_block(old(self)@, block_view(payload@), payload.len() as nat),
            payload.len() == 0 ==> final(self)@ == old(self)@,
            payload.len() == 0 ==> outs.len() == 0,
            outs.len() == payload.len(),
            forall|b: int|
                0 <= b < payload.len() ==> batch_outcomes_ok(
                    apply_block(old(self)@, block_view(payload@), b as nat),
                    sender.contacts@,
                    sender.contacts.order(),
                    block_view(payload@)[b],
                    (#[trigger] outs[b])@,
                ),
    {
        let ghost start = self@;
        let ghost pv = block_view(payload@);
        let mut outs: Vec<Vec<TxOutcome>> = Vec::new();
        let mut b: usize = 0;
        while b < payload.len()
            invariant
                b <= payload.len(),
                self.wf(),
                sender.wf(),
                pv == block_view(payload@),
                start.cur_epoch + tx_count(pv, payload.len() as nat) <= i64::MAX,
                self@ == apply_block(start, pv, b as nat),
                self@.cur_epoch <= start.cur_epoch + tx_count(pv, b as nat),
                outs.len() == b,
                forall|c: int|
                    0 <= c < b ==> batch_outcomes_ok(
                        apply_block(start, pv, c as nat),
                        sender.contacts@,
                        sender.contacts.order(),
                        pv[c],
                        (#[trigger] outs[c])@,
                    ),
            decreases payload.len() - b,
        {
            proof {
                lemma_tx_count_monotone(pv, (b + 1) as nat, payload.len() as nat);
                assert(pv[b as int] == batch_view(payload[b as int]@));
            }
            let batch_outs = self.analyze_batch(sender, &payload[b]);
            outs.push(batch_outs);
            b += 1;
        }
        outs
    }
}

} // verus!
