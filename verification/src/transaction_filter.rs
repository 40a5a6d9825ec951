//! The ingress in front of the batch maker: it answers reads and takes
//! registrations itself and passes everything else on untouched.

use vstd::prelude::*;
use crate::databank::DeflDatabank;
use crate::databank::RegisterInfoView;
use crate::defl::Method;
use crate::defl::WeightsResponse;
use crate::defl::WeightsResponseView;
use crate::defl_sender::is_unicast;
use crate::defl_sender::DeflSender;
use crate::defl_sender::Delivery;
use crate::defl_sender::RespondError;
use crate::ids::fresh_uuid;
use crate::request_codec::decode_client_request;
use crate::request_codec::decoded_client_request;
use crate::weights_codec::weights_response_bytes;

verus! {

/// What became of one transaction at the filter.
#[derive(Debug)]
pub enum FilterAction {
    /// A read: the answer to send to the client, or why there is none.
    Reply(Result<Delivery, RespondError>),
    /// A registration that was entered into the registry.
    Registered,
    /// A registration without endpoints: nothing was done.
    Skipped,
    /// Anything else: these bytes go on to the batch maker.
    Forward(Vec<u8>),
    /// No request at all: dropped.
    Dropped,
}

/// The filter in front of the batch maker.
pub struct TransactionFilter {}

/// The answer to a read: the weights of the epoch that closed last, under
/// its number.
pub open spec fn fetch_view(last: DeflDatabank, response_uuid: Seq<char>) -> WeightsResponseView {
    WeightsResponseView {
        request_uuid: None,
        response_uuid,
        r_last_epoch_id: last.epoch_id,
        w_last: last.client_weights@,
    }
}

/// The bytes of that answer, the clients of `last` in their order.
pub open spec fn fetch_bytes(last: DeflDatabank, response_uuid: Seq<char>) -> Seq<u8> {
    weights_response_bytes(fetch_view(last, response_uuid), last.client_weights.order())
}

/// Whether `action`, with the registry going from `before` to `after`, is
/// what the filter owes the transaction `tx`.
pub open spec fn filter_ok(
    before: Map<Seq<char>, RegisterInfoView>,
    after: Map<Seq<char>, RegisterInfoView>,
    last: DeflDatabank,
    tx: Seq<u8>,
    action: FilterAction,
) -> bool {
    match decoded_client_request(tx) {
        None => action is Dropped && after == before,
        Some(r) => match Method::spec_from_i32(r.method) {
            Some(Method::FetchWLast) => after == before && match action {
                FilterAction::Reply(res) => exists|u: Seq<char>|
                    is_unicast(before, r.client_name, #[trigger] fetch_bytes(last, u), res),
                _ => false,
            },
            Some(Method::ClientRegister) => match r.register_info {
                Some(info) => action is Registered && after == before.insert(r.client_name, info),
                None => action is Skipped && after == before,
            },
            _ => after == before && match action {
                FilterAction::Forward(bytes) => bytes@ == tx,
                _ => false,
            },
        },
    }
}

impl TransactionFilter {
    /// The answer to a read by `client_name`, under the identifier
    /// `response_uuid`.
    pub fn fetch_reply(
        sender: &DeflSender,
        last: &DeflDatabank,
        client_name: String,
        response_uuid: String,
    ) -> (r: Result<Delivery, RespondError>)
        requires
            sender.wf(),
            last.wf(),
        ensures
            is_unicast(sender.contacts@, client_name@, fetch_bytes(*last, response_uuid@), r),
    {
        let response = WeightsResponse {
            request_uuid: None,
            response_uuid,
            r_last_epoch_id: last.epoch_id,
            w_last: last.client_weights.snapshot(),
        };
        sender.respond_weights_to_client(client_name, response)
    }

    /// Deals with one transaction from the network. A read is answered from
    /// `last`, under an identifier drawn at random; a registration goes into
    /// the registry; both stop here. Every other request is handed back for
    /// the batch maker, byte for byte.
    pub fn handle(sender: &mut DeflSender, last: &DeflDatabank, transaction: Vec<u8>) -> (action:
        FilterAction)
        requires
            old(sender).wf(),
            last.wf(),
        ensures
            final(sender).wf(),
            filter_ok(old(sender).contacts@, final(sender).contacts@, *last, transaction@, action),
    {
        let request = match decode_client_request(transaction.as_slice()) {
            Some(r) => r,
            None => { return FilterAction::Dropped; },
        };
        match Method::from_i32(request.method) {
            Some(Method::FetchWLast) => {
                let uuid = fresh_uuid();
                let ghost u = uuid@;
                let res = TransactionFilter::fetch_reply(sender, last, request.client_name, uuid);
                assert(is_unicast(
                    sender.contacts@,
                    request.client_name@,
                    fetch_bytes(*last, u),
                    res,
                ));
                FilterAction::Reply(res)
            },
            Some(Method::ClientRegister) => {
                match request.register_info {
                    Some(info) => {
                        sender.client_register(request.client_name, info);
                        FilterAction::Registered
                    },
                    None => FilterAction::Skipped,
                }
            },
            _ => FilterAction::Forward(transaction),
        }
    }
}

} // verus!
