//! The second ingress: registrations, and reads whose answer goes to every
//! client.

use vstd::prelude::*;
use crate::databank::DeflDatabank;
use crate::databank::RegisterInfoView;
use crate::defl::ObsidoMethod;
use crate::defl::WeightsResponse;
use crate::defl::WeightsResponseView;
use crate::defl_sender::is_broadcast;
use crate::defl_sender::Broadcast;
use crate::defl_sender::DeflSender;
use crate::ids::fresh_uuid;
use crate::request_codec::decode_obsido_request;
use crate::request_codec::decoded_obsido_request;
use crate::weights_codec::encode_weights_response;
use crate::weights_codec::weights_response_bytes;

verus! {

/// What became of one request at the second ingress.
#[derive(Debug)]
pub enum ObsidoAction {
    /// A read: the answer to send to every client.
    Fanout(Broadcast),
    /// A registration that was entered into the registry.
    Registered,
    /// A registration without endpoints: nothing was done.
    Skipped,
    /// A request with a method this ingress does not know.
    Invalid,
    /// No request at all: dropped.
    Dropped,
}

/// The second ingress.
pub struct Obsido {}

/// The handler behind the second ingress.
pub struct ObsidoHandler {}

/// The answer to a read at this ingress: it names the request it answers.
pub open spec fn fanout_view(
    last: DeflDatabank,
    request_uuid: Seq<char>,
    response_uuid: Seq<char>,
) -> WeightsResponseView {
    WeightsResponseView {
        request_uuid: Some(request_uuid),
        response_uuid,
        r_last_epoch_id: last.epoch_id,
        w_last: last.client_weights@,
    }
}

/// The bytes of that answer, the clients of `last` in their order.
pub open spec fn fanout_bytes(
    last: DeflDatabank,
    request_uuid: Seq<char>,
    response_uuid: Seq<char>,
) -> Seq<u8> {
    weights_response_bytes(
        fanout_view(last, request_uuid, response_uuid),
        last.client_weights.order(),
    )
}

/// Whether `action`, with the registry going from `before` to `after`, is
/// what the second ingress owes the request `tx`. `order` is the order in
/// which the registry lists its clients.
pub open spec fn obsido_ok(
    before: Map<Seq<char>, RegisterInfoView>,
    order: Seq<Seq<char>>,
    after: Map<Seq<char>, RegisterInfoView>,
    last: DeflDatabank,
    tx: Seq<u8>,
    action: ObsidoAction,
) -> bool {
    match decoded_obsido_request(tx) {
        None => action is Dropped && after == before,
        Some(r) => match ObsidoMethod::spec_from_i32(r.method) {
            Some(ObsidoMethod::FetchWLast) => after == before && match action {
                ObsidoAction::Fanout(b) => exists|u: Seq<char>|
                    is_broadcast(before, order, #[trigger] fanout_bytes(last, r.request_uuid, u), b),
                _ => false,
            },
            Some(ObsidoMethod::ClientRegister) => match r.register_info {
                Some(info) => action is Registered && after == before.insert(r.client_name, info),
                None => action is Skipped && after == before,
            },
            None => action is Invalid && after == before,
        },
    }
}

impl Obsido {
    /// The bytes with which every frame is acknowledged as it comes in,
    /// whatever is done with it afterwards: the text `Ack`.
    pub fn ack() -> (r: Vec<u8>)
        ensures
            r@ == seq![65u8, 99u8, 107u8],
    {
        let mut r: Vec<u8> = Vec::new();
        r.push(65);
        r.push(99);
        r.push(107);
        assert(r@ =~= seq![65u8, 99u8, 107u8]);
        r
    }
}

impl ObsidoHandler {
    /// The answer to the read `request_uuid`, for every client, under the
    /// identifier `response_uuid`.
    pub fn fanout(
        sender: &DeflSender,
        last: &DeflDatabank,
        request_uuid: String,
        response_uuid: String,
    ) -> (b: Broadcast)
        requires
            sender.wf(),
            last.wf(),
        ensures
            is_broadcast(
                sender.contacts@,
                sender.contacts.order(),
                fanout_bytes(*last, request_uuid@, response_uuid@),
                b,
            ),
    {
        let response = WeightsResponse {
            request_uuid: Some(request_uuid),
            response_uuid,
            r_last_epoch_id: last.epoch_id,
            w_last: last.client_weights.snapshot(),
        };
        sender.broadcast(encode_weights_response(&response))
    }

    /// Deals with one request. A read is answered from `last` to every
    /// client, under an identifier drawn at random; a registration goes into
    /// the registry.
    pub fn handle(sender: &mut DeflSender, last: &DeflDatabank, transaction: Vec<u8>) -> (action:
        ObsidoAction)
        requires
            old(sender).wf(),
            last.wf(),
        ensures
            final(sender).wf(),
            obsido_ok(
                old(sender).contacts@,
                old(sender).contacts.order(),
                final(sender).contacts@,
                *last,
                transaction@,
                action,
            ),
    {
        let request = match decode_obsido_request(transaction.as_slice()) {
            Some(r) => r,
            None => { return ObsidoAction::Dropped; },
        };
        match ObsidoMethod::from_i32(request.method) {
            Some(ObsidoMethod::FetchWLast) => {
                let uuid = fresh_uuid();
                let ghost u = uuid@;
                let b = ObsidoHandler::fanout(sender, last, request.request_uuid, uuid);
                assert(is_broadcast(
                    sender.contacts@,
                    sender.contacts.order(),
                    fanout_bytes(*last, request.request_uuid@, u),
                    b,
                ));
                ObsidoAction::Fanout(b)
            },
            Some(ObsidoMethod::ClientRegister) => {
                match request.register_info {
                    Some(info) => {
                        sender.client_register(request.client_name, info);
                        ObsidoAction::Registered
                    },
                    None => ObsidoAction::Skipped,
                }
            },
            None => ObsidoAction::Invalid,
        }
    }
}

} // verus!
