//! The contact registry and the replies that go out through it. Nothing is
//! sent from here: a reply is worked out as the address and the bytes to
//! send, and the caller sends them.

use vstd::prelude::*;
use crate::codec::encode_response;
use crate::codec::response_bytes;
use crate::databank::RegisterInfoView;
use crate::databank::SimpleRegisterInfo;
use crate::defl::Response;
use crate::defl::WeightsResponse;
use crate::name_map::NameMap;
use crate::weights_codec::encode_weights_response;
use crate::weights_codec::weights_response_bytes;

verus! {

/// Why a reply did not reach its client.
#[derive(Debug)]
pub enum RespondError {
    /// The client never registered.
    RegistrationError { client_name: String },
    /// The bytes could not be sent.
    NetworkError { client_name: String },
    /// The registry could not be read.
    ContactsLockPoisonError,
}

/// The clients that registered, each with its endpoints.
pub type ContactRegistry = NameMap<SimpleRegisterInfo>;

/// Bytes to send to one address.
#[derive(Debug)]
pub struct Delivery {
    pub client_name: String,
    pub host: String,
    pub port: u16,
    pub data: Vec<u8>,
}

/// The same bytes to send to each of the addresses.
#[derive(Debug)]
pub struct Broadcast {
    pub targets: Vec<(String, u16)>,
    pub data: Vec<u8>,
}

/// The contact registry of a node.
pub struct DeflSender {
    pub contacts: ContactRegistry,
}

/// `r` is what sending `payload` to the active endpoint of `name` comes to:
/// the delivery where the client is registered, a registration error that
/// names the client where it is not.
pub open spec fn is_unicast(
    contacts: Map<Seq<char>, RegisterInfoView>,
    name: Seq<char>,
    payload: Seq<u8>,
    r: Result<Delivery, RespondError>,
) -> bool {
    match r {
        Ok(d) => contacts.contains_key(name) && d.client_name@ == name && d.host@
            == contacts[name].host && d.port == contacts[name].port && d.data@ == payload,
        Err(RespondError::RegistrationError { client_name }) => !contacts.contains_key(name)
            && client_name@ == name,
        Err(_) => false,
    }
}

/// `b` sends `payload` to the passive endpoint of every client in `order`.
pub open spec fn is_broadcast(
    contacts: Map<Seq<char>, RegisterInfoView>,
    order: Seq<Seq<char>>,
    payload: Seq<u8>,
    b: Broadcast,
) -> bool {
    &&& b.data@ == payload
    &&& b.targets.len() == order.len()
    &&& forall|i: int|
        0 <= i < order.len() ==> (#[trigger] b.targets[i]).0@ == contacts[order[i]].pasv_host
            && b.targets[i].1 == contacts[order[i]].pasv_port
}

/// Registering the same endpoints under the same name twice leaves the
/// registry as registering them once does.
pub proof fn lemma_register_twice(
    contacts: Map<Seq<char>, RegisterInfoView>,
    name: Seq<char>,
    info: RegisterInfoView,
)
    ensures
        contacts.insert(name, info).insert(name, info) == contacts.insert(name, info),
{
    assert(contacts.insert(name, info).insert(name, info) =~= contacts.insert(name, info));
}

impl Delivery {
    /// What the caller reports once it tried to send: the number of bytes
    /// where they went out, a network error that names the client where
    /// they did not.
    pub fn conclude(&self, sent: bool) -> (r: Result<usize, RespondError>)
        ensures
            match r {
                Ok(n) => sent && n == self.data.len(),
                Err(RespondError::NetworkError { client_name }) => !sent && client_name@
                    == self.client_name@,
                Err(_) => false,
            },
    {
        if sent {
            Ok(self.data.len())
        } else {
            Err(RespondError::NetworkError { client_name: self.client_name.clone() })
        }
    }
}

impl DeflSender {
    pub open spec fn wf(&self) -> bool {
        self.contacts.wf()
    }

    /// A sender that knows no client.
    pub fn new() -> (r: DeflSender)
        ensures
            r.wf(),
            r.contacts@ == Map::<Seq<char>, RegisterInfoView>::empty(),
            r.contacts.order() == Seq::<Seq<char>>::empty(),
    {
        DeflSender { contacts: NameMap::new() }
    }

    /// Puts the endpoints of `client_name` into the registry, in place of
    /// earlier ones if there were any.
    pub fn client_register(&mut self, client_name: String, register_info: SimpleRegisterInfo)
        requires
            old(self).wf(),
        ensures
            final(self).wf(),
            final(self).contacts@ == old(self).contacts@.insert(client_name@, register_info@),
    {
        self.contacts.insert(client_name, register_info);
    }

    /// The endpoints of `client_name`, if it registered.
    pub fn lookup(&self, client_name: &String) -> (r: Option<SimpleRegisterInfo>)
        requires
            self.wf(),
        ensures
            match r {
                Some(info) => self.contacts@.contains_key(client_name@) && info@
                    == self.contacts@[client_name@],
                None => !self.contacts@.contains_key(client_name@),
            },
    {
        match self.contacts.get(client_name) {
            Some(info) => Some(info.clone()),
            None => None,
        }
    }

    /// A copy of the registry, for a caller that must not hold it while it
    /// sends.
    pub fn snapshot(&self) -> (r: ContactRegistry)
        requires
            self.wf(),
        ensures
            r.wf(),
            r@ == self.contacts@,
            r.order() == self.contacts.order(),
    {
        self.contacts.snapshot()
    }

    /// `data` addressed to the active endpoint of `client_name`.
    pub fn unicast(&self, client_name: String, data: Vec<u8>) -> (r: Result<
        Delivery,
        RespondError,
    >)
        requires
            self.wf(),
        ensures
            is_unicast(self.contacts@, client_name@, data@, r),
    {
        match self.lookup(&client_name) {
            Some(info) => Ok(Delivery { client_name, host: info.host, port: info.port, data }),
            None => Err(RespondError::RegistrationError { client_name }),
        }
    }

    /// The reply to one request, addressed to the client that sent it.
    pub fn respond_to_client(&self, client_name: String, response: Response) -> (r: Result<
        Delivery,
        RespondError,
    >)
        requires
            self.wf(),
        ensures
            is_unicast(self.contacts@, client_name@, response_bytes(response@), r),
    {
        let data = encode_response(&response);
        self.unicast(client_name, data)
    }

    /// A message with weights, addressed to one client.
    pub fn respond_weights_to_client(&self, client_name: String, response: WeightsResponse) -> (r:
        Result<Delivery, RespondError>)
        requires
            self.wf(),
            response.w_last.wf(),
        ensures
            is_unicast(
                self.contacts@,
                client_name@,
                weights_response_bytes(response@, response.w_last.order()),
                r,
            ),
    {
        let data = encode_weights_response(&response);
        self.unicast(client_name, data)
    }

    /// `data` addressed to the passive endpoint of every registered client.
    pub fn broadcast(&self, data: Vec<u8>) -> (b: Broadcast)
        requires
            self.wf(),
        ensures
            is_broadcast(self.contacts@, self.contacts.order(), data@, b),
    {
        let mut targets: Vec<(String, u16)> = Vec::new();
        let n = self.contacts.len();
        let mut i: usize = 0;
        while i < n
            invariant
                self.wf(),
                n == self.contacts.order().len(),
                i <= n,
                targets.len() == i,
                forall|j: int|
                    0 <= j < i ==> (#[trigger] targets[j]).0@
                        == self.contacts@[self.contacts.order()[j]].pasv_host && targets[j].1
                        == self.contacts@[self.contacts.order()[j]].pasv_port,
            decreases n - i,
        {
            let info = self.contacts.value_at(i);
            targets.push((info.pasv_host.clone(), info.pasv_port));
            i += 1;
        }
        Broadcast { targets, data }
    }

    /// A message with weights, addressed to the passive endpoint of every
    /// registered client. It is worked out for whatever the registry holds.
    pub fn respond_to_all_client(&self, response: WeightsResponse) -> (r: Result<
        Broadcast,
        RespondError,
    >)
        requires
            self.wf(),
            response.w_last.wf(),
        ensures
            match r {
                Ok(b) => is_broadcast(
                    self.contacts@,
                    self.contacts.order(),
                    weights_response_bytes(response@, response.w_last.order()),
                    b,
                ),
                Err(_) => false,
            },
    {
        let data = encode_weights_response(&response);
        Ok(self.broadcast(data))
    }
}

} // verus!
