//! The data of one epoch, and where to reach a client.

use vstd::prelude::*;
use crate::name_map::Duplicate;
use crate::name_map::NameMap;

verus! {

/// The two endpoints of a client: replies to its own requests go to the
/// active one, notices sent to every client go to the passive one.
#[derive(Debug, PartialEq)]
pub struct SimpleRegisterInfo {
    pub host: String,
    pub port: u16,
    pub pasv_host: String,
    pub pasv_port: u16,
}

/// A client's endpoints as plain values.
pub struct RegisterInfoView {
    pub host: Seq<char>,
    pub port: u16,
    pub pasv_host: Seq<char>,
    pub pasv_port: u16,
}

impl View for SimpleRegisterInfo {
    type V = RegisterInfoView;

    open spec fn view(&self) -> RegisterInfoView {
        RegisterInfoView {
            host: self.host@,
            port: self.port,
            pasv_host: self.pasv_host@,
            pasv_port: self.pasv_port,
        }
    }
}

impl Clone for SimpleRegisterInfo {
    fn clone(&self) -> (r: Self)
        ensures
            r@ == self@,
    {
        SimpleRegisterInfo {
            host: self.host.clone(),
            port: self.port,
            pasv_host: self.pasv_host.clone(),
            pasv_port: self.pasv_port,
        }
    }
}

impl Duplicate for SimpleRegisterInfo {
    fn duplicate(&self) -> (r: Self) {
        self.clone()
    }
}

/// The weights that clients handed in, by client name. The bytes are never
/// looked into.
pub type ClientWeightsType = NameMap<Vec<u8>>;

/// The weights handed in during one epoch.
#[derive(Debug, Clone)]
pub struct DeflDatabank {
    pub client_weights: ClientWeightsType,
    pub epoch_id: i64,
}

/// A databank as plain values.
pub struct DatabankView {
    pub client_weights: Map<Seq<char>, Seq<u8>>,
    pub epoch_id: i64,
}

impl View for DeflDatabank {
    type V = DatabankView;

    open spec fn view(&self) -> DatabankView {
        DatabankView { client_weights: self.client_weights@, epoch_id: self.epoch_id }
    }
}

impl DeflDatabank {
    pub open spec fn wf(&self) -> bool {
        self.client_weights.wf()
    }

    /// An empty databank for the epoch `init_epoch_id`.
    pub fn new(init_epoch_id: i64) -> (r: DeflDatabank)
        ensures
            r.wf(),
            r.epoch_id == init_epoch_id,
            r.client_weights@ == Map::<Seq<char>, Seq<u8>>::empty(),
            r.client_weights.order() == Seq::<Seq<char>>::empty(),
    {
        DeflDatabank { client_weights: NameMap::new(), epoch_id: init_epoch_id }
    }

    /// A copy of the databank.
    pub fn snapshot(&self) -> (r: DeflDatabank)
        requires
            self.wf(),
        ensures
            r.wf(),
            r@ == self@,
            r.client_weights.order() == self.client_weights.order(),
    {
        DeflDatabank { client_weights: self.client_weights.snapshot(), epoch_id: self.epoch_id }
    }
}

} // verus!
