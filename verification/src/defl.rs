//! The messages that clients and nodes exchange.

use vstd::prelude::*;
use crate::databank::ClientWeightsType;
use crate::databank::RegisterInfoView;
use crate::databank::SimpleRegisterInfo;

verus! {

/// What a client asks for.
#[derive(Debug, Clone, Copy, PartialEq, Eq, Structural)]
pub enum Method {
    UpdWeights,
    NewEpochVote,
    FetchWLast,
    ClientRegister,
}

impl Method {
    pub open spec fn spec_from_i32(value: i32) -> Option<Method> {
        if value == 0 {
            Some(Method::UpdWeights)
        } else if value == 1 {
            Some(Method::NewEpochVote)
        } else if value == 2 {
            Some(Method::FetchWLast)
        } else if value == 3 {
            Some(Method::ClientRegister)
        } else {
            None
        }
    }

    pub open spec fn spec_as_i32(self) -> i32 {
        match self {
            Method::UpdWeights => 0,
            Method::NewEpochVote => 1,
            Method::FetchWLast => 2,
            Method::ClientRegister => 3,
        }
    }

    /// The method with the wire value `value`, if there is one.
    pub fn from_i32(value: i32) -> (r: Option<Method>)
        ensures
            r == Method::spec_from_i32(value),
    {
        if value == 0 {
            Some(Method::UpdWeights)
        } else if value == 1 {
            Some(Method::NewEpochVote)
        } else if value == 2 {
            Some(Method::FetchWLast)
        } else if value == 3 {
            Some(Method::ClientRegister)
        } else {
            None
        }
    }

    /// The wire value of the method.
    pub fn as_i32(self) -> (r: i32)
        ensures
            r == self.spec_as_i32(),
            Method::spec_from_i32(r) == Some(self),
    {
        match self {
            Method::UpdWeights => 0,
            Method::NewEpochVote => 1,
            Method::FetchWLast => 2,
            Method::ClientRegister => 3,
        }
    }
}

/// What a request to the second ingress asks for.
#[derive(Debug, Clone, Copy, PartialEq, Eq, Structural)]
pub enum ObsidoMethod {
    FetchWLast,
    ClientRegister,
}

impl ObsidoMethod {
    pub open spec fn spec_from_i32(value: i32) -> Option<ObsidoMethod> {
        if value == 0 {
            Some(ObsidoMethod::FetchWLast)
        } else if value == 1 {
            Some(ObsidoMethod::ClientRegister)
        } else {
            None
        }
    }

    pub open spec fn spec_as_i32(self) -> i32 {
        match self {
            ObsidoMethod::FetchWLast => 0,
            ObsidoMethod::ClientRegister => 1,
        }
    }

    /// The method with the wire value `value`, if there is one.
    pub fn from_i32(value: i32) -> (r: Option<ObsidoMethod>)
        ensures
            r == ObsidoMethod::spec_from_i32(value),
    {
        if value == 0 {
            Some(ObsidoMethod::FetchWLast)
        } else if value == 1 {
            Some(ObsidoMethod::ClientRegister)
        } else {
            None
        }
    }

    /// The wire value of the method.
    pub fn as_i32(self) -> (r: i32)
        ensures
            r == self.spec_as_i32(),
            ObsidoMethod::spec_from_i32(r) == Some(self),
    {
        match self {
            ObsidoMethod::FetchWLast => 0,
            ObsidoMethod::ClientRegister => 1,
        }
    }
}

/// How a request ended.
#[derive(Debug, Clone, Copy, PartialEq, Eq, Structural)]
pub enum Status {
    Okay,
    NotMeetQuorumWait,
    ClientAlreadyVotedError,
    UwTargetEpochIdError,
    NevTargetEpochIdError,
    NoWeightsInRequestError,
    ServerInternalError,
}

impl Status {
    pub open spec fn spec_as_i32(self) -> i32 {
        match self {
            Status::Okay => 0,
            Status::NotMeetQuorumWait => 1,
            Status::ClientAlreadyVotedError => 2,
            Status::UwTargetEpochIdError => 3,
            Status::NevTargetEpochIdError => 4,
            Status::NoWeightsInRequestError => 5,
            Status::ServerInternalError => 6,
        }
    }

    pub open spec fn spec_from_i32(value: i32) -> Option<Status> {
        if value == 0 {
            Some(Status::Okay)
        } else if value == 1 {
            Some(Status::NotMeetQuorumWait)
        } else if value == 2 {
            Some(Status::ClientAlreadyVotedError)
        } else if value == 3 {
            Some(Status::UwTargetEpochIdError)
        } else if value == 4 {
            Some(Status::NevTargetEpochIdError)
        } else if value == 5 {
            Some(Status::NoWeightsInRequestError)
        } else if value == 6 {
            Some(Status::ServerInternalError)
        } else {
            None
        }
    }

    /// The wire value of the status.
    pub fn as_i32(self) -> (r: i32)
        ensures
            r == self.spec_as_i32(),
            Status::spec_from_i32(r) == Some(self),
    {
        match self {
            Status::Okay => 0,
            Status::NotMeetQuorumWait => 1,
            Status::ClientAlreadyVotedError => 2,
            Status::UwTargetEpochIdError => 3,
            Status::NevTargetEpochIdError => 4,
            Status::NoWeightsInRequestError => 5,
            Status::ServerInternalError => 6,
        }
    }

    /// The status with the wire value `value`, if there is one.
    pub fn from_i32(value: i32) -> (r: Option<Status>)
        ensures
            r == Status::spec_from_i32(value),
    {
        if value == 0 {
            Some(Status::Okay)
        } else if value == 1 {
            Some(Status::NotMeetQuorumWait)
        } else if value == 2 {
            Some(Status::ClientAlreadyVotedError)
        } else if value == 3 {
            Some(Status::UwTargetEpochIdError)
        } else if value == 4 {
            Some(Status::NevTargetEpochIdError)
        } else if value == 5 {
            Some(Status::NoWeightsInRequestError)
        } else if value == 6 {
            Some(Status::ServerInternalError)
        } else {
            None
        }
    }
}

/// A request of a client to the node.
#[derive(Debug)]
pub struct ClientRequest {
    pub method: i32,
    pub request_uuid: String,
    pub client_name: String,
    pub target_epoch_id: i64,
    pub weights: Option<Vec<u8>>,
    pub register_info: Option<SimpleRegisterInfo>,
}

/// A request as plain values.
pub struct ClientRequestView {
    pub method: i32,
    pub request_uuid: Seq<char>,
    pub client_name: Seq<char>,
    pub target_epoch_id: i64,
    pub weights: Option<Seq<u8>>,
    pub register_info: Option<RegisterInfoView>,
}

impl View for ClientRequest {
    type V = ClientRequestView;

    open spec fn view(&self) -> ClientRequestView {
        ClientRequestView {
            method: self.method,
            request_uuid: self.request_uuid@,
            client_name: self.client_name@,
            target_epoch_id: self.target_epoch_id,
            weights: match self.weights {
                Some(w) => Some(w@),
                None => None,
            },
            register_info: match self.register_info {
                Some(r) => Some(r@),
                None => None,
            },
        }
    }
}

/// The reply to one request, sent to the client's active endpoint.
#[derive(Debug)]
pub struct Response {
    pub stat: i32,
    pub request_uuid: String,
    pub response_uuid: String,
}

/// A reply as plain values.
pub struct ResponseView {
    pub stat: i32,
    pub request_uuid: Seq<char>,
    pub response_uuid: Seq<char>,
}

impl View for Response {
    type V = ResponseView;

    open spec fn view(&self) -> ResponseView {
        ResponseView {
            stat: self.stat,
            request_uuid: self.request_uuid@,
            response_uuid: self.response_uuid@,
        }
    }
}

/// The weights of the epoch that closed last.
#[derive(Debug)]
pub struct WeightsResponse {
    pub request_uuid: Option<String>,
    pub response_uuid: String,
    pub r_last_epoch_id: i64,
    pub w_last: ClientWeightsType,
}

/// A message with weights as plain values.
pub struct WeightsResponseView {
    pub request_uuid: Option<Seq<char>>,
    pub response_uuid: Seq<char>,
    pub r_last_epoch_id: i64,
    pub w_last: Map<Seq<char>, Seq<u8>>,
}

impl View for WeightsResponse {
    type V = WeightsResponseView;

    open spec fn view(&self) -> WeightsResponseView {
        WeightsResponseView {
            request_uuid: match self.request_uuid {
                Some(u) => Some(u@),
                None => None,
            },
            response_uuid: self.response_uuid@,
            r_last_epoch_id: self.r_last_epoch_id,
            w_last: self.w_last@,
        }
    }
}

/// A request to the second ingress.
#[derive(Debug)]
pub struct ObsidoRequest {
    pub method: i32,
    pub request_uuid: String,
    pub client_name: String,
    pub register_info: Option<SimpleRegisterInfo>,
}

/// A request to the second ingress as plain values.
pub struct ObsidoRequestView {
    pub method: i32,
    pub request_uuid: Seq<char>,
    pub client_name: Seq<char>,
    pub register_info: Option<RegisterInfoView>,
}

impl View for ObsidoRequest {
    type V = ObsidoRequestView;

    open spec fn view(&self) -> ObsidoRequestView {
        ObsidoRequestView {
            method: self.method,
            request_uuid: self.request_uuid@,
            client_name: self.client_name@,
            register_info: match self.register_info {
                Some(r) => Some(r@),
                None => None,
            },
        }
    }
}

} // verus!
