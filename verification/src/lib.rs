//! Coordination core of a federated-learning aggregation service: the wire
//! format of its messages, the contact registry, the epoch state machine and
//! the two ingress filters, each with a machine-checked contract.

pub mod varint;
pub mod fields;
pub mod names;
pub mod name_map;
pub mod databank;
pub mod defl;
pub mod codec;
pub mod request_codec;
pub mod weights_codec;
pub mod round_trip;
pub mod epoch;
pub mod defl_sender;
pub mod ids;
pub mod node;
pub mod transaction_filter;
pub mod obsido;
pub mod parser;
