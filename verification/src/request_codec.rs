//! The layout of the two kinds of request.

use vstd::prelude::*;
use crate::codec::bits_int32;
use crate::codec::bits_int64;
use crate::codec::bytes_field;
use crate::codec::decode_register_info;
use crate::codec::decoded_register_info;
use crate::codec::encode_register_info;
use crate::codec::field_bytes_copy;
use crate::codec::field_string;
use crate::codec::field_varint;
use crate::codec::int32_from_bits;
use crate::codec::int64_bits;
use crate::codec::int64_from_bits;
use crate::codec::int64_to_bits;
use crate::codec::lemma_merge_none;
use crate::codec::make_bytes_field;
use crate::codec::make_string_field;
use crate::codec::merge_all;
use crate::codec::register_info_bytes;
use crate::codec::string_field;
use crate::codec::value_bytes;
use crate::codec::value_string;
use crate::codec::value_varint;
use crate::codec::varint_field;
use crate::databank::RegisterInfoView;
use crate::defl::ClientRequest;
use crate::defl::ClientRequestView;
use crate::defl::ObsidoRequest;
use crate::defl::ObsidoRequestView;
use crate::fields::fields_bytes;
use crate::round_trip::lemma_client_request_round_trip;
use crate::round_trip::lemma_obsido_request_round_trip;
use crate::fields::fields_view;
use crate::fields::parsed_fields;
use crate::fields::put_fields;
use crate::fields::read_fields;
use crate::fields::Field;
use crate::fields::FieldView;
use crate::fields::Value;

verus! {

/// The field that carries a client's endpoints, where they are given.
pub open spec fn register_info_field(number: u32, r: Option<RegisterInfoView>) -> Seq<FieldView> {
    match r {
        Some(info) => seq![bytes_field(number, register_info_bytes(info))],
        None => Seq::empty(),
    }
}

/// The endpoints that the field `f` carries; `None` where it carries none.
pub open spec fn merged_register_info(f: FieldView) -> Option<RegisterInfoView> {
    match value_bytes(f.value) {
        Some(b) => decoded_register_info(b),
        None => None,
    }
}

fn field_register_info(f: &Field) -> (r: Option<crate::databank::SimpleRegisterInfo>)
    ensures
        match r {
            Some(info) => merged_register_info(f@) == Some(info@),
            None => merged_register_info(f@) is None,
        },
{
    match field_bytes_copy(f) {
        Some(b) => decode_register_info(b.as_slice()),
        None => None,
    }
}

// ----- requests to the node -----

/// The fields of a request.
pub open spec fn client_request_fields(m: ClientRequestView) -> Seq<FieldView> {
    seq![
        varint_field(1, int64_bits(m.method as i64)),
        string_field(2, m.request_uuid),
        string_field(3, m.client_name),
        varint_field(4, int64_bits(m.target_epoch_id)),
    ] + (match m.weights {
        Some(w) => seq![bytes_field(5, w)],
        None => Seq::empty(),
    }) + register_info_field(6, m.register_info)
}

/// The bytes of a request.
pub open spec fn client_request_bytes(m: ClientRequestView) -> Seq<u8> {
    fields_bytes(client_request_fields(m))
}

/// A request of which no field was read yet.
pub open spec fn client_request_default() -> ClientRequestView {
    ClientRequestView {
        method: 0,
        request_uuid: Seq::empty(),
        client_name: Seq::empty(),
        target_epoch_id: 0,
        weights: None,
        register_info: None,
    }
}

/// `acc` with the field `f` merged in; `None` where `f` is refused.
pub open spec fn client_request_merge(acc: ClientRequestView, f: FieldView) -> Option<
    ClientRequestView,
> {
    if f.number == 1 {
        match value_varint(f.value) {
            Some(v) => Some(ClientRequestView { method: bits_int32(v), ..acc }),
            None => None,
        }
    } else if f.number == 2 {
        match value_string(f.value) {
            Some(s) => Some(ClientRequestView { request_uuid: s, ..acc }),
            None => None,
        }
    } else if f.number == 3 {
        match value_string(f.value) {
            Some(s) => Some(ClientRequestView { client_name: s, ..acc }),
            None => None,
        }
    } else if f.number == 4 {
        match value_varint(f.value) {
            Some(v) => Some(ClientRequestView { target_epoch_id: bits_int64(v), ..acc }),
            None => None,
        }
    } else if f.number == 5 {
        match value_bytes(f.value) {
            Some(b) => Some(ClientRequestView { weights: Some(b), ..acc }),
            None => None,
        }
    } else if f.number == 6 {
        match merged_register_info(f) {
            Some(r) => Some(ClientRequestView { register_info: Some(r), ..acc }),
            None => None,
        }
    } else {
        Some(acc)
    }
}

/// `client_request_merge` as a value.
pub open spec fn client_request_step() -> spec_fn(ClientRequestView, FieldView) -> Option<
    ClientRequestView,
> {
    |acc: ClientRequestView, f: FieldView| client_request_merge(acc, f)
}

/// The request that `b` spells; `None` where `b` is malformed.
pub open spec fn decoded_client_request(b: Seq<u8>) -> Option<ClientRequestView> {
    match parsed_fields(b) {
        Some(fs) => merge_all(client_request_default(), client_request_step(), fs, fs.len()),
        None => None,
    }
}

/// Writes a request. What it writes reads back as the request.
pub fn encode_client_request(m: &ClientRequest) -> (out: Vec<u8>)
    ensures
        out@ == client_request_bytes(m@),
        decoded_client_request(out@) == Some(m@),
{
    let mut fs: Vec<Field> = Vec::new();
    fs.push(Field { number: 1, value: Value::Varint(int64_to_bits(m.method as i64)) });
    fs.push(make_string_field(2, &m.request_uuid));
    fs.push(make_string_field(3, &m.client_name));
    fs.push(Field { number: 4, value: Value::Varint(int64_to_bits(m.target_epoch_id)) });
    match &m.weights {
        Some(w) => {
            assert(w.len() <= usize::MAX);
            fs.push(make_bytes_field(5, w));
        },
        None => {},
    }
    match &m.register_info {
        Some(r) => {
            let inner = encode_register_info(r);
            fs.push(Field { number: 6, value: Value::Bytes(inner) });
        },
        None => {},
    }
    assert(fields_view(fs@) =~= client_request_fields(m@));
    let mut out: Vec<u8> = Vec::new();
    put_fields(&mut out, &fs);
    assert(out@ =~= client_request_bytes(m@));
    proof {
        lemma_client_request_round_trip(m@);
    }
    out
}

/// Reads a request.
pub fn decode_client_request(b: &[u8]) -> (r: Option<ClientRequest>)
    ensures
        match r {
            Some(m) => decoded_client_request(b@) == Some(m@),
            None => decoded_client_request(b@) is None,
        },
{
    let fs = match read_fields(b) {
        Some(fs) => fs,
        None => { return None; },
    };
    let ghost fv = fields_view(fs@);
    let mut acc = ClientRequest {
        method: 0,
        request_uuid: String::new(),
        client_name: String::new(),
        target_epoch_id: 0,
        weights: None,
        register_info: None,
    };
    let mut i: usize = 0;
    while i < fs.len()
        invariant
            i <= fs.len(),
            fv == fields_view(fs@),
            parsed_fields(b@) == Some(fv),
            merge_all(client_request_default(), client_request_step(), fv, i as nat) == Some(acc@),
        decreases fs.len() - i,
    {
        let f = &fs[i];
        assert(fv[i as int] == f@);
        let ghost before = acc@;
        let mut good = true;
        if f.number == 1 {
            match field_varint(f) {
                Some(v) => { acc.method = int32_from_bits(v); },
                None => { good = false; },
            }
        } else if f.number == 2 {
            match field_string(f) {
                Some(s) => { acc.request_uuid = s; },
                None => { good = false; },
            }
        } else if f.number == 3 {
            match field_string(f) {
                Some(s) => { acc.client_name = s; },
                None => { good = false; },
            }
        } else if f.number == 4 {
            match field_varint(f) {
                Some(v) => { acc.target_epoch_id = int64_from_bits(v); },
                None => { good = false; },
            }
        } else if f.number == 5 {
            match field_bytes_copy(f) {
                Some(w) => { acc.weights = Some(w); },
                None => { good = false; },
            }
        } else if f.number == 6 {
            match field_register_info(f) {
                Some(r) => { acc.register_info = Some(r); },
                None => { good = false; },
            }
        }
        if !good {
            proof {
                assert(client_request_merge(before, f@) is None);
                assert(merge_all(client_request_default(), client_request_step(), fv, (i + 1) as nat)
                    is None);
                lemma_merge_none(
                    client_request_default(),
                    client_request_step(),
                    fv,
                    (i + 1) as nat,
                    fs.len() as nat,
                );
            }
            return None;
        }
        assert(client_request_merge(before, f@) == Some(acc@));
        i += 1;
    }
    Some(acc)
}

// ----- requests to the second ingress -----

/// The fields of a request to the second ingress.
pub open spec fn obsido_request_fields(m: ObsidoRequestView) -> Seq<FieldView> {
    seq![
        varint_field(1, int64_bits(m.method as i64)),
        string_field(2, m.request_uuid),
        string_field(3, m.client_name),
    ] + register_info_field(4, m.register_info)
}

/// The bytes of a request to the second ingress.
pub open spec fn obsido_request_bytes(m: ObsidoRequestView) -> Seq<u8> {
    fields_bytes(obsido_request_fields(m))
}

/// A request of which no field was read yet.
pub open spec fn obsido_request_default() -> ObsidoRequestView {
    ObsidoRequestView {
        method: 0,
        request_uuid: Seq::empty(),
        client_name: Seq::empty(),
        register_info: None,
    }
}

/// `acc` with the field `f` merged in; `None` where `f` is refused.
pub open spec fn obsido_request_merge(acc: ObsidoRequestView, f: FieldView) -> Option<
    ObsidoRequestView,
> {
    if f.number == 1 {
        match value_varint(f.value) {
            Some(v) => Some(ObsidoRequestView { method: bits_int32(v), ..acc }),
            None => None,
        }
    } else if f.number == 2 {
        match value_string(f.value) {
            Some(s) => Some(ObsidoRequestView { request_uuid: s, ..acc }),
            None => None,
        }
    } else if f.number == 3 {
        match value_string(f.value) {
            Some(s) => Some(ObsidoRequestView { client_name: s, ..acc }),
            None => None,
        }
    } else if f.number == 4 {
        match merged_register_info(f) {
            Some(r) => Some(ObsidoRequestView { register_info: Some(r), ..acc }),
            None => None,
        }
    } else {
        Some(acc)
    }
}

/// `obsido_request_merge` as a value.
pub open spec fn obsido_request_step() -> spec_fn(ObsidoRequestView, FieldView) -> Option<
    ObsidoRequestView,
> {
    |acc: ObsidoRequestView, f: FieldView| obsido_request_merge(acc, f)
}

/// The request that `b` spells; `None` where `b` is malformed.
pub open spec fn decoded_obsido_request(b: Seq<u8>) -> Option<ObsidoRequestView> {
    match parsed_fields(b) {
        Some(fs) => merge_all(obsido_request_default(), obsido_request_step(), fs, fs.len()),
        None => None,
    }
}

/// Writes a request to the second ingress. What it writes reads back as
/// the request.
pub fn encode_obsido_request(m: &ObsidoRequest) -> (out: Vec<u8>)
    ensures
        out@ == obsido_request_bytes(m@),
        decoded_obsido_request(out@) == Some(m@),
{
    let mut fs: Vec<Field> = Vec::new();
    fs.push(Field { number: 1, value: Value::Varint(int64_to_bits(m.method as i64)) });
    fs.push(make_string_field(2, &m.request_uuid));
    fs.push(make_string_field(3, &m.client_name));
    match &m.register_info {
        Some(r) => {
            let inner = encode_register_info(r);
            fs.push(Field { number: 4, value: Value::Bytes(inner) });
        },
        None => {},
    }
    assert(fields_view(fs@) =~= obsido_request_fields(m@));
    let mut out: Vec<u8> = Vec::new();
    put_fields(&mut out, &fs);
    assert(out@ =~= obsido_request_bytes(m@));
    proof {
        lemma_obsido_request_round_trip(m@);
    }
    out
}

/// Reads a request to the second ingress.
pub fn decode_obsido_request(b: &[u8]) -> (r: Option<ObsidoRequest>)
    ensures
        match r {
            Some(m) => decoded_obsido_request(b@) == Some(m@),
            None => decoded_obsido_request(b@) is None,
        },
{
    let fs = match read_fields(b) {
        Some(fs) => fs,
        None => { return None; },
    };
    let ghost fv = fields_view(fs@);
    let mut acc = ObsidoRequest {
        method: 0,
        request_uuid: String::new(),
        client_name: String::new(),
        register_info: None,
    };
    let mut i: usize = 0;
    while i < fs.len()
        invariant
            i <= fs.len(),
            fv == fields_view(fs@),
            parsed_fields(b@) == Some(fv),
            merge_all(obsido_request_default(), obsido_request_step(), fv, i as nat) == Some(acc@),
        decreases fs.len() - i,
    {
        let f = &fs[i];
        assert(fv[i as int] == f@);
        let ghost before = acc@;
        let mut good = true;
        if f.number == 1 {
            match field_varint(f) {
                Some(v) => { acc.method = int32_from_bits(v); },
                None => { good = false; },
            }
        } else if f.number == 2 {
            match field_string(f) {
                Some(s) => { acc.request_uuid = s; },
                None => { good = false; },
            }
        } else if f.number == 3 {
            match field_string(f) {
                Some(s) => { acc.client_name = s; },
                None => { good = false; },
            }
        } else if f.number == 4 {
            match field_register_info(f) {
                Some(r) => { acc.register_info = Some(r); },
                None => { good = false; },
            }
        }
        if !good {
            proof {
                assert(obsido_request_merge(before, f@) is None);
                assert(merge_all(obsido_request_default(), obsido_request_step(), fv, (i + 1) as nat)
                    is None);
                lemma_merge_none(
                    obsido_request_default(),
                    obsido_request_step(),
                    fv,
                    (i + 1) as nat,
                    fs.len() as nat,
                );
            }
            return None;
        }
        assert(obsido_request_merge(before, f@) == Some(acc@));
        i += 1;
    }
    Some(acc)
}

} // verus!
