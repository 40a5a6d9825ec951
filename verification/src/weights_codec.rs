//! The layout of the message that carries the weights of a closed epoch.

use vstd::prelude::*;
use crate::codec::bits_int64;
use crate::codec::bytes_field;
use crate::codec::field_bytes_copy;
use crate::codec::field_string;
use crate::codec::field_varint;
use crate::codec::int64_bits;
use crate::codec::int64_from_bits;
use crate::codec::int64_to_bits;
use crate::codec::lemma_merge_none;
use crate::codec::make_bytes_field;
use crate::codec::make_string_field;
use crate::codec::merge_all;
use crate::codec::string_field;
use crate::codec::value_bytes;
use crate::codec::value_string;
use crate::codec::value_varint;
use crate::codec::varint_field;
use crate::defl::WeightsResponse;
use crate::defl::WeightsResponseView;
use crate::fields::fields_bytes;
use crate::fields::fields_view;
use crate::fields::parsed_fields;
use crate::fields::put_fields;
use crate::fields::read_fields;
use crate::fields::valid_number;
use crate::fields::Field;
use crate::fields::FieldView;
use crate::fields::Value;
use crate::name_map::NameMap;
use crate::round_trip::entry_fits;
use crate::round_trip::lemma_weights_response_round_trip;

verus! {

// ----- one client's weights -----

/// The fields of one client's weights.
pub open spec fn entry_fields(name: Seq<char>, blob: Seq<u8>) -> Seq<FieldView> {
    seq![string_field(1, name), bytes_field(2, blob)]
}

/// The bytes of one client's weights.
pub open spec fn entry_bytes(name: Seq<char>, blob: Seq<u8>) -> Seq<u8> {
    fields_bytes(entry_fields(name, blob))
}

/// `acc` with the field `f` merged in; `None` where `f` is refused.
pub open spec fn entry_merge(acc: (Seq<char>, Seq<u8>), f: FieldView) -> Option<
    (Seq<char>, Seq<u8>),
> {
    if f.number == 1 {
        match value_string(f.value) {
            Some(s) => Some((s, acc.1)),
            None => None,
        }
    } else if f.number == 2 {
        match value_bytes(f.value) {
            Some(b) => Some((acc.0, b)),
            None => None,
        }
    } else {
        Some(acc)
    }
}

/// `entry_merge` as a value.
pub open spec fn entry_step() -> spec_fn((Seq<char>, Seq<u8>), FieldView) -> Option<
    (Seq<char>, Seq<u8>),
> {
    |acc: (Seq<char>, Seq<u8>), f: FieldView| entry_merge(acc, f)
}

/// A client without a name and without weights.
pub open spec fn entry_default() -> (Seq<char>, Seq<u8>) {
    (Seq::empty(), Seq::empty())
}

/// The client and weights that `b` spells; `None` where `b` is malformed.
pub open spec fn decoded_entry(b: Seq<u8>) -> Option<(Seq<char>, Seq<u8>)> {
    match parsed_fields(b) {
        Some(fs) => merge_all(entry_default(), entry_step(), fs, fs.len()),
        None => None,
    }
}

fn encode_entry(name: &String, blob: &Vec<u8>) -> (out: Vec<u8>)
    ensures
        out@ == entry_bytes(name@, blob@),
        entry_fits(name@, blob@),
{
    let mut fs: Vec<Field> = Vec::new();
    fs.push(make_string_field(1, name));
    fs.push(make_bytes_field(2, blob));
    assert(fields_view(fs@) =~= entry_fields(name@, blob@));
    let mut out: Vec<u8> = Vec::new();
    put_fields(&mut out, &fs);
    assert(out@ =~= entry_bytes(name@, blob@));
    assert(out.len() <= usize::MAX && blob.len() <= usize::MAX);
    out
}

fn decode_entry(b: &[u8]) -> (r: Option<(String, Vec<u8>)>)
    ensures
        match r {
            Some((name, blob)) => decoded_entry(b@) == Some((name@, blob@)),
            None => decoded_entry(b@) is None,
        },
{
    let fs = match read_fields(b) {
        Some(fs) => fs,
        None => { return None; },
    };
    let ghost fv = fields_view(fs@);
    let mut name = String::new();
    let mut blob: Vec<u8> = Vec::new();
    let mut i: usize = 0;
    while i < fs.len()
        invariant
            i <= fs.len(),
            fv == fields_view(fs@),
            parsed_fields(b@) == Some(fv),
            merge_all(entry_default(), entry_step(), fv, i as nat) == Some((name@, blob@)),
        decreases fs.len() - i,
    {
        let f = &fs[i];
        assert(fv[i as int] == f@);
        let ghost before = (name@, blob@);
        let mut good = true;
        if f.number == 1 {
            match field_string(f) {
                Some(s) => { name = s; },
                None => { good = false; },
            }
        } else if f.number == 2 {
            match field_bytes_copy(f) {
                Some(w) => { blob = w; },
                None => { good = false; },
            }
        }
        if !good {
            proof {
                assert(entry_merge(before, f@) is None);
                assert(merge_all(entry_default(), entry_step(), fv, (i + 1) as nat) is None);
                lemma_merge_none(
                    entry_default(),
                    entry_step(),
                    fv,
                    (i + 1) as nat,
                    fs.len() as nat,
                );
            }
            return None;
        }
        assert(entry_merge(before, f@) == Some((name@, blob@)));
        i += 1;
    }
    Some((name, blob))
}

// ----- the message -----

/// One field for each client, in the order given.
pub open spec fn weights_fields(order: Seq<Seq<char>>, w: Map<Seq<char>, Seq<u8>>) -> Seq<
    FieldView,
> {
    Seq::new(order.len(), |i: int| bytes_field(4, entry_bytes(order[i], w[order[i]])))
}

/// The fields of the message that come before the weights.
pub open spec fn weights_response_head(m: WeightsResponseView) -> Seq<FieldView> {
    (match m.request_uuid {
        Some(u) => seq![string_field(1, u)],
        None => Seq::empty(),
    }) + seq![string_field(2, m.response_uuid), varint_field(3, int64_bits(m.r_last_epoch_id))]
}

/// The fields of the message, its clients written in `order`.
pub open spec fn weights_response_fields(m: WeightsResponseView, order: Seq<Seq<char>>) -> Seq<
    FieldView,
> {
    weights_response_head(m) + weights_fields(order, m.w_last)
}

/// The bytes of the message, its clients written in `order`.
pub open spec fn weights_response_bytes(m: WeightsResponseView, order: Seq<Seq<char>>) -> Seq<u8> {
    fields_bytes(weights_response_fields(m, order))
}

/// A message of which no field was read yet.
pub open spec fn weights_response_default() -> WeightsResponseView {
    WeightsResponseView {
        request_uuid: None,
        response_uuid: Seq::empty(),
        r_last_epoch_id: 0,
        w_last: Map::empty(),
    }
}

/// `acc` with the field `f` merged in; `None` where `f` is refused. The
/// weights of a client that comes twice are those that came last.
pub open spec fn weights_response_merge(acc: WeightsResponseView, f: FieldView) -> Option<
    WeightsResponseView,
> {
    if f.number == 1 {
        match value_string(f.value) {
            Some(s) => Some(WeightsResponseView { request_uuid: Some(s), ..acc }),
            None => None,
        }
    } else if f.number == 2 {
        match value_string(f.value) {
            Some(s) => Some(WeightsResponseView { response_uuid: s, ..acc }),
            None => None,
        }
    } else if f.number == 3 {
        match value_varint(f.value) {
            Some(v) => Some(WeightsResponseView { r_last_epoch_id: bits_int64(v), ..acc }),
            None => None,
        }
    } else if f.number == 4 {
        match value_bytes(f.value) {
            Some(b) => match decoded_entry(b) {
                Some((name, blob)) => Some(
                    WeightsResponseView { w_last: acc.w_last.insert(name, blob), ..acc },
                ),
                None => None,
            },
            None => None,
        }
    } else {
        Some(acc)
    }
}

/// `weights_response_merge` as a value.
pub open spec fn weights_response_step() -> spec_fn(WeightsResponseView, FieldView) -> Option<
    WeightsResponseView,
> {
    |acc: WeightsResponseView, f: FieldView| weights_response_merge(acc, f)
}

/// The message that `b` spells; `None` where `b` is malformed.
pub open spec fn decoded_weights_response(b: Seq<u8>) -> Option<WeightsResponseView> {
    match parsed_fields(b) {
        Some(fs) => merge_all(weights_response_default(), weights_response_step(), fs, fs.len()),
        None => None,
    }
}

/// Writes the message, its clients in the order of its map. What it
/// writes reads back as the message.
pub fn encode_weights_response(m: &WeightsResponse) -> (out: Vec<u8>)
    requires
        m.w_last.wf(),
    ensures
        out@ == weights_response_bytes(m@, m.w_last.order()),
        decoded_weights_response(out@) == Some(m@),
{
    let mut fs: Vec<Field> = Vec::new();
    match &m.request_uuid {
        Some(u) => { fs.push(make_string_field(1, u)); },
        None => {},
    }
    fs.push(make_string_field(2, &m.response_uuid));
    fs.push(Field { number: 3, value: Value::Varint(int64_to_bits(m.r_last_epoch_id)) });
    let ghost head = weights_response_head(m@);
    let ghost tail = weights_fields(m.w_last.order(), m.w_last@);
    assert(fields_view(fs@) =~= head);
    let n = m.w_last.len();
    let mut i: usize = 0;
    while i < n
        invariant
            i <= n,
            n == m.w_last.order().len(),
            m.w_last.wf(),
            head == weights_response_head(m@),
            tail == weights_fields(m.w_last.order(), m.w_last@),
            fields_view(fs@) =~= head + tail.take(i as int),
            forall|j: int| 0 <= j < fs.len() ==> valid_number(#[trigger] fs[j].number),
            forall|j: int|
                0 <= j < i ==> entry_fits(
                    #[trigger] m.w_last.order()[j],
                    m.w_last@[m.w_last.order()[j]],
                ),
        decreases n - i,
    {
        let inner = encode_entry(m.w_last.name_at(i), m.w_last.value_at(i));
        let ghost before = fields_view(fs@);
        fs.push(Field { number: 4, value: Value::Bytes(inner) });
        proof {
            assert(fields_view(fs@) =~= before.push(tail[i as int]));
            assert(tail.take(i + 1) =~= tail.take(i as int).push(tail[i as int]));
        }
        i += 1;
    }
    assert(tail.take(n as int) =~= tail);
    let mut out: Vec<u8> = Vec::new();
    put_fields(&mut out, &fs);
    assert(out@ =~= weights_response_bytes(m@, m.w_last.order()));
    proof {
        m.w_last.lemma_order();
        lemma_weights_response_round_trip(m@, m.w_last.order());
    }
    out
}

/// Reads the message.
pub fn decode_weights_response(b: &[u8]) -> (r: Option<WeightsResponse>)
    ensures
        match r {
            Some(m) => decoded_weights_response(b@) == Some(m@) && m.w_last.wf(),
            None => decoded_weights_response(b@) is None,
        },
{
    let fs = match read_fields(b) {
        Some(fs) => fs,
        None => { return None; },
    };
    let ghost fv = fields_view(fs@);
    let mut acc = WeightsResponse {
        request_uuid: None,
        response_uuid: String::new(),
        r_last_epoch_id: 0,
        w_last: NameMap::new(),
    };
    let mut i: usize = 0;
    while i < fs.len()
        invariant
            i <= fs.len(),
            fv == fields_view(fs@),
            parsed_fields(b@) == Some(fv),
            acc.w_last.wf(),
            merge_all(weights_response_default(), weights_response_step(), fv, i as nat) == Some(
                acc@,
            ),
        decreases fs.len() - i,
    {
        let f = &fs[i];
        assert(fv[i as int] == f@);
        let ghost before = acc@;
        let mut good = true;
        if f.number == 1 {
            match field_string(f) {
                Some(s) => { acc.request_uuid = Some(s); },
                None => { good = false; },
            }
        } else if f.number == 2 {
            match field_string(f) {
                Some(s) => { acc.response_uuid = s; },
                None => { good = false; },
            }
        } else if f.number == 3 {
            match field_varint(f) {
                Some(v) => { acc.r_last_epoch_id = int64_from_bits(v); },
                None => { good = false; },
            }
        } else if f.number == 4 {
            match field_bytes_copy(f) {
                Some(inner) => match decode_entry(inner.as_slice()) {
                    Some((name, blob)) => { acc.w_last.insert(name, blob); },
                    None => { good = false; },
                },
                None => { good = false; },
            }
        }
        if !good {
            proof {
                assert(weights_response_merge(before, f@) is None);
                assert(merge_all(
                    weights_response_default(),
                    weights_response_step(),
                    fv,
                    (i + 1) as nat,
                ) is None);
                lemma_merge_none(
                    weights_response_default(),
                    weights_response_step(),
                    fv,
                    (i + 1) as nat,
                    fs.len() as nat,
                );
            }
            return None;
        }
        assert(weights_response_merge(before, f@) == Some(acc@));
        i += 1;
    }
    Some(acc)
}

} // verus!
