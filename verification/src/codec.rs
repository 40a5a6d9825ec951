//! How each message is laid out in fields, and back.
//!
//! Writing puts every field of a message, in the order of its numbers, and an
//! optional field only where it is set. Reading takes the fields in any
//! order, lets a later value replace an earlier one and passes over numbers
//! the message does not have; a known number with the wrong kind of value, or
//! text that is not UTF-8, makes the message malformed.

use vstd::prelude::*;
use vstd::slice::slice_to_vec;
use vstd::utf8::decode_utf8;
use vstd::utf8::encode_utf8;
use vstd::utf8::valid_utf8;
use crate::databank::RegisterInfoView;
use crate::databank::SimpleRegisterInfo;
use crate::defl::Response;
use crate::defl::ResponseView;
use crate::fields::fields_bytes;
use crate::fields::fields_view;
use crate::fields::parsed_fields;
use crate::fields::put_fields;
use crate::fields::read_fields;
use crate::fields::Field;
use crate::fields::FieldView;
use crate::fields::Value;
use crate::fields::ValueView;
use crate::round_trip::lemma_register_info_round_trip;
use crate::round_trip::lemma_response_round_trip;
use crate::round_trip::register_info_fits;

verus! {

// ----- scalars -----

/// A signed 64-bit integer as the unsigned one with the same bits.
pub open spec fn int64_bits(v: i64) -> u64 {
    if v >= 0 {
        v as u64
    } else {
        (v + 0x1_0000_0000_0000_0000) as u64
    }
}

/// The signed 64-bit integer with the bits of `u`.
pub open spec fn bits_int64(u: u64) -> i64 {
    if u <= 0x7FFF_FFFF_FFFF_FFFF {
        u as i64
    } else {
        (u - 0x1_0000_0000_0000_0000) as i64
    }
}

/// The low 32 bits of `u`, read as a signed integer.
pub open spec fn bits_int32(u: u64) -> i32 {
    if u % 0x1_0000_0000 < 0x8000_0000 {
        (u % 0x1_0000_0000) as i32
    } else {
        (u % 0x1_0000_0000 - 0x1_0000_0000) as i32
    }
}

/// The low 16 bits of `u`.
pub open spec fn bits_port(u: u64) -> u16 {
    (u % 0x1_0000) as u16
}

/// The bits of `v`, as they go on the wire.
pub fn int64_to_bits(v: i64) -> (r: u64)
    ensures
        r == int64_bits(v),
        bits_int64(r) == v,
{
    if v >= 0 {
        v as u64
    } else {
        u64::MAX - ((-(v + 1)) as u64)
    }
}

/// The signed 64-bit integer with the bits of `u`.
pub fn int64_from_bits(u: u64) -> (r: i64)
    ensures
        r == bits_int64(u),
{
    if u <= 0x7FFF_FFFF_FFFF_FFFF {
        u as i64
    } else {
        -((u64::MAX - u) as i64) - 1
    }
}

/// The low 32 bits of `u`, read as a signed integer.
pub fn int32_from_bits(u: u64) -> (r: i32)
    ensures
        r == bits_int32(u),
{
    let low: u64 = u % 0x1_0000_0000;
    if low < 0x8000_0000 {
        low as i32
    } else {
        (low as i64 - 0x1_0000_0000) as i32
    }
}

/// The low 16 bits of `u`.
pub fn port_from_bits(u: u64) -> (r: u16)
    ensures
        r == bits_port(u),
{
    (u % 0x1_0000) as u16
}

/// A 32-bit integer, widened and written, reads back as it was.
pub proof fn lemma_int32_round_trip(v: i32)
    ensures
        bits_int32(int64_bits(v as i64)) == v,
{
    let u = int64_bits(v as i64);
    if v >= 0 {
        assert(u == v);
    } else {
        assert(u == v + 0x1_0000_0000_0000_0000);
        assert(u == 0xFFFF_FFFF * 0x1_0000_0000 + (v + 0x1_0000_0000));
        assert(u % 0x1_0000_0000 == v + 0x1_0000_0000);
    }
}

/// `String::from_utf8` of std: the text that the bytes spell where they are
/// UTF-8, and nothing where they are not.
#[verifier::external_body]
fn string_from_utf8(bytes: Vec<u8>) -> (r: Option<String>)
    ensures
        match r {
            Some(s) => valid_utf8(bytes@) && s@ == decode_utf8(bytes@),
            None => !valid_utf8(bytes@),
        },
{
    String::from_utf8(bytes).ok()
}

// ----- single fields -----

/// The field `number` with the integer `v`.
pub open spec fn varint_field(number: u32, v: u64) -> FieldView {
    FieldView { number, value: ValueView::Varint(v) }
}

/// The field `number` with the bytes `b`.
pub open spec fn bytes_field(number: u32, b: Seq<u8>) -> FieldView {
    FieldView { number, value: ValueView::Bytes(b) }
}

/// The field `number` with the text `s`, in UTF-8.
pub open spec fn string_field(number: u32, s: Seq<char>) -> FieldView {
    bytes_field(number, encode_utf8(s))
}

/// The bytes of the text can be counted in 64 bits.
pub open spec fn text_fits(s: Seq<char>) -> bool {
    encode_utf8(s).len() <= u64::MAX
}

/// The integer of a value, if it is one.
pub open spec fn value_varint(v: ValueView) -> Option<u64> {
    match v {
        ValueView::Varint(x) => Some(x),
        ValueView::Bytes(_) => None,
    }
}

/// The bytes of a value, if it holds bytes.
pub open spec fn value_bytes(v: ValueView) -> Option<Seq<u8>> {
    match v {
        ValueView::Varint(_) => None,
        ValueView::Bytes(b) => Some(b),
    }
}

/// The text of a value, if it holds bytes that are UTF-8.
pub open spec fn value_string(v: ValueView) -> Option<Seq<char>> {
    match v {
        ValueView::Varint(_) => None,
        ValueView::Bytes(b) => if valid_utf8(b) {
            Some(decode_utf8(b))
        } else {
            None
        },
    }
}

/// The field `number` with the text `s`.
pub fn make_string_field(number: u32, s: &String) -> (f: Field)
    ensures
        f@ == string_field(number, s@),
        text_fits(s@),
{
    let bytes = slice_to_vec(s.as_str().as_bytes());
    assert(bytes.len() <= usize::MAX);
    Field { number, value: Value::Bytes(bytes) }
}

/// The field `number` with a copy of `b`.
pub fn make_bytes_field(number: u32, b: &Vec<u8>) -> (f: Field)
    ensures
        f@ == bytes_field(number, b@),
{
    Field { number, value: Value::Bytes(slice_to_vec(b.as_slice())) }
}

/// The integer of the field, if it holds one.
pub fn field_varint(f: &Field) -> (r: Option<u64>)
    ensures
        r == value_varint(f@.value),
{
    match &f.value {
        Value::Varint(x) => Some(*x),
        Value::Bytes(_) => None,
    }
}

/// A copy of the bytes of the field, if it holds bytes.
pub fn field_bytes_copy(f: &Field) -> (r: Option<Vec<u8>>)
    ensures
        match r {
            Some(b) => value_bytes(f@.value) == Some(b@),
            None => value_bytes(f@.value) is None,
        },
{
    match &f.value {
        Value::Varint(_) => None,
        Value::Bytes(b) => Some(slice_to_vec(b.as_slice())),
    }
}

/// The text of the field, if it holds bytes that are UTF-8.
pub fn field_string(f: &Field) -> (r: Option<String>)
    ensures
        match r {
            Some(s) => value_string(f@.value) == Some(s@),
            None => value_string(f@.value) is None,
        },
{
    match &f.value {
        Value::Varint(_) => None,
        Value::Bytes(b) => string_from_utf8(slice_to_vec(b.as_slice())),
    }
}

// ----- folding fields into a message -----

/// The message after the first `n` fields were merged into `init`, one by
/// one; `None` once a field was refused.
pub open spec fn merge_all<A>(
    init: A,
    step: spec_fn(A, FieldView) -> Option<A>,
    fs: Seq<FieldView>,
    n: nat,
) -> Option<A>
    decreases n,
{
    if n == 0 {
        Some(init)
    } else {
        match merge_all(init, step, fs, (n - 1) as nat) {
            Some(acc) => step(acc, fs[n - 1]),
            None => None,
        }
    }
}

/// Once a field was refused, the message stays refused.
pub proof fn lemma_merge_none<A>(
    init: A,
    step: spec_fn(A, FieldView) -> Option<A>,
    fs: Seq<FieldView>,
    i: nat,
    n: nat,
)
    requires
        i <= n,
        merge_all(init, step, fs, i) is None,
    ensures
        merge_all(init, step, fs, n) is None,
    decreases n,
{
    if i < n {
        lemma_merge_none(init, step, fs, i, (n - 1) as nat);
    }
}

// ----- endpoints -----

/// The fields of a client's endpoints.
pub open spec fn register_info_fields(r: RegisterInfoView) -> Seq<FieldView> {
    seq![
        string_field(1, r.host),
        varint_field(2, r.port as u64),
        string_field(3, r.pasv_host),
        varint_field(4, r.pasv_port as u64),
    ]
}

/// The bytes of a client's endpoints.
pub open spec fn register_info_bytes(r: RegisterInfoView) -> Seq<u8> {
    fields_bytes(register_info_fields(r))
}

/// Endpoints of which no field was read yet.
pub open spec fn register_info_default() -> RegisterInfoView {
    RegisterInfoView { host: Seq::empty(), port: 0, pasv_host: Seq::empty(), pasv_port: 0 }
}

/// `acc` with the field `f` merged in; `None` where `f` is refused.
pub open spec fn register_info_merge(acc: RegisterInfoView, f: FieldView) -> Option<
    RegisterInfoView,
> {
    if f.number == 1 {
        match value_string(f.value) {
            Some(s) => Some(RegisterInfoView { host: s, ..acc }),
            None => None,
        }
    } else if f.number == 2 {
        match value_varint(f.value) {
            Some(v) => Some(RegisterInfoView { port: bits_port(v), ..acc }),
            None => None,
        }
    } else if f.number == 3 {
        match value_string(f.value) {
            Some(s) => Some(RegisterInfoView { pasv_host: s, ..acc }),
            None => None,
        }
    } else if f.number == 4 {
        match value_varint(f.value) {
            Some(v) => Some(RegisterInfoView { pasv_port: bits_port(v), ..acc }),
            None => None,
        }
    } else {
        Some(acc)
    }
}

/// `register_info_merge` as a value.
pub open spec fn register_info_step() -> spec_fn(RegisterInfoView, FieldView) -> Option<
    RegisterInfoView,
> {
    |acc: RegisterInfoView, f: FieldView| register_info_merge(acc, f)
}

/// The endpoints that `b` spells; `None` where `b` is malformed.
pub open spec fn decoded_register_info(b: Seq<u8>) -> Option<RegisterInfoView> {
    match parsed_fields(b) {
        Some(fs) => merge_all(register_info_default(), register_info_step(), fs, fs.len()),
        None => None,
    }
}

/// Writes a client's endpoints.
pub fn encode_register_info(r: &SimpleRegisterInfo) -> (out: Vec<u8>)
    ensures
        out@ == register_info_bytes(r@),
        decoded_register_info(out@) == Some(r@),
        register_info_fits(r@),
{
    let mut fs: Vec<Field> = Vec::new();
    fs.push(make_string_field(1, &r.host));
    fs.push(Field { number: 2, value: Value::Varint(r.port as u64) });
    fs.push(make_string_field(3, &r.pasv_host));
    fs.push(Field { number: 4, value: Value::Varint(r.pasv_port as u64) });
    assert(fields_view(fs@) =~= register_info_fields(r@));
    let mut out: Vec<u8> = Vec::new();
    put_fields(&mut out, &fs);
    assert(out@ =~= register_info_bytes(r@));
    assert(out.len() <= usize::MAX);
    proof {
        lemma_register_info_round_trip(r@);
    }
    out
}

/// Reads a client's endpoints.
pub fn decode_register_info(b: &[u8]) -> (r: Option<SimpleRegisterInfo>)
    ensures
        match r {
            Some(m) => decoded_register_info(b@) == Some(m@),
            None => decoded_register_info(b@) is None,
        },
{
    let fs = match read_fields(b) {
        Some(fs) => fs,
        None => { return None; },
    };
    let ghost fv = fields_view(fs@);
    let mut acc = SimpleRegisterInfo {
        host: String::new(),
        port: 0,
        pasv_host: String::new(),
        pasv_port: 0,
    };
    let mut i: usize = 0;
    while i < fs.len()
        invariant
            i <= fs.len(),
            fv == fields_view(fs@),
            parsed_fields(b@) == Some(fv),
            merge_all(register_info_default(), register_info_step(), fv, i as nat) == Some(acc@),
        decreases fs.len() - i,
    {
        let f = &fs[i];
        assert(fv[i as int] == f@);
        let ghost before = acc@;
        let mut good = true;
        if f.number == 1 {
            match field_string(f) {
                Some(s) => { acc.host = s; },
                None => { good = false; },
            }
        } else if f.number == 2 {
            match field_varint(f) {
                Some(v) => { acc.port = port_from_bits(v); },
                None => { good = false; },
            }
        } else if f.number == 3 {
            match field_string(f) {
                Some(s) => { acc.pasv_host = s; },
                None => { good = false; },
            }
        } else if f.number == 4 {
            match field_varint(f) {
                Some(v) => { acc.pasv_port = port_from_bits(v); },
                None => { good = false; },
            }
        }
        if !good {
            proof {
                assert(register_info_merge(before, f@) is None);
                assert(merge_all(register_info_default(), register_info_step(), fv, (i + 1) as nat)
                    is None);
                lemma_merge_none(
                    register_info_default(),
                    register_info_step(),
                    fv,
                    (i + 1) as nat,
                    fs.len() as nat,
                );
            }
            return None;
        }
        assert(register_info_merge(before, f@) == Some(acc@));
        i += 1;
    }
    Some(acc)
}

// ----- replies -----

/// The fields of a reply.
pub open spec fn response_fields(m: ResponseView) -> Seq<FieldView> {
    seq![
        varint_field(1, int64_bits(m.stat as i64)),
        string_field(2, m.request_uuid),
        string_field(3, m.response_uuid),
    ]
}

/// The bytes of a reply.
pub open spec fn response_bytes(m: ResponseView) -> Seq<u8> {
    fields_bytes(response_fields(m))
}

/// A reply of which no field was read yet.
pub open spec fn response_default() -> ResponseView {
    ResponseView { stat: 0, request_uuid: Seq::empty(), response_uuid: Seq::empty() }
}

/// `acc` with the field `f` merged in; `None` where `f` is refused.
pub open spec fn response_merge(acc: ResponseView, f: FieldView) -> Option<ResponseView> {
    if f.number == 1 {
        match value_varint(f.value) {
            Some(v) => Some(ResponseView { stat: bits_int32(v), ..acc }),
            None => None,
        }
    } else if f.number == 2 {
        match value_string(f.value) {
            Some(s) => Some(ResponseView { request_uuid: s, ..acc }),
            None => None,
        }
    } else if f.number == 3 {
        match value_string(f.value) {
            Some(s) => Some(ResponseView { response_uuid: s, ..acc }),
            None => None,
        }
    } else {
        Some(acc)
    }
}

/// `response_merge` as a value.
pub open spec fn response_step() -> spec_fn(ResponseView, FieldView) -> Option<ResponseView> {
    |acc: ResponseView, f: FieldView| response_merge(acc, f)
}

/// The reply that `b` spells; `None` where `b` is malformed.
pub open spec fn decoded_response(b: Seq<u8>) -> Option<ResponseView> {
    match parsed_fields(b) {
        Some(fs) => merge_all(response_default(), response_step(), fs, fs.len()),
        None => None,
    }
}

/// Writes a reply. What it writes reads back as the reply.
pub fn encode_response(m: &Response) -> (out: Vec<u8>)
    ensures
        out@ == response_bytes(m@),
        decoded_response(out@) == Some(m@),
{
    let mut fs: Vec<Field> = Vec::new();
    fs.push(Field { number: 1, value: Value::Varint(int64_to_bits(m.stat as i64)) });
    fs.push(make_string_field(2, &m.request_uuid));
    fs.push(make_string_field(3, &m.response_uuid));
    assert(fields_view(fs@) =~= response_fields(m@));
    let mut out: Vec<u8> = Vec::new();
    put_fields(&mut out, &fs);
    assert(out@ =~= response_bytes(m@));
    proof {
        lemma_response_round_trip(m@);
    }
    out
}

/// Reads a reply.
pub fn decode_response(b: &[u8]) -> (r: Option<Response>)
    ensures
        match r {
            Some(m) => decoded_response(b@) == Some(m@),
            None => decoded_response(b@) is None,
        },
{
    let fs = match read_fields(b) {
        Some(fs) => fs,
        None => { return None; },
    };
    let ghost fv = fields_view(fs@);
    let mut acc = Response { stat: 0, request_uuid: String::new(), response_uuid: String::new() };
    let mut i: usize = 0;
    while i < fs.len()
        invariant
            i <= fs.len(),
            fv == fields_view(fs@),
            parsed_fields(b@) == Some(fv),
            merge_all(response_default(), response_step(), fv, i as nat) == Some(acc@),
        decreases fs.len() - i,
    {
        let f = &fs[i];
        assert(fv[i as int] == f@);
        let ghost before = acc@;
        let mut good = true;
        if f.number == 1 {
            match field_varint(f) {
                Some(v) => { acc.stat = int32_from_bits(v); },
                None => { good = false; },
            }
        } else if f.number == 2 {
            match field_string(f) {
                Some(s) => { acc.request_uuid = s; },
                None => { good = false; },
            }
        } else if f.number == 3 {
            match field_string(f) {
                Some(s) => { acc.response_uuid = s; },
                None => { good = false; },
            }
        }
        if !good {
            proof {
                assert(response_merge(before, f@) is None);
                assert(merge_all(response_default(), response_step(), fv, (i + 1) as nat) is None);
                lemma_merge_none(
                    response_default(),
                    response_step(),
                    fv,
                    (i + 1) as nat,
                    fs.len() as nat,
                );
            }
            return None;
        }
        assert(response_merge(before, f@) == Some(acc@));
        i += 1;
    }
    Some(acc)
}

} // verus!
