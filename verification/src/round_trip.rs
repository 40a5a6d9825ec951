//! Reading a message that was written gives the message back.

use vstd::prelude::*;
use vstd::utf8::encode_utf8_decode_utf8;
use vstd::utf8::encode_utf8_valid_utf8;
use crate::codec::bytes_field;
use crate::codec::decoded_register_info;
use crate::codec::decoded_response;
use crate::codec::int64_bits;
use crate::codec::lemma_int32_round_trip;
use crate::codec::merge_all;
use crate::codec::register_info_bytes;
use crate::codec::register_info_default;
use crate::codec::register_info_fields;
use crate::codec::register_info_step;
use crate::codec::response_bytes;
use crate::codec::response_default;
use crate::codec::response_fields;
use crate::codec::response_step;
use crate::codec::string_field;
use crate::codec::text_fits;
use crate::codec::value_string;
use crate::codec::varint_field;
use crate::databank::RegisterInfoView;
use crate::defl::ClientRequestView;
use crate::defl::ObsidoRequestView;
use crate::defl::ResponseView;
use crate::defl::WeightsResponseView;
use crate::fields::lemma_fields_round_trip;
use crate::fields::valid_field;
use crate::fields::valid_fields;
use crate::fields::FieldView;
use crate::request_codec::client_request_bytes;
use crate::request_codec::client_request_default;
use crate::request_codec::client_request_fields;
use crate::request_codec::client_request_step;
use crate::request_codec::decoded_client_request;
use crate::request_codec::decoded_obsido_request;
use crate::request_codec::merged_register_info;
use crate::request_codec::obsido_request_bytes;
use crate::request_codec::obsido_request_default;
use crate::request_codec::obsido_request_fields;
use crate::request_codec::obsido_request_step;
use crate::request_codec::register_info_field;
use crate::weights_codec::decoded_entry;
use crate::weights_codec::decoded_weights_response;
use crate::weights_codec::entry_bytes;
use crate::weights_codec::entry_default;
use crate::weights_codec::entry_fields;
use crate::weights_codec::entry_step;
use crate::weights_codec::weights_fields;
use crate::weights_codec::weights_response_bytes;
use crate::weights_codec::weights_response_default;
use crate::weights_codec::weights_response_fields;
use crate::weights_codec::weights_response_head;
use crate::weights_codec::weights_response_step;

verus! {

/// Everything in the endpoints can be counted in 64 bits.
pub open spec fn register_info_fits(r: RegisterInfoView) -> bool {
    text_fits(r.host) && text_fits(r.pasv_host) && register_info_bytes(r).len() <= u64::MAX
}

/// Everything in the reply can be counted in 64 bits.
pub open spec fn response_fits(m: ResponseView) -> bool {
    text_fits(m.request_uuid) && text_fits(m.response_uuid)
}

/// Everything in the request can be counted in 64 bits.
pub open spec fn client_request_fits(m: ClientRequestView) -> bool {
    &&& text_fits(m.request_uuid)
    &&& text_fits(m.client_name)
    &&& match m.weights {
        Some(w) => w.len() <= u64::MAX,
        None => true,
    }
    &&& match m.register_info {
        Some(r) => register_info_fits(r),
        None => true,
    }
}

/// Everything in the request can be counted in 64 bits.
pub open spec fn obsido_request_fits(m: ObsidoRequestView) -> bool {
    &&& text_fits(m.request_uuid)
    &&& text_fits(m.client_name)
    &&& match m.register_info {
        Some(r) => register_info_fits(r),
        None => true,
    }
}

/// Everything in one client's weights can be counted in 64 bits.
pub open spec fn entry_fits(name: Seq<char>, blob: Seq<u8>) -> bool {
    text_fits(name) && blob.len() <= u64::MAX && entry_bytes(name, blob).len() <= u64::MAX
}

/// `order` lists the clients of the message, and everything in it fits.
pub open spec fn weights_response_fits(m: WeightsResponseView, order: Seq<Seq<char>>) -> bool {
    &&& match m.request_uuid {
        Some(u) => text_fits(u),
        None => true,
    }
    &&& text_fits(m.response_uuid)
    &&& forall|k: Seq<char>| m.w_last.contains_key(k) <==> order.contains(k)
    &&& forall|i: int| 0 <= i < order.len() ==> entry_fits(#[trigger] order[i], m.w_last[order[i]])
}

proof fn lemma_text(number: u32, s: Seq<char>)
    ensures
        value_string(string_field(number, s).value) == Some(s),
{
    encode_utf8_valid_utf8(s);
    encode_utf8_decode_utf8(s);
}

proof fn lemma_merge_prefix<A>(
    init: A,
    step: spec_fn(A, FieldView) -> Option<A>,
    x: Seq<FieldView>,
    y: Seq<FieldView>,
    n: nat,
)
    requires
        n <= x.len(),
        n <= y.len(),
        forall|i: int| 0 <= i < n ==> x[i] == y[i],
    ensures
        merge_all(init, step, x, n) == merge_all(init, step, y, n),
    decreases n,
{
    if n > 0 {
        lemma_merge_prefix(init, step, x, y, (n - 1) as nat);
    }
}

/// Merging `a` and then the first `k` fields of `b` is merging as many
/// fields of `a + b`.
proof fn lemma_merge_concat<A>(
    init: A,
    step: spec_fn(A, FieldView) -> Option<A>,
    a: Seq<FieldView>,
    b: Seq<FieldView>,
    k: nat,
)
    requires
        k <= b.len(),
        merge_all(init, step, a, a.len()) is Some,
    ensures
        merge_all(init, step, a + b, a.len() + k) == merge_all(
            merge_all(init, step, a, a.len())->0,
            step,
            b,
            k,
        ),
    decreases k,
{
    if k == 0 {
        lemma_merge_prefix(init, step, a + b, a, a.len());
    } else {
        lemma_merge_concat(init, step, a, b, (k - 1) as nat);
        assert((a + b)[a.len() + k - 1] == b[k - 1]);
    }
}

/// Endpoints that were written read back as they were.
pub proof fn lemma_register_info_round_trip(r: RegisterInfoView)
    requires
        text_fits(r.host),
        text_fits(r.pasv_host),
    ensures
        decoded_register_info(register_info_bytes(r)) == Some(r),
{
    let fs = register_info_fields(r);
    assert(valid_fields(fs));
    lemma_fields_round_trip(fs);
    lemma_text(1, r.host);
    lemma_text(3, r.pasv_host);
    let d = register_info_default();
    let st = register_info_step();
    reveal_with_fuel(merge_all, 5);
    let a1 = RegisterInfoView { host: r.host, ..d };
    assert(merge_all(d, st, fs, 1) == Some(a1));
    let a2 = RegisterInfoView { port: r.port, ..a1 };
    assert(merge_all(d, st, fs, 2) == Some(a2));
    let a3 = RegisterInfoView { pasv_host: r.pasv_host, ..a2 };
    assert(merge_all(d, st, fs, 3) == Some(a3));
    assert(merge_all(d, st, fs, 4) == Some(r));
}

/// A reply that was written reads back as it was.
pub proof fn lemma_response_round_trip(m: ResponseView)
    requires
        response_fits(m),
    ensures
        decoded_response(response_bytes(m)) == Some(m),
{
    let fs = response_fields(m);
    assert(valid_fields(fs));
    lemma_fields_round_trip(fs);
    lemma_int32_round_trip(m.stat);
    lemma_text(2, m.request_uuid);
    lemma_text(3, m.response_uuid);
    let d = response_default();
    let st = response_step();
    reveal_with_fuel(merge_all, 4);
    let a1 = ResponseView { stat: m.stat, ..d };
    assert(merge_all(d, st, fs, 1) == Some(a1));
    let a2 = ResponseView { request_uuid: m.request_uuid, ..a1 };
    assert(merge_all(d, st, fs, 2) == Some(a2));
    assert(merge_all(d, st, fs, 3) == Some(m));
}

proof fn lemma_register_info_field(number: u32, r: Option<RegisterInfoView>)
    requires
        1 <= number <= 0x1FFF_FFFF,
        match r {
            Some(info) => register_info_fits(info),
            None => true,
        },
    ensures
        valid_fields(register_info_field(number, r)),
        match r {
            Some(info) => register_info_field(number, r).len() == 1 && merged_register_info(
                register_info_field(number, r)[0],
            ) == Some(info) && register_info_field(number, r)[0].number == number,
            None => register_info_field(number, r).len() == 0,
        },
{
    match r {
        Some(info) => {
            lemma_register_info_round_trip(info);
        },
        None => {},
    }
}

/// A request that was written reads back as it was.
pub proof fn lemma_client_request_round_trip(m: ClientRequestView)
    requires
        client_request_fits(m),
    ensures
        decoded_client_request(client_request_bytes(m)) == Some(m),
{
    let base = seq![
        varint_field(1, int64_bits(m.method as i64)),
        string_field(2, m.request_uuid),
        string_field(3, m.client_name),
        varint_field(4, int64_bits(m.target_epoch_id)),
    ];
    let opt5: Seq<FieldView> = match m.weights {
        Some(w) => seq![bytes_field(5, w)],
        None => Seq::empty(),
    };
    let opt6 = register_info_field(6, m.register_info);
    let fs = client_request_fields(m);
    assert(fs == base + opt5 + opt6);
    lemma_register_info_field(6, m.register_info);
    assert(valid_fields(fs)) by {
        assert forall|i: int| 0 <= i < fs.len() implies valid_field(#[trigger] fs[i]) by {
            if i < 4 {
                assert(fs[i] == base[i]);
            } else if i < 4 + opt5.len() {
                assert(fs[i] == opt5[i - 4]);
            } else {
                assert(fs[i] == opt6[i - 4 - opt5.len()]);
            }
        }
    }
    lemma_fields_round_trip(fs);
    lemma_int32_round_trip(m.method);
    lemma_text(2, m.request_uuid);
    lemma_text(3, m.client_name);
    let d = client_request_default();
    let st = client_request_step();
    let a1 = ClientRequestView { method: m.method, ..d };
    let a2 = ClientRequestView { request_uuid: m.request_uuid, ..a1 };
    let a3 = ClientRequestView { client_name: m.client_name, ..a2 };
    let a4 = ClientRequestView { target_epoch_id: m.target_epoch_id, ..a3 };
    assert(merge_all(d, st, base, 4) == Some(a4)) by {
        reveal_with_fuel(merge_all, 5);
        assert(merge_all(d, st, base, 1) == Some(a1));
        assert(merge_all(d, st, base, 2) == Some(a2));
        assert(merge_all(d, st, base, 3) == Some(a3));
    }
    let a5 = ClientRequestView { weights: m.weights, ..a4 };
    assert(merge_all(a4, st, opt5, opt5.len()) == Some(a5)) by {
        reveal_with_fuel(merge_all, 2);
    }
    lemma_merge_concat(d, st, base, opt5, opt5.len());
    assert(merge_all(d, st, base + opt5, (base + opt5).len()) == Some(a5));
    assert(merge_all(a5, st, opt6, opt6.len()) == Some(m)) by {
        reveal_with_fuel(merge_all, 2);
    }
    lemma_merge_concat(d, st, base + opt5, opt6, opt6.len());
}

/// A request to the second ingress that was written reads back as it was.
pub proof fn lemma_obsido_request_round_trip(m: ObsidoRequestView)
    requires
        obsido_request_fits(m),
    ensures
        decoded_obsido_request(obsido_request_bytes(m)) == Some(m),
{
    let base = seq![
        varint_field(1, int64_bits(m.method as i64)),
        string_field(2, m.request_uuid),
        string_field(3, m.client_name),
    ];
    let opt4 = register_info_field(4, m.register_info);
    let fs = obsido_request_fields(m);
    assert(fs == base + opt4);
    lemma_register_info_field(4, m.register_info);
    assert(valid_fields(fs)) by {
        assert forall|i: int| 0 <= i < fs.len() implies valid_field(#[trigger] fs[i]) by {
            if i < 3 {
                assert(fs[i] == base[i]);
            } else {
                assert(fs[i] == opt4[i - 3]);
            }
        }
    }
    lemma_fields_round_trip(fs);
    lemma_int32_round_trip(m.method);
    lemma_text(2, m.request_uuid);
    lemma_text(3, m.client_name);
    let d = obsido_request_default();
    let st = obsido_request_step();
    let a1 = ObsidoRequestView { method: m.method, ..d };
    let a2 = ObsidoRequestView { request_uuid: m.request_uuid, ..a1 };
    let a3 = ObsidoRequestView { client_name: m.client_name, ..a2 };
    assert(merge_all(d, st, base, 3) == Some(a3)) by {
        reveal_with_fuel(merge_all, 4);
        assert(merge_all(d, st, base, 1) == Some(a1));
        assert(merge_all(d, st, base, 2) == Some(a2));
    }
    assert(merge_all(a3, st, opt4, opt4.len()) == Some(m)) by {
        reveal_with_fuel(merge_all, 2);
    }
    lemma_merge_concat(d, st, base, opt4, opt4.len());
}

/// The weights of one client that were written read back as they were.
pub proof fn lemma_entry_round_trip(name: Seq<char>, blob: Seq<u8>)
    requires
        text_fits(name),
        blob.len() <= u64::MAX,
    ensures
        decoded_entry(entry_bytes(name, blob)) == Some((name, blob)),
{
    let fs = entry_fields(name, blob);
    assert(valid_fields(fs));
    lemma_fields_round_trip(fs);
    lemma_text(1, name);
    let d = entry_default();
    let st = entry_step();
    reveal_with_fuel(merge_all, 3);
    assert(merge_all(d, st, fs, 1) == Some((name, d.1)));
    assert(merge_all(d, st, fs, 2) == Some((name, blob)));
}

/// The map that holds the weights of the first `n` clients of `order`.
pub open spec fn first_weights(
    order: Seq<Seq<char>>,
    w: Map<Seq<char>, Seq<u8>>,
    n: nat,
) -> Map<Seq<char>, Seq<u8>>
    decreases n,
{
    if n == 0 {
        Map::empty()
    } else {
        first_weights(order, w, (n - 1) as nat).insert(order[n - 1], w[order[n - 1]])
    }
}

proof fn lemma_first_weights(order: Seq<Seq<char>>, w: Map<Seq<char>, Seq<u8>>, n: nat)
    requires
        n <= order.len(),
    ensures
        forall|k: Seq<char>|
            first_weights(order, w, n).contains_key(k) <==> exists|i: int|
                0 <= i < n && #[trigger] order[i] == k,
        forall|k: Seq<char>|
            first_weights(order, w, n).contains_key(k) ==> #[trigger] first_weights(order, w, n)[k]
                == w[k],
    decreases n,
{
    if n > 0 {
        lemma_first_weights(order, w, (n - 1) as nat);
        let prev = first_weights(order, w, (n - 1) as nat);
        assert forall|k: Seq<char>|
            first_weights(order, w, n).contains_key(k) <==> exists|i: int|
                0 <= i < n && #[trigger] order[i] == k by {
            if first_weights(order, w, n).contains_key(k) {
                if k == order[n - 1] {
                    assert(order[n - 1] == k);
                } else {
                    assert(prev.contains_key(k));
                    let i = choose|i: int| 0 <= i < n - 1 && #[trigger] order[i] == k;
                    assert(0 <= i < n && order[i] == k);
                }
            }
            if exists|i: int| 0 <= i < n && #[trigger] order[i] == k {
                let i = choose|i: int| 0 <= i < n && #[trigger] order[i] == k;
                if i < n - 1 {
                    assert(0 <= i < n - 1 && order[i] == k);
                    assert(prev.contains_key(k));
                }
            }
        }
    }
}

proof fn lemma_weights_fields_valid(m: WeightsResponseView, order: Seq<Seq<char>>)
    requires
        weights_response_fits(m, order),
    ensures
        valid_fields(weights_response_fields(m, order)),
{
    let opt1: Seq<FieldView> = match m.request_uuid {
        Some(u) => seq![string_field(1, u)],
        None => Seq::empty(),
    };
    let fixed = seq![string_field(2, m.response_uuid), varint_field(3, int64_bits(m.r_last_epoch_id))];
    let head = weights_response_head(m);
    let tail = weights_fields(order, m.w_last);
    let fs = weights_response_fields(m, order);
    assert(head == opt1 + fixed);
    assert forall|i: int| 0 <= i < fs.len() implies valid_field(#[trigger] fs[i]) by {
        if i < opt1.len() {
            assert(fs[i] == opt1[i]);
        } else if i < head.len() {
            assert(fs[i] == fixed[i - opt1.len()]);
        } else {
            let j = i - head.len();
            assert(fs[i] == tail[j]);
            assert(entry_fits(order[j], m.w_last[order[j]]));
        }
    }
}

proof fn lemma_weights_head(m: WeightsResponseView)
    ensures
        merge_all(
            weights_response_default(),
            weights_response_step(),
            weights_response_head(m),
            weights_response_head(m).len(),
        ) == Some(WeightsResponseView { w_last: Map::empty(), ..m }),
{
    let opt1: Seq<FieldView> = match m.request_uuid {
        Some(u) => seq![string_field(1, u)],
        None => Seq::empty(),
    };
    let fixed = seq![string_field(2, m.response_uuid), varint_field(3, int64_bits(m.r_last_epoch_id))];
    let head = weights_response_head(m);
    assert(head == opt1 + fixed);
    let d = weights_response_default();
    let st = weights_response_step();
    let a1 = WeightsResponseView { request_uuid: m.request_uuid, ..d };
    assert(merge_all(d, st, opt1, opt1.len()) == Some(a1)) by {
        reveal_with_fuel(merge_all, 2);
        match m.request_uuid {
            Some(u) => {
                lemma_text(1, u);
            },
            None => {},
        }
    }
    let a2 = WeightsResponseView { response_uuid: m.response_uuid, ..a1 };
    let a3 = WeightsResponseView { r_last_epoch_id: m.r_last_epoch_id, ..a2 };
    assert(merge_all(a1, st, fixed, 2) == Some(a3)) by {
        reveal_with_fuel(merge_all, 3);
        lemma_text(2, m.response_uuid);
        assert(merge_all(a1, st, fixed, 1) == Some(a2));
    }
    lemma_merge_concat(d, st, opt1, fixed, 2);
}

proof fn lemma_first_weights_all(order: Seq<Seq<char>>, w: Map<Seq<char>, Seq<u8>>)
    requires
        forall|k: Seq<char>| w.contains_key(k) <==> order.contains(k),
    ensures
        first_weights(order, w, order.len()) == w,
{
    let f = first_weights(order, w, order.len());
    lemma_first_weights(order, w, order.len());
    assert forall|k: Seq<char>| w.contains_key(k) implies f.contains_key(k) by {
        assert(order.contains(k));
        let i = choose|i: int| 0 <= i < order.len() && order[i] == k;
        assert(0 <= i < order.len() && order[i] == k);
    }
    assert forall|k: Seq<char>| f.contains_key(k) implies w.contains_key(k) by {
        let i = choose|i: int| 0 <= i < order.len() && #[trigger] order[i] == k;
        assert(order.contains(k));
    }
    assert(f =~= w);
}

/// A message with weights that was written, its clients in `order`, reads
/// back as it was.
pub proof fn lemma_weights_response_round_trip(m: WeightsResponseView, order: Seq<Seq<char>>)
    requires
        weights_response_fits(m, order),
    ensures
        decoded_weights_response(weights_response_bytes(m, order)) == Some(m),
{
    let head = weights_response_head(m);
    let tail = weights_fields(order, m.w_last);
    let fs = weights_response_fields(m, order);
    lemma_weights_fields_valid(m, order);
    lemma_fields_round_trip(fs);
    let d = weights_response_default();
    let st = weights_response_step();
    let a3 = WeightsResponseView { w_last: Map::empty(), ..m };
    lemma_weights_head(m);
    lemma_tail(a3, m.w_last, order, order.len());
    lemma_merge_concat(d, st, head, tail, tail.len());
    lemma_first_weights_all(order, m.w_last);
    assert(WeightsResponseView { w_last: m.w_last, ..a3 } == m);
}

proof fn lemma_tail(
    acc: WeightsResponseView,
    w: Map<Seq<char>, Seq<u8>>,
    order: Seq<Seq<char>>,
    n: nat,
)
    requires
        n <= order.len(),
        acc.w_last == Map::<Seq<char>, Seq<u8>>::empty(),
        forall|i: int| 0 <= i < order.len() ==> entry_fits(#[trigger] order[i], w[order[i]]),
    ensures
        merge_all(acc, weights_response_step(), weights_fields(order, w), n) == Some(
            WeightsResponseView { w_last: first_weights(order, w, n), ..acc },
        ),
    decreases n,
{
    if n == 0 {
        assert(WeightsResponseView { w_last: first_weights(order, w, 0), ..acc } == acc);
    } else {
        lemma_tail(acc, w, order, (n - 1) as nat);
        assert(entry_fits(order[n - 1], w[order[n - 1]]));
        lemma_entry_round_trip(order[n - 1], w[order[n - 1]]);
    }
}

} // verus!
