use defl::codec::decode_register_info;
use defl::codec::decode_response;
use defl::codec::encode_register_info;
use defl::codec::encode_response;
use defl::codec::int32_from_bits;
use defl::codec::int64_from_bits;
use defl::codec::int64_to_bits;
use defl::codec::port_from_bits;
use defl::databank::SimpleRegisterInfo;
use defl::defl::ClientRequest;
use defl::defl::Method;
use defl::defl::ObsidoRequest;
use defl::defl::Response;
use defl::defl::Status;
use defl::defl::WeightsResponse;
use defl::fields::put_field;
use defl::fields::read_fields;
use defl::fields::Field;
use defl::fields::Value;
use defl::name_map::NameMap;
use defl::request_codec::decode_client_request;
use defl::request_codec::decode_obsido_request;
use defl::request_codec::encode_client_request;
use defl::request_codec::encode_obsido_request;
use defl::varint::put_varint;
use defl::varint::take_varint;
use defl::weights_codec::decode_weights_response;
use defl::weights_codec::encode_weights_response;

fn varint(v: u64) -> Vec<u8> {
    let mut buf = Vec::new();
    put_varint(&mut buf, v);
    buf
}

#[test]
fn varint_known_values() {
    assert_eq!(varint(0), vec![0x00]);
    assert_eq!(varint(1), vec![0x01]);
    assert_eq!(varint(127), vec![0x7F]);
    assert_eq!(varint(128), vec![0x80, 0x01]);
    assert_eq!(varint(300), vec![0xAC, 0x02]);
    assert_eq!(varint(u64::MAX), vec![0xFF, 0xFF, 0xFF, 0xFF, 0xFF, 0xFF, 0xFF, 0xFF, 0xFF, 0x01]);
}

#[test]
fn varint_reads_back() {
    for v in [0u64, 1, 127, 128, 300, 16_383, 16_384, u32::MAX as u64, u64::MAX - 1, u64::MAX] {
        let mut bytes = varint(v);
        let n = bytes.len();
        bytes.push(0x55);
        assert_eq!(take_varint(&bytes, 0), Some((v, n)));
    }
}

#[test]
fn varint_matches_prost() {
    for v in [0u64, 1, 127, 128, 300, 1 << 35, u64::MAX] {
        let mut expected = Vec::new();
        prost::encoding::encode_varint(v, &mut expected);
        assert_eq!(varint(v), expected);
        let mut slice = &expected[..];
        assert_eq!(prost::encoding::decode_varint(&mut slice).unwrap(), v);
    }
}

#[test]
fn varint_rejects_malformed() {
    assert_eq!(take_varint(&[], 0), None);
    assert_eq!(take_varint(&[0x80], 0), None);
    assert_eq!(take_varint(&[0x80, 0x80], 0), None);
    let eleven = [0x80u8; 11];
    assert_eq!(take_varint(&eleven, 0), None);
    let too_big = [0xFF, 0xFF, 0xFF, 0xFF, 0xFF, 0xFF, 0xFF, 0xFF, 0xFF, 0x02];
    assert_eq!(take_varint(&too_big, 0), None);
    assert_eq!(take_varint(&[0x05, 0x80, 0x01], 1), Some((128, 2)));
}

#[test]
fn fields_are_tagged() {
    let mut buf = Vec::new();
    put_field(&mut buf, &Field { number: 1, value: Value::Varint(150) });
    put_field(&mut buf, &Field { number: 2, value: Value::Bytes(b"hi".to_vec()) });
    assert_eq!(buf, vec![0x08, 0x96, 0x01, 0x12, 0x02, b'h', b'i']);
    let fields = read_fields(&buf).unwrap();
    assert_eq!(fields.len(), 2);
    assert_eq!(fields[0].number, 1);
    assert!(matches!(fields[0].value, Value::Varint(150)));
    assert_eq!(fields[1].number, 2);
    match &fields[1].value {
        Value::Bytes(b) => assert_eq!(b, &b"hi".to_vec()),
        Value::Varint(_) => panic!("bytes expected"),
    }
}

#[test]
fn fields_reject_malformed() {
    assert!(read_fields(&[]).unwrap().is_empty());
    // field number 0
    assert!(read_fields(&[0x00, 0x01]).is_none());
    // bytes shorter than their length
    assert!(read_fields(&[0x12, 0x05, b'h']).is_none());
    // a wire type that is neither an integer nor bytes
    assert!(read_fields(&[0x0D, 0x00, 0x00, 0x00, 0x00]).is_none());
    // a key without a value
    assert!(read_fields(&[0x08]).is_none());
}

#[test]
fn integers_keep_their_bits() {
    assert_eq!(int64_to_bits(0), 0);
    assert_eq!(int64_to_bits(-1), u64::MAX);
    assert_eq!(int64_to_bits(i64::MIN), 1u64 << 63);
    assert_eq!(int64_to_bits(i64::MAX), (1u64 << 63) - 1);
    assert_eq!(int64_from_bits(u64::MAX), -1);
    assert_eq!(int64_from_bits(1u64 << 63), i64::MIN);
    assert_eq!(int64_from_bits(5), 5);
    assert_eq!(int32_from_bits(u64::MAX), -1);
    assert_eq!(int32_from_bits(0x1_0000_0003), 3);
    assert_eq!(int32_from_bits(0x8000_0000), i32::MIN);
    assert_eq!(port_from_bits(9001), 9001);
    assert_eq!(port_from_bits(0x1_0001), 1);
}

#[test]
fn status_wire_values_are_stable() {
    assert_eq!(Status::Okay.as_i32(), 0);
    assert_eq!(Status::NotMeetQuorumWait.as_i32(), 1);
    assert_eq!(Status::ClientAlreadyVotedError.as_i32(), 2);
    assert_eq!(Status::UwTargetEpochIdError.as_i32(), 3);
    assert_eq!(Status::NevTargetEpochIdError.as_i32(), 4);
    assert_eq!(Status::NoWeightsInRequestError.as_i32(), 5);
    assert_eq!(Status::ServerInternalError.as_i32(), 6);
    let mut code = 0;
    while code < 7 {
        assert_eq!(Status::from_i32(code).unwrap().as_i32(), code);
        code += 1;
    }
    assert_eq!(Status::from_i32(7), None);
    assert_eq!(Status::from_i32(-1), None);
}

#[test]
fn method_wire_values() {
    assert_eq!(Method::from_i32(0), Some(Method::UpdWeights));
    assert_eq!(Method::from_i32(1), Some(Method::NewEpochVote));
    assert_eq!(Method::from_i32(2), Some(Method::FetchWLast));
    assert_eq!(Method::from_i32(3), Some(Method::ClientRegister));
    assert_eq!(Method::from_i32(4), None);
    assert_eq!(Method::ClientRegister.as_i32(), 3);
}

#[test]
fn response_round_trip() {
    let response = Response {
        stat: Status::ClientAlreadyVotedError.as_i32(),
        request_uuid: "3f2b".to_string(),
        response_uuid: "grüße-\u{1F600}".to_string(),
    };
    let bytes = encode_response(&response);
    let back = decode_response(&bytes).unwrap();
    assert_eq!(back.stat, 2);
    assert_eq!(back.request_uuid, "3f2b");
    assert_eq!(back.response_uuid, "grüße-\u{1F600}");
}

#[test]
fn response_bytes_match_prost() {
    let response =
        Response { stat: 3, request_uuid: "abc".to_string(), response_uuid: "xyz".to_string() };
    let mut expected = Vec::new();
    prost::encoding::int32::encode(1, &3, &mut expected);
    prost::encoding::string::encode(2, &"abc".to_string(), &mut expected);
    prost::encoding::string::encode(3, &"xyz".to_string(), &mut expected);
    assert_eq!(encode_response(&response), expected);
    assert_eq!(expected, vec![0x08, 0x03, 0x12, 0x03, b'a', b'b', b'c', 0x1A, 0x03, b'x', b'y', b'z']);
}

#[test]
fn negative_status_takes_ten_bytes() {
    let response =
        Response { stat: -2, request_uuid: String::new(), response_uuid: String::new() };
    let bytes = encode_response(&response);
    let mut expected = Vec::new();
    prost::encoding::int32::encode(1, &-2, &mut expected);
    assert_eq!(&bytes[..expected.len()], &expected[..]);
    assert_eq!(decode_response(&bytes).unwrap().stat, -2);
}

#[test]
fn response_decoding_is_lenient_on_order_and_unknown_fields() {
    // field 3, then an unknown field 9, then field 1 twice: the later value stays
    let bytes = vec![0x1A, 0x01, b'z', 0x48, 0x07, 0x08, 0x01, 0x08, 0x06];
    let back = decode_response(&bytes).unwrap();
    assert_eq!(back.stat, 6);
    assert_eq!(back.request_uuid, "");
    assert_eq!(back.response_uuid, "z");
    let empty = decode_response(&[]).unwrap();
    assert_eq!(empty.stat, 0);
    assert_eq!(empty.response_uuid, "");
}

#[test]
fn response_decoding_rejects_bad_text_and_bad_kinds() {
    // field 2 holds bytes that are not UTF-8
    assert!(decode_response(&[0x12, 0x02, 0xC3, 0x28]).is_none());
    // field 1 as bytes
    assert!(decode_response(&[0x0A, 0x01, 0x00]).is_none());
    // field 2 as an integer
    assert!(decode_response(&[0x10, 0x01]).is_none());
}

#[test]
fn register_info_round_trip() {
    let info = SimpleRegisterInfo {
        host: "10.0.0.7".to_string(),
        port: 65535,
        pasv_host: "example.org".to_string(),
        pasv_port: 0,
    };
    let bytes = encode_register_info(&info);
    assert_eq!(decode_register_info(&bytes), Some(info));
}

#[test]
fn client_request_round_trip() {
    let request = ClientRequest {
        method: Method::UpdWeights.as_i32(),
        request_uuid: "u-1".to_string(),
        client_name: "alice".to_string(),
        target_epoch_id: -7,
        weights: Some(vec![0, 255, 128, 1]),
        register_info: Some(SimpleRegisterInfo {
            host: "127.0.0.1".to_string(),
            port: 9001,
            pasv_host: "127.0.0.1".to_string(),
            pasv_port: 9101,
        }),
    };
    let bytes = encode_client_request(&request);
    let back = decode_client_request(&bytes).unwrap();
    assert_eq!(back.method, 0);
    assert_eq!(back.request_uuid, "u-1");
    assert_eq!(back.client_name, "alice");
    assert_eq!(back.target_epoch_id, -7);
    assert_eq!(back.weights, Some(vec![0, 255, 128, 1]));
    assert_eq!(back.register_info, request.register_info);
}

#[test]
fn client_request_without_options_round_trip() {
    let request = ClientRequest {
        method: Method::NewEpochVote.as_i32(),
        request_uuid: String::new(),
        client_name: "bob".to_string(),
        target_epoch_id: i64::MAX,
        weights: None,
        register_info: None,
    };
    let back = decode_client_request(&encode_client_request(&request)).unwrap();
    assert_eq!(back.method, 1);
    assert_eq!(back.client_name, "bob");
    assert_eq!(back.target_epoch_id, i64::MAX);
    assert_eq!(back.weights, None);
    assert_eq!(back.register_info, None);
    let empty_weights = ClientRequest { weights: Some(vec![]), ..request };
    let back = decode_client_request(&encode_client_request(&empty_weights)).unwrap();
    assert_eq!(back.weights, Some(vec![]));
}

#[test]
fn obsido_request_round_trip() {
    let request = ObsidoRequest {
        method: 1,
        request_uuid: "o-9".to_string(),
        client_name: "carol".to_string(),
        register_info: Some(SimpleRegisterInfo {
            host: "h".to_string(),
            port: 1,
            pasv_host: "p".to_string(),
            pasv_port: 2,
        }),
    };
    let back = decode_obsido_request(&encode_obsido_request(&request)).unwrap();
    assert_eq!(back.method, 1);
    assert_eq!(back.request_uuid, "o-9");
    assert_eq!(back.client_name, "carol");
    assert_eq!(back.register_info, request.register_info);
    assert!(decode_obsido_request(&[0x22, 0x02, 0x08]).is_none());
}

#[test]
fn weights_response_round_trip() {
    let mut w_last: NameMap<Vec<u8>> = NameMap::new();
    w_last.insert("alice".to_string(), vec![0xAA, 0xBB]);
    w_last.insert("bob".to_string(), vec![]);
    let message = WeightsResponse {
        request_uuid: Some("r".to_string()),
        response_uuid: "s".to_string(),
        r_last_epoch_id: 12,
        w_last,
    };
    let bytes = encode_weights_response(&message);
    let back = decode_weights_response(&bytes).unwrap();
    assert_eq!(back.request_uuid, Some("r".to_string()));
    assert_eq!(back.response_uuid, "s");
    assert_eq!(back.r_last_epoch_id, 12);
    assert_eq!(back.w_last.len(), 2);
    assert_eq!(back.w_last.get(&"alice".to_string()), Some(&vec![0xAA, 0xBB]));
    assert_eq!(back.w_last.get(&"bob".to_string()), Some(&vec![]));
    assert_eq!(back.w_last.get(&"carol".to_string()), None);
}

#[test]
fn weights_response_bytes_match_prost() {
    let mut w_last: NameMap<Vec<u8>> = NameMap::new();
    w_last.insert("al".to_string(), vec![7]);
    let message = WeightsResponse {
        request_uuid: None,
        response_uuid: "s".to_string(),
        r_last_epoch_id: -1,
        w_last,
    };
    let mut entry = Vec::new();
    prost::encoding::string::encode(1, &"al".to_string(), &mut entry);
    prost::encoding::bytes::encode(2, &vec![7u8], &mut entry);
    let mut expected = Vec::new();
    prost::encoding::string::encode(2, &"s".to_string(), &mut expected);
    prost::encoding::int64::encode(3, &-1, &mut expected);
    prost::encoding::bytes::encode(4, &entry, &mut expected);
    assert_eq!(encode_weights_response(&message), expected);
}

#[test]
fn name_map_keeps_first_come_order() {
    let mut map: NameMap<Vec<u8>> = NameMap::new();
    assert!(!map.insert("b".to_string(), vec![1]));
    assert!(!map.insert("a".to_string(), vec![2]));
    assert!(map.insert("b".to_string(), vec![3]));
    assert_eq!(map.len(), 2);
    assert_eq!(map.name_at(0), "b");
    assert_eq!(map.value_at(0), &vec![3]);
    assert_eq!(map.name_at(1), "a");
    let copy = map.snapshot();
    assert_eq!(copy.len(), 2);
    assert_eq!(copy.get(&"a".to_string()), Some(&vec![2]));
    map.clear();
    assert_eq!(map.len(), 0);
    assert_eq!(copy.len(), 2);
}
