use helloworld::dispatch::{Kind, Poll};
use helloworld::greeter::{new_request, req_to_resp, ThroughputMeter, MSG_PER_INSPECT};
use helloworld::message::{DecodeStep, HelloReply, HelloRequest};
use helloworld::routing::{route, unknown_service_message, Method};

fn encode_request(name: &str) -> Vec<u8> {
    let req = HelloRequest { name: name.to_string() };
    let mut buf = Vec::new();
    req.encode_raw(&mut buf);
    buf
}

#[test]
fn request_encoding_is_key_length_and_bytes() {
    assert_eq!(encode_request("Client"), vec![0x0A, 6, b'C', b'l', b'i', b'e', b'n', b't']);
}

#[test]
fn empty_field_encodes_to_nothing() {
    assert_eq!(encode_request(""), Vec::<u8>::new());
    assert_eq!(HelloRequest::default().encoded_len(), 0);
}

#[test]
fn encoded_len_matches_bytes() {
    let req = HelloRequest { name: "héllo wörld".to_string() };
    let mut buf = Vec::new();
    req.encode_raw(&mut buf);
    assert_eq!(req.encoded_len(), buf.len());
    assert_eq!(buf[1] as usize, "héllo wörld".len());
}

#[test]
fn long_field_has_two_byte_length() {
    let name = "x".repeat(200);
    let buf = encode_request(&name);
    assert_eq!(&buf[..3], &[0x0A, 0xC8, 0x01]);
    assert_eq!(buf.len(), 203);
    assert_eq!(HelloRequest::decode(&buf).unwrap().name, name);
}

#[test]
fn encode_appends_to_buffer() {
    let req = HelloReply { reply: "hi".to_string() };
    let mut buf = vec![7u8];
    req.encode_raw(&mut buf);
    assert_eq!(buf, vec![7, 0x0A, 2, b'h', b'i']);
}

#[test]
fn decode_roundtrip() {
    for name in ["", "Client", "日本語", "a\u{0}b"] {
        let buf = encode_request(name);
        assert_eq!(HelloRequest::decode(&buf).unwrap().name, name);
    }
    let reply = req_to_resp(&new_request("Client".to_string()));
    let mut buf = Vec::new();
    reply.encode_raw(&mut buf);
    assert_eq!(HelloReply::decode(&buf).unwrap().reply, "hello, Client");
}

#[test]
fn concatenated_messages_join_their_text() {
    let mut buf = encode_request("ab");
    buf.extend(encode_request("cd"));
    assert_eq!(HelloRequest::decode(&buf).unwrap().name, "abcd");
}

#[test]
fn merge_adds_to_existing_text() {
    let mut req = HelloRequest { name: "x".to_string() };
    assert_eq!(req.merge(&encode_request("yz")).unwrap(), ());
    assert_eq!(req.name, "xyz");
}

#[test]
fn merge_field_returns_next_position() {
    let mut buf = encode_request("ab");
    buf.extend(encode_request("c"));
    let mut req = HelloRequest::default();
    assert_eq!(req.merge_field(&buf, 0).unwrap(), 4);
    assert_eq!(req.name, "ab");
    assert_eq!(req.merge_field(&buf, 4).unwrap(), 7);
    assert_eq!(req.name, "abc");
}

#[test]
fn unknown_fields_are_skipped() {
    // field 2 varint 150, field 3 fixed64, field 4 length-delimited, field 5 fixed32
    let mut buf = vec![0x10, 0x96, 0x01];
    buf.extend([0x19, 1, 2, 3, 4, 5, 6, 7, 8]);
    buf.extend([0x22, 2, 9, 9]);
    buf.extend([0x2D, 1, 2, 3, 4]);
    buf.extend(encode_request("ok"));
    assert_eq!(HelloRequest::decode(&buf).unwrap().name, "ok");
}

#[test]
fn decode_failures() {
    // tag 0
    assert_eq!(HelloRequest::decode(&[0x00]).unwrap_err().step, DecodeStep::Key);
    // wire type 3 is not one prost reads
    assert_eq!(HelloRequest::decode(&[0x0B]).unwrap_err().step, DecodeStep::Key);
    // unterminated key
    assert_eq!(HelloRequest::decode(&[0x8A]).unwrap_err().step, DecodeStep::Key);
    // length beyond the end
    assert_eq!(HelloRequest::decode(&[0x0A, 5, b'a']).unwrap_err().step, DecodeStep::Field);
    // not UTF-8
    assert_eq!(HelloRequest::decode(&[0x0A, 1, 0xFF]).unwrap_err().step, DecodeStep::Field);
    // field 1 with the wrong wire type
    assert_eq!(HelloRequest::decode(&[0x08, 1]).unwrap_err().step, DecodeStep::Field);
    // unknown field cut short
    assert_eq!(HelloRequest::decode(&[0x10, 0x80]).unwrap_err().step, DecodeStep::Skip);
    assert_eq!(HelloReply::decode(&[0x1D, 1, 2]).unwrap_err().step, DecodeStep::Skip);
}

#[test]
fn clear_empties_the_field() {
    let mut reply = HelloReply { reply: "x".to_string() };
    reply.clear();
    assert_eq!(reply.reply, "");
    assert_eq!(HelloReply::default().reply, "");
}

#[test]
fn reply_greets_the_name() {
    let req = new_request("Client".to_owned());
    assert_eq!(req.name, "Client");
    assert_eq!(req_to_resp(&req).reply, "hello, Client");
    assert_eq!(req_to_resp(&new_request(String::new())).reply, "hello, ");
}

#[test]
fn method_paths() {
    assert_eq!(Method::SayHello.path(), "/helloworld.Greeter/SayHello");
    assert_eq!(Method::CStreamSayHello.path(), "/helloworld.Greeter/CStreamSayHello");
    assert_eq!(Method::SStreamSayHello.path(), "/helloworld.Greeter/SStreamSayHello");
    assert_eq!(Method::BStreamSayHello.path(), "/helloworld.Greeter/BStreamSayHello");
}

#[test]
fn route_finds_each_method_by_its_path() {
    for m in [Method::SayHello, Method::CStreamSayHello, Method::SStreamSayHello, Method::BStreamSayHello] {
        assert_eq!(route(m.path()), Some(m));
    }
    assert_eq!(route("/helloworld.Greeter/Other"), None);
    assert_eq!(route("/helloworld.Greeter/sayhello"), None);
    assert_eq!(route(""), None);
}

#[test]
fn streaming_kinds() {
    assert!(!Method::SayHello.client_streams() && !Method::SayHello.server_streams());
    assert!(Method::CStreamSayHello.client_streams() && !Method::CStreamSayHello.server_streams());
    assert!(!Method::SStreamSayHello.client_streams() && Method::SStreamSayHello.server_streams());
    assert!(Method::BStreamSayHello.client_streams() && Method::BStreamSayHello.server_streams());
}

#[test]
fn unknown_service_message_quotes_the_path() {
    assert_eq!(unknown_service_message("/foo"), "unknown service: \"/foo\"");
    assert_eq!(unknown_service_message("a\"b"), "unknown service: \"a\\\"b\"");
}

#[test]
fn response_ready_keeps_the_method() {
    let k: Kind<Poll<u8>, Poll<u8>, Poll<u8>, Poll<u8>, Poll<u8>> = Kind::SStreamSayHello(Poll::Ready(3));
    assert!(matches!(k.ready(), Poll::Ready(Kind::SStreamSayHello(3))));
    let k: Kind<Poll<u8>, Poll<u8>, Poll<u8>, Poll<u8>, Poll<u8>> = Kind::SayHello(Poll::NotReady);
    assert!(matches!(k.ready(), Poll::NotReady));
    let k: Kind<Poll<u8>, Poll<u8>, Poll<u8>, Poll<u8>, Poll<u8>> = Kind::Unimplemented(Poll::Ready(9));
    assert!(matches!(k.ready(), Poll::Ready(Kind::Unimplemented(9))));
}

#[test]
fn unknown_path_body_is_empty_and_ended() {
    let k: Kind<bool, bool, bool, bool, ()> = Kind::Unimplemented(());
    assert!(k.is_end_stream());
    let k: Kind<bool, bool, bool, bool, ()> = Kind::BStreamSayHello(false);
    assert!(!k.is_end_stream());
    let k: Kind<u8, u8, u8, u8, ()> = Kind::Unimplemented(());
    assert_eq!(k.inner(), None);
    let k: Kind<u8, u8, u8, u8, ()> = Kind::CStreamSayHello(4);
    assert_eq!(k.inner(), Some(4));
}

#[test]
fn meter_reports_every_interval() {
    let mut m = ThroughputMeter::new();
    assert!(m.observe());
    for _ in 1..MSG_PER_INSPECT {
        assert!(!m.observe());
    }
    assert_eq!(m.count, MSG_PER_INSPECT);
    assert!(m.observe());
    assert!(!m.observe());
}

#[test]
fn meter_count_wraps() {
    let mut m = ThroughputMeter { count: usize::MAX, last_report_ms: 5 };
    assert!(!m.observe() || usize::MAX % MSG_PER_INSPECT == 0);
    assert_eq!(m.count, 0);
    assert_eq!(m.last_report_ms, 5);
}

#[test]
fn meter_elapsed_between_reports() {
    let mut m = ThroughputMeter::new();
    assert_eq!(m.record(1500), None);
    assert_eq!(m.last_report_ms, 1500);
    assert_eq!(m.record(4000), Some(2500));
    assert_eq!(m.record(4000), Some(0));
}

#[test]
fn failed_key_or_skip_leaves_the_field() {
    let mut req = HelloRequest { name: "keep".to_string() };
    assert_eq!(req.merge_field(&[0x00], 0).unwrap_err().step, DecodeStep::Key);
    assert_eq!(req.name, "keep");
    assert_eq!(req.merge_field(&[0x10, 0x80], 0).unwrap_err().step, DecodeStep::Skip);
    assert_eq!(req.name, "keep");
}

#[test]
fn failed_merge_keeps_what_earlier_fields_made() {
    let mut buf = encode_request("ab");
    buf.push(0x00);
    let mut reply = HelloReply { reply: "x".to_string() };
    assert_eq!(reply.merge(&buf).unwrap_err().step, DecodeStep::Key);
    assert_eq!(reply.reply, "xab");
}

#[test]
fn near_miss_paths_are_unknown() {
    assert_eq!(route("/helloworld.Greeter/SayHello/"), None);
    assert_eq!(route("/helloworld.Greeter/SayHelloX"), None);
    assert_eq!(route("/Greeter/SayHello"), None);
    assert_eq!(route("x/helloworld.Greeter/SayHello"), None);
    assert_eq!(route("/HELLOWORLD.GREETER/BSTREAMSAYHELLO"), None);
    assert_eq!(route("/helloworld.Greeter/SayHello?x=1"), None);
}

#[test]
fn decode_errors_carry_prosts_description_and_location() {
    let e = HelloRequest::decode(&[0x0A, 1, 0xFF]).unwrap_err();
    assert_eq!(
        e.error.to_string(),
        "failed to decode Protobuf message: HelloRequest.name: invalid string value: data is not UTF-8 encoded"
    );
    let e = HelloReply::decode(&[0x0A, 5, b'a']).unwrap_err();
    assert_eq!(e.error.to_string(), "failed to decode Protobuf message: HelloReply.reply: buffer underflow");
    let e = HelloRequest::decode(&[0x00]).unwrap_err();
    assert_eq!(e.error.to_string(), "failed to decode Protobuf message: invalid tag value: 0");
    let e = HelloRequest::decode(&[0x10, 0x80]).unwrap_err();
    assert_eq!(e.error.to_string(), "failed to decode Protobuf message: invalid varint");
}
