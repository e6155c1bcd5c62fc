use io_plugin::codec::{
    decode_frame_at, decode_message_payload, decode_outcome_payload, encode_message_frame,
    encode_outcome_frame, MessageEnvelope, Outcome, ResponseEnvelope,
};
use io_plugin::dispatch::{
    count_arg, float_args, rounding_arg, serve_payload, wrap_bytes, wrap_float, wrap_name,
    wrap_unit, PluginService, OP_FLOAT_OP, OP_GET_NAME, OP_RANDOM_BYTES, OP_SET_ROUNDING,
};
use io_plugin::error::Error;
use io_plugin::proxy::{
    build_float_op_request, build_get_name_request, build_random_bytes_request,
    build_set_rounding_request, parse_float_op_reply, parse_get_name_reply,
    parse_random_bytes_reply, parse_set_rounding_reply, CallError,
};
use io_plugin::value::Value;

/// A plugin whose arithmetic adds the two words and treats a zero second
/// word as an invalid computation.
struct TestPlugin {
    rounding: bool,
}

impl PluginService for TestPlugin {
    fn get_name(&mut self) -> Result<String, Error> {
        Ok("example plugin".to_string())
    }

    fn set_rounding(&mut self, rounding: bool) -> Result<(), Error> {
        self.rounding = rounding;
        Ok(())
    }

    fn float_op(&mut self, a: u64, b: u64) -> Result<u64, Error> {
        if b == 0 {
            Err(Error::MathError)
        } else {
            Ok(a.wrapping_add(b))
        }
    }

    fn random_bytes(&mut self, count: u64) -> Result<Vec<u8>, Error> {
        Ok(vec![0xA5; count as usize])
    }
}

/// One full client-side call against an in-memory service: frame the
/// request, let the dispatch step serve it, and decode the reply payload.
fn round_trip(svc: &mut TestPlugin, request: Vec<u8>) -> Vec<u8> {
    let (payload, next) = decode_frame_at(&request, 0).expect("request frame must decode");
    assert_eq!(next, request.len(), "one request is exactly one frame");
    let reply = serve_payload(svc, &payload);
    let (reply_payload, reply_next) = decode_frame_at(&reply, 0).expect("reply frame must decode");
    assert_eq!(reply_next, reply.len(), "one reply is exactly one frame");
    reply_payload
}

#[test]
fn get_name_round_trip() {
    let mut svc = TestPlugin { rounding: false };
    let reply = round_trip(&mut svc, build_get_name_request());
    let name = parse_get_name_reply(&reply).expect("get name must succeed");
    assert_eq!(name, "example plugin");
}

#[test]
fn set_rounding_round_trip() {
    let mut svc = TestPlugin { rounding: false };
    let reply = round_trip(&mut svc, build_set_rounding_request(true));
    parse_set_rounding_reply(&reply).expect("set rounding must succeed");
    assert!(svc.rounding, "the service saw the flag");
}

#[test]
fn float_op_round_trip() {
    let mut svc = TestPlugin { rounding: false };
    let reply = round_trip(&mut svc, build_float_op_request(40, 2));
    let out = parse_float_op_reply(&reply).expect("float op must succeed");
    assert_eq!(out, 42);
}

#[test]
fn byte_volume_scenario() {
    let mut svc = TestPlugin { rounding: false };
    let reply = round_trip(&mut svc, build_random_bytes_request(1024));
    let bytes = parse_random_bytes_reply(&reply).expect("random bytes must succeed");
    assert_eq!(bytes.len(), 1024);
}

#[test]
fn error_propagation_and_service_survives() {
    let mut svc = TestPlugin { rounding: false };
    let reply = round_trip(&mut svc, build_float_op_request(1, 0));
    match parse_float_op_reply(&reply) {
        Err(CallError::Application(msg)) => {
            assert_eq!(msg, "The result is mathematically invalid");
        }
        other => panic!("expected the domain error, got {other:?}"),
    }
    // The dispatch loop serves the next frame correctly after a failure.
    let reply = round_trip(&mut svc, build_float_op_request(2, 3));
    assert_eq!(parse_float_op_reply(&reply), Ok(5));
}

#[test]
fn malformed_frame_resilience() {
    let mut svc = TestPlugin { rounding: false };
    // A corrupt payload: a tag, a count of one field, then garbage.
    let corrupt: Vec<u8> = vec![OP_FLOAT_OP, 1, 0xFF, 0xFF];
    assert!(decode_message_payload(&corrupt).is_none());
    let reply = serve_payload(&mut svc, &corrupt);
    let (reply_payload, _) = decode_frame_at(&reply, 0).expect("failure reply is one frame");
    match decode_outcome_payload(&reply_payload) {
        Some(Outcome::Failure(msg)) => assert!(!msg.is_empty()),
        other => panic!("expected a failure outcome, got {other:?}"),
    }
    // A subsequent well-formed frame is still served correctly.
    let reply = round_trip(&mut svc, build_float_op_request(7, 3));
    assert_eq!(parse_float_op_reply(&reply), Ok(10));
}

#[test]
fn unknown_operation_is_a_failure_reply() {
    let mut svc = TestPlugin { rounding: false };
    let stray = encode_message_frame(&MessageEnvelope { tag: 9, args: Vec::new() });
    let (payload, _) = decode_frame_at(&stray, 0).unwrap();
    let reply = serve_payload(&mut svc, &payload);
    let (reply_payload, _) = decode_frame_at(&reply, 0).unwrap();
    assert!(matches!(
        decode_outcome_payload(&reply_payload),
        Some(Outcome::Failure(_))
    ));
}

#[test]
fn reply_tag_mismatch_is_a_protocol_error() {
    let frame = encode_outcome_frame(&Outcome::Success(ResponseEnvelope {
        tag: OP_GET_NAME,
        vals: vec![Value::Text("whoever".to_string())],
    }));
    let (payload, _) = decode_frame_at(&frame, 0).unwrap();
    assert_eq!(
        parse_float_op_reply(&payload),
        Err(CallError::TagMismatch),
        "a reply for another operation means the stream is out of step"
    );
}

#[test]
fn frames_are_self_delimiting_in_a_stream() {
    // Two requests written back to back: each read stops exactly at its
    // frame's end, so sequential calls never desynchronize.
    let mut stream = build_set_rounding_request(true);
    let second = build_float_op_request(8, 9);
    stream.extend_from_slice(&second);
    let (p1, next1) = decode_frame_at(&stream, 0).unwrap();
    let m1 = decode_message_payload(&p1).unwrap();
    assert_eq!(m1.tag, OP_SET_ROUNDING);
    let (p2, next2) = decode_frame_at(&stream, next1).unwrap();
    let m2 = decode_message_payload(&p2).unwrap();
    assert_eq!(m2.tag, OP_FLOAT_OP);
    assert_eq!(m2.args, vec![Value::Num(8), Value::Num(9)]);
    assert_eq!(next2, stream.len());
}

#[test]
fn message_envelope_codec_round_trips_every_field_kind() {
    let m = MessageEnvelope {
        tag: OP_RANDOM_BYTES,
        args: vec![
            Value::Bool(true),
            Value::Num(0xDEAD_BEEF_0102_0304),
            Value::Bytes(vec![0, 1, 2, 255]),
            Value::Text("héllo, wörld".to_string()),
        ],
    };
    let frame = encode_message_frame(&m);
    let (payload, used) = decode_frame_at(&frame, 0).unwrap();
    assert_eq!(used, frame.len());
    let back = decode_message_payload(&payload).unwrap();
    assert_eq!(back, m);
}

#[test]
fn truncated_frame_is_incomplete_not_garbled() {
    let frame = build_float_op_request(1, 2);
    let cut = &frame[..frame.len() - 1].to_vec();
    assert!(decode_frame_at(cut, 0).is_none(), "an unfinished frame decodes to nothing yet");
}

#[test]
fn trailing_bytes_make_a_payload_malformed() {
    let frame = build_set_rounding_request(false);
    let (mut payload, _) = decode_frame_at(&frame, 0).unwrap();
    assert!(decode_message_payload(&payload).is_some());
    payload.push(0);
    assert!(
        decode_message_payload(&payload).is_none(),
        "an envelope must consume its payload exactly"
    );
}

#[test]
fn invalid_utf8_in_a_text_field_is_malformed() {
    // A hand-built payload: case tag, one field, a text value of one byte
    // that is not valid UTF-8.
    let payload: Vec<u8> = vec![OP_GET_NAME, 1, 4, 1, 0, 0, 0, 0xFF];
    assert!(decode_message_payload(&payload).is_none());
}

#[test]
fn dispatch_arms_destructure_and_rewrap_exactly() {
    let m = MessageEnvelope {
        tag: OP_FLOAT_OP,
        args: vec![Value::Num(11), Value::Num(22)],
    };
    assert_eq!(float_args(&m), (11, 22), "arguments arrive in declared order, unswapped");
    let m = MessageEnvelope { tag: OP_SET_ROUNDING, args: vec![Value::Bool(true)] };
    assert!(rounding_arg(&m));
    let m = MessageEnvelope { tag: OP_RANDOM_BYTES, args: vec![Value::Num(1024)] };
    assert_eq!(count_arg(&m), 1024);
    assert_eq!(wrap_name("n".to_string()), vec![Value::Text("n".to_string())]);
    assert_eq!(wrap_unit(), Vec::<Value>::new());
    assert_eq!(wrap_float(7), vec![Value::Num(7)]);
    assert_eq!(wrap_bytes(vec![1, 2]), vec![Value::Bytes(vec![1, 2])]);
}

/// The dispatch step routes by case tag: each operation reaches its own
/// method, with its own arguments.
#[test]
fn dispatch_routes_each_tag_to_its_own_method() {
    struct Recorder {
        calls: Vec<String>,
    }
    impl PluginService for Recorder {
        fn get_name(&mut self) -> Result<String, Error> {
            self.calls.push("get_name".to_string());
            Ok(String::new())
        }
        fn set_rounding(&mut self, rounding: bool) -> Result<(), Error> {
            self.calls.push(format!("set_rounding {rounding}"));
            Ok(())
        }
        fn float_op(&mut self, a: u64, b: u64) -> Result<u64, Error> {
            self.calls.push(format!("float_op {a} {b}"));
            Ok(0)
        }
        fn random_bytes(&mut self, count: u64) -> Result<Vec<u8>, Error> {
            self.calls.push(format!("random_bytes {count}"));
            Ok(Vec::new())
        }
    }
    let mut svc = Recorder { calls: Vec::new() };
    for request in [
        build_get_name_request(),
        build_set_rounding_request(true),
        build_float_op_request(3, 4),
        build_random_bytes_request(9),
    ] {
        let (payload, _) = decode_frame_at(&request, 0).unwrap();
        serve_payload(&mut svc, &payload);
    }
    assert_eq!(
        svc.calls,
        ["get_name", "set_rounding true", "float_op 3 4", "random_bytes 9"]
    );
}

#[test]
fn error_messages() {
    assert_eq!(Error::MathError.message(), "The result is mathematically invalid");
    assert_eq!(Error::Generic("pipe broke".to_string()).message(), "pipe broke");
}
