//! The service side: one step of the dispatch loop.
//!
//! Each step takes one frame payload read from the service's input stream,
//! decodes it as a message envelope, routes it by case tag to the matching
//! service method, wraps the method's outcome in the transmitted result
//! wrapper, and hands back the one reply frame to write. A malformed frame
//! produces a failure reply and leaves the step ready for the next frame:
//! the loop around it never has a reason to stop serving. The loop itself
//! — reading standard input, writing standard output, forever — is plain
//! plumbing owned by the caller.

use vstd::prelude::*;
use vstd::utf8::encode_utf8;
use crate::codec::{
    dec_envelope, enc_envelope, enc_frame, enc_outcome, encode_outcome_frame, items_fit_envelope,
    decode_message_payload, views_of, EnvelopeView, MessageEnvelope, Outcome, OutcomeView,
    ResponseEnvelope, wf_envelope,
};
use crate::error::{spec_message, Error};
use crate::value::{has_type, items_match, FieldType, Value, ValueView, MAX_SEGMENT};

verus! {

/// Case tag of the "get name" operation: no request fields, one text
/// response field.
pub const OP_GET_NAME: u8 = 0;

/// Case tag of the "set rounding" operation: one boolean request field,
/// no response fields.
pub const OP_SET_ROUNDING: u8 = 1;

/// Case tag of the "float operation" operation: two numeric request
/// fields, one numeric response field. Numbers travel as 64-bit words; a
/// caller computing in another representation converts at the boundary.
pub const OP_FLOAT_OP: u8 = 2;

/// Case tag of the "random bytes" operation: one numeric request field
/// (the count), one byte-sequence response field.
pub const OP_RANDOM_BYTES: u8 = 3;

/// How many operations the example schema declares.
pub const OP_COUNT: u8 = 4;

/// The service interface: one method per operation of the example schema,
/// derived from it by the generation discipline. A plugin implements this;
/// the dispatch step owns the envelope handling around it. A method's
/// error is caught at the dispatch boundary and crosses the stream as the
/// failure arm of the result wrapper, never as a crash.
pub trait PluginService {
    /// "get name": the plugin's display name.
    fn get_name(&mut self) -> Result<String, Error>;

    /// "set rounding": switch result rounding on or off.
    fn set_rounding(&mut self, rounding: bool) -> Result<(), Error>;

    /// "float operation": combine the two numeric words.
    fn float_op(&mut self, a: u64, b: u64) -> Result<u64, Error>;

    /// "random bytes": produce `count` bytes.
    fn random_bytes(&mut self, count: u64) -> Result<Vec<u8>, Error>;
}

/// The request field list the example schema declares for a case tag:
/// the same declaration, by position, that generation derives the method
/// parameters from.
pub open spec fn example_request_fields(tag: u8) -> Seq<FieldType> {
    if tag == OP_GET_NAME {
        Seq::empty()
    } else if tag == OP_SET_ROUNDING {
        seq![FieldType::Bool]
    } else if tag == OP_FLOAT_OP {
        seq![FieldType::Num, FieldType::Num]
    } else {
        seq![FieldType::Num]
    }
}

/// The response field list the example schema declares for a case tag:
/// the same declaration, by position, that generation collapses into the
/// method return type.
pub open spec fn example_response_fields(tag: u8) -> Seq<FieldType> {
    if tag == OP_GET_NAME {
        seq![FieldType::Text]
    } else if tag == OP_SET_ROUNDING {
        Seq::empty()
    } else if tag == OP_FLOAT_OP {
        seq![FieldType::Num]
    } else {
        seq![FieldType::Bytes]
    }
}

/// Whether a decoded message envelope is a request the example schema
/// declares: a known case tag carrying that operation's request fields,
/// right in number and type.
pub open spec fn valid_request(m: EnvelopeView) -> bool {
    m.tag < OP_COUNT && items_match(m.items, example_request_fields(m.tag))
}

/// Whether a list of response values has the shape the schema declares
/// for the operation: the dispatch step re-wraps a method's return value
/// into exactly this case.
pub open spec fn response_shape_ok(tag: u8, items: Seq<ValueView>) -> bool {
    tag < OP_COUNT && items_match(items, example_response_fields(tag))
}

/// The failure text actually framed for a message: the message itself
/// when it fits a frame, and nothing otherwise — the reply frame is sent
/// either way, so one oversized error text cannot stall the stream.
pub open spec fn clipped_failure(m: Seq<char>) -> OutcomeView {
    if 5 + encode_utf8(m).len() <= MAX_SEGMENT {
        OutcomeView::Failure(m)
    } else {
        OutcomeView::Failure(Seq::empty())
    }
}

/// The reply frame reporting a failure with the given text.
pub open spec fn failure_frame_spec(m: Seq<char>) -> Seq<u8> {
    enc_frame(enc_outcome(clipped_failure(m)))
}

/// The reply frame for a method's successful return value: its success
/// frame when the values fit the wire, and a failure frame otherwise.
pub open spec fn success_frame_spec(tag: u8, items: Seq<ValueView>) -> Seq<u8> {
    let e = EnvelopeView { tag, items };
    if wf_envelope(e) {
        enc_frame(enc_outcome(OutcomeView::Success(e)))
    } else {
        failure_frame_spec(oversize_message())
    }
}

/// The failure text for a reply whose values cannot fit one frame.
pub open spec fn oversize_message() -> Seq<char> {
    "response does not fit one frame"@
}

/// The failure text for an input frame that is not a well-formed request.
pub open spec fn malformed_message() -> Seq<char> {
    "unreadable frame: not a request of the schema"@
}

/// Encodes one failure reply frame carrying the given text.
pub fn failure_frame(msg: String) -> (out: Vec<u8>)
    ensures
        out@ == failure_frame_spec(msg@),
{
    proof {
        vstd::bytes::lemma_auto_spec_u32_to_from_le_bytes();
    }
    let n = msg.as_str().as_bytes().len();
    if n <= MAX_SEGMENT - 5 {
        encode_outcome_frame(&Outcome::Failure(msg))
    } else {
        let empty = String::new();
        proof {
            assert(encode_utf8(Seq::<char>::empty()) == Seq::<u8>::empty());
            assert(empty@ =~= Seq::<char>::empty());
        }
        encode_outcome_frame(&Outcome::Failure(empty))
    }
}

/// Encodes the reply frame for a method's outcome: the success wrapper
/// around the re-wrapped return value, or the failure wrapper around the
/// error's descriptive text. This is the only channel by which a
/// handler-level failure becomes visible to the client.
pub fn reply_for_result(tag: u8, result: Result<Vec<Value>, Error>) -> (out: Vec<u8>)
    ensures
        result matches Ok(vals) ==> out@ == success_frame_spec(tag, views_of(vals@)),
        result matches Err(e) ==> out@ == failure_frame_spec(spec_message(e)),
{
    match result {
        Ok(vals) => {
            if items_fit_envelope(&vals) {
                let e = ResponseEnvelope { tag, vals };
                encode_outcome_frame(&Outcome::Success(e))
            } else {
                failure_frame("response does not fit one frame".to_owned())
            }
        },
        Err(e) => failure_frame(e.message()),
    }
}

/// The boolean argument a "set rounding" request destructures into: the
/// one value its message envelope case carries, exactly.
pub fn rounding_arg(m: &MessageEnvelope) -> (r: bool)
    requires
        valid_request(m@),
        m@.tag == OP_SET_ROUNDING,
    ensures
        m@.items == seq![ValueView::Bool(r)],
{
    let ghost items = views_of(m.args@);
    proof {
        assert(has_type(items[0], example_request_fields(m.tag)[0]));
        assert(items[0] == m.args@[0]@);
    }
    let r = match &m.args[0] {
        Value::Bool(x) => *x,
        _ => false,
    };
    proof {
        assert(m@.items =~= seq![ValueView::Bool(r)]);
    }
    r
}

/// The two numeric arguments a "float operation" request destructures
/// into, in declared order: the values its message envelope case carries,
/// exactly and unswapped.
pub fn float_args(m: &MessageEnvelope) -> (r: (u64, u64))
    requires
        valid_request(m@),
        m@.tag == OP_FLOAT_OP,
    ensures
        m@.items == seq![ValueView::Num(r.0), ValueView::Num(r.1)],
{
    let ghost items = views_of(m.args@);
    proof {
        assert(has_type(items[0], example_request_fields(m.tag)[0]));
        assert(has_type(items[1], example_request_fields(m.tag)[1]));
        assert(items[0] == m.args@[0]@);
        assert(items[1] == m.args@[1]@);
    }
    let a = match &m.args[0] {
        Value::Num(x) => *x,
        _ => 0,
    };
    let b = match &m.args[1] {
        Value::Num(x) => *x,
        _ => 0,
    };
    proof {
        assert(m@.items =~= seq![ValueView::Num(a), ValueView::Num(b)]);
    }
    (a, b)
}

/// The count argument a "random bytes" request destructures into: the
/// one value its message envelope case carries, exactly.
pub fn count_arg(m: &MessageEnvelope) -> (r: u64)
    requires
        valid_request(m@),
        m@.tag == OP_RANDOM_BYTES,
    ensures
        m@.items == seq![ValueView::Num(r)],
{
    let ghost items = views_of(m.args@);
    proof {
        assert(has_type(items[0], example_request_fields(m.tag)[0]));
        assert(items[0] == m.args@[0]@);
    }
    let r = match &m.args[0] {
        Value::Num(x) => *x,
        _ => 0,
    };
    proof {
        assert(m@.items =~= seq![ValueView::Num(r)]);
    }
    r
}

/// Re-wraps a "get name" result into its response case: exactly the one
/// text field, holding the returned name.
pub fn wrap_name(name: String) -> (vals: Vec<Value>)
    ensures
        views_of(vals@) == seq![ValueView::Text(name@)],
{
    let ghost n = name@;
    let mut vals: Vec<Value> = Vec::new();
    vals.push(Value::Text(name));
    proof {
        assert(views_of(vals@) =~= seq![ValueView::Text(n)]);
    }
    vals
}

/// Re-wraps a "set rounding" result into its response case: no fields.
pub fn wrap_unit() -> (vals: Vec<Value>)
    ensures
        views_of(vals@) == Seq::<ValueView>::empty(),
{
    let vals: Vec<Value> = Vec::new();
    proof {
        assert(views_of(vals@) =~= Seq::<ValueView>::empty());
    }
    vals
}

/// Re-wraps a "float operation" result into its response case: exactly
/// the one numeric field, holding the returned word.
pub fn wrap_float(out: u64) -> (vals: Vec<Value>)
    ensures
        views_of(vals@) == seq![ValueView::Num(out)],
{
    let mut vals: Vec<Value> = Vec::new();
    vals.push(Value::Num(out));
    proof {
        assert(views_of(vals@) =~= seq![ValueView::Num(out)]);
    }
    vals
}

/// Re-wraps a "random bytes" result into its response case: exactly the
/// one byte-sequence field, holding the returned bytes.
pub fn wrap_bytes(bytes: Vec<u8>) -> (vals: Vec<Value>)
    ensures
        views_of(vals@) == seq![ValueView::Bytes(bytes@)],
{
    let ghost b = bytes@;
    let mut vals: Vec<Value> = Vec::new();
    vals.push(Value::Bytes(bytes));
    proof {
        assert(views_of(vals@) =~= seq![ValueView::Bytes(b)]);
    }
    vals
}

/// Routes a schema-valid request to the matching service method and
/// re-wraps the method's return value into the matching response case:
/// the dispatch table of the example schema, one arm per operation. What
/// each arm hands its method is fixed by the extraction helpers above
/// ([`rounding_arg`], [`float_args`], [`count_arg`]: the case's field
/// values, in declared order), and what it replies is fixed by the wrap
/// helpers ([`wrap_name`], [`wrap_unit`], [`wrap_float`], [`wrap_bytes`]:
/// exactly the method's result, re-collapsed into the case's fields); the
/// method itself, being the implementer's, is the one link no contract
/// here pins down.
pub fn dispatch_message<S: PluginService>(svc: &mut S, m: MessageEnvelope) -> (r: Result<
    Vec<Value>,
    Error,
>)
    requires
        valid_request(m@),
    ensures
        r matches Ok(vals) ==> response_shape_ok(m.tag, views_of(vals@)),
{
    if m.tag == OP_GET_NAME {
        match svc.get_name() {
            Ok(name) => Ok(wrap_name(name)),
            Err(e) => Err(e),
        }
    } else if m.tag == OP_SET_ROUNDING {
        let flag = rounding_arg(&m);
        match svc.set_rounding(flag) {
            Ok(()) => Ok(wrap_unit()),
            Err(e) => Err(e),
        }
    } else if m.tag == OP_FLOAT_OP {
        let (a, b) = float_args(&m);
        match svc.float_op(a, b) {
            Ok(out) => Ok(wrap_float(out)),
            Err(e) => Err(e),
        }
    } else {
        let count = count_arg(&m);
        match svc.random_bytes(count) {
            Ok(bytes) => Ok(wrap_bytes(bytes)),
            Err(e) => Err(e),
        }
    }
}

/// Whether a list of values carries exactly a declared field list.
fn values_match(vals: &Vec<Value>, fields: &Vec<FieldType>) -> (b: bool)
    ensures
        b == items_match(crate::codec::views_of(vals@), fields@),
{
    let ghost items = crate::codec::views_of(vals@);
    if vals.len() != fields.len() {
        return false;
    }
    let n = vals.len();
    let mut i: usize = 0;
    while i < n
        invariant
            n == vals@.len(),
            n == fields@.len(),
            i <= n,
            items == crate::codec::views_of(vals@),
            forall|j: int| 0 <= j < i ==> has_type(#[trigger] items[j], fields@[j]),
        decreases n - i,
    {
        let f = fields[i];
        let ok = match &vals[i] {
            Value::Bool(_) => f == FieldType::Bool,
            Value::Num(_) => f == FieldType::Num,
            Value::Bytes(_) => f == FieldType::Bytes,
            Value::Text(_) => f == FieldType::Text,
        };
        proof {
            assert(items[i as int] == vals@[i as int]@);
        }
        if !ok {
            return false;
        }
        i += 1;
    }
    true
}

/// The request field list of a case tag, as runnable data.
fn request_fields_of(tag: u8) -> (r: Vec<FieldType>)
    requires
        tag < OP_COUNT,
    ensures
        r@ == example_request_fields(tag),
{
    let mut r: Vec<FieldType> = Vec::new();
    if tag == OP_SET_ROUNDING {
        r.push(FieldType::Bool);
        proof {
            assert(r@ =~= example_request_fields(tag));
        }
    } else if tag == OP_FLOAT_OP {
        r.push(FieldType::Num);
        r.push(FieldType::Num);
        proof {
            assert(r@ =~= example_request_fields(tag));
        }
    } else if tag == OP_RANDOM_BYTES {
        r.push(FieldType::Num);
        proof {
            assert(r@ =~= example_request_fields(tag));
        }
    } else {
        proof {
            assert(r@ =~= example_request_fields(tag));
        }
    }
    r
}

/// Whether a decoded envelope is a request of the example schema.
pub fn request_valid(m: &MessageEnvelope) -> (b: bool)
    ensures
        b == valid_request(m@),
{
    if m.tag >= OP_COUNT {
        return false;
    }
    let fields = request_fields_of(m.tag);
    values_match(&m.args, &fields)
}

/// One full step of the dispatch loop: read one frame payload, decode,
/// route, execute, wrap, encode — and hand back the one reply frame to
/// write. A payload that does not decode to a schema-valid request yields
/// a failure reply, not a crash and not an end of service: the step always
/// returns, so the loop around it goes on to the next frame regardless —
/// and on that path the service value is left exactly as it was, so a
/// corrupt frame has no effect beyond its own failure reply.
///
/// For a schema-valid request the reply is a success frame re-wrapping
/// the method's return value under the request's own case tag — or a
/// failure frame carrying the method's error text, exactly as
/// [`reply_for_result`] states.
pub fn serve_payload<S: PluginService>(svc: &mut S, payload: &[u8]) -> (out: Vec<u8>)
    ensures
        dec_envelope(payload@) is None ==> out@ == failure_frame_spec(malformed_message())
            && *final(svc) == *old(svc),
        dec_envelope(payload@) matches Some(m) ==> if !valid_request(m) {
            out@ == failure_frame_spec(malformed_message()) && *final(svc) == *old(svc)
        } else {
            ((exists|vals: Seq<ValueView>|
                response_shape_ok(m.tag, vals) && out@ == success_frame_spec(m.tag, vals))
                || (exists|t: Seq<char>| out@ == failure_frame_spec(t)))
        },
{
    match decode_message_payload(payload) {
        None => failure_frame("unreadable frame: not a request of the schema".to_owned()),
        Some(m) => {
            if !request_valid(&m) {
                failure_frame("unreadable frame: not a request of the schema".to_owned())
            } else {
                let tag = m.tag;
                let result = dispatch_message(svc, m);
                let ghost result_view = match result {
                    Ok(ref vals) => Ok::<Seq<ValueView>, Seq<char>>(views_of(vals@)),
                    Err(ref e) => Err(spec_message(*e)),
                };
                let out = reply_for_result(tag, result);
                proof {
                    match result_view {
                        Ok(vals) => {
                            assert(response_shape_ok(tag, vals) && out@ == success_frame_spec(
                                tag,
                                vals,
                            ));
                        },
                        Err(t) => {
                            assert(out@ == failure_frame_spec(t));
                        },
                    }
                }
                out
            }
        },
    }
}

/// Round trip: when the service's handler for an operation is the
/// identity on its request values — the response envelope carries back
/// exactly the values the message envelope brought — then a call with any
/// well-formed arguments hands those arguments back unchanged. The request
/// frame decodes on the service side to exactly the envelope the client
/// built, and the success reply decodes on the client side, under the
/// matching case tag, to exactly the same values.
pub proof fn lemma_identity_round_trip(tag: u8, args: Seq<ValueView>)
    requires
        wf_envelope(EnvelopeView { tag, items: args }),
    ensures
        ({
            let e = EnvelopeView { tag, items: args };
            let request = enc_frame(enc_envelope(e));
            let reply = success_frame_spec(tag, args);
            &&& crate::codec::dec_frame(request) == Some((
                enc_envelope(e),
                request.len() as int,
            ))
            &&& dec_envelope(enc_envelope(e)) == Some(e)
            &&& reply == enc_frame(enc_outcome(OutcomeView::Success(e)))
            &&& crate::codec::dec_frame(reply) == Some((
                enc_outcome(OutcomeView::Success(e)),
                reply.len() as int,
            ))
            &&& crate::codec::dec_outcome(enc_outcome(OutcomeView::Success(e))) == Some(
                OutcomeView::Success(e),
            )
        }),
{
    let e = EnvelopeView { tag, items: args };
    let request = enc_frame(enc_envelope(e));
    assert(request =~= enc_frame(enc_envelope(e)) + Seq::<u8>::empty());
    crate::codec::lemma_dec_enc_frame(enc_envelope(e), Seq::empty());
    crate::codec::lemma_dec_enc_envelope(e);
    let reply = enc_frame(enc_outcome(OutcomeView::Success(e)));
    assert(reply =~= enc_frame(enc_outcome(OutcomeView::Success(e))) + Seq::<u8>::empty());
    crate::codec::lemma_dec_enc_frame(enc_outcome(OutcomeView::Success(e)), Seq::empty());
    crate::codec::lemma_dec_enc_outcome(OutcomeView::Success(e));
}

} // verus!
